//! Account identifiers and the three reserved ledger accounts.
use vstd::prelude::*;

verus! {

/// An opaque 32-byte account identifier, held as its two big-endian halves.
#[derive(Clone, Copy, Debug, PartialEq, Eq, Structural, Hash)]
pub struct AccountId {
    pub hi: u128,
    pub lo: u128,
}

impl AccountId {
    /// The account made of the two given halves.
    pub fn new(hi: u128, lo: u128) -> (r: AccountId)
        ensures
            r.hi == hi,
            r.lo == lo,
    {
        AccountId { hi, lo }
    }

    /// The all-zero account, which stands for "no address".
    pub fn zero() -> (r: AccountId)
        ensures
            r == zero_account(),
    {
        AccountId { hi: 0, lo: 0 }
    }

    /// Whether this is the all-zero account.
    pub fn is_zero(&self) -> (r: bool)
        ensures
            r == (*self == zero_account()),
    {
        self.hi == 0 && self.lo == 0
    }
}

pub open spec fn zero_account() -> AccountId {
    AccountId { hi: 0, lo: 0 }
}

/// The account that holds the pooled funds of the guild bank.
pub open spec fn guild_account() -> AccountId {
    AccountId { hi: 0x056faca2f85a10bb2fddce6383c96098, lo: 0x2d22d1bd462e661094a2b85774a8174f }
}

/// The account that holds tributes and deposits while their proposal is open.
pub open spec fn escrow_account() -> AccountId {
    AccountId { hi: 0x3ab8ded641303c10511847fda71d8550, lo: 0xdabd855bd60e789caca07f121fbf9249 }
}

/// The account whose balance of a token is the sum over all other accounts.
pub open spec fn total_account() -> AccountId {
    AccountId { hi: 0x056faca2f85a10bb2fddce6383c96098, lo: 0x2d22d1bd462e661094a2b85774a8174b }
}

/// Whether an account is one of the three reserved ledger accounts.
pub open spec fn is_reserved(a: AccountId) -> bool {
    a == guild_account() || a == escrow_account() || a == total_account()
}

/// The guild bank account.
pub fn guild() -> (r: AccountId)
    ensures
        r == guild_account(),
{
    AccountId { hi: 0x056faca2f85a10bb2fddce6383c96098, lo: 0x2d22d1bd462e661094a2b85774a8174f }
}

/// The escrow account.
pub fn escrow() -> (r: AccountId)
    ensures
        r == escrow_account(),
{
    AccountId { hi: 0x3ab8ded641303c10511847fda71d8550, lo: 0xdabd855bd60e789caca07f121fbf9249 }
}

/// The total account.
pub fn total() -> (r: AccountId)
    ensures
        r == total_account(),
{
    AccountId { hi: 0x056faca2f85a10bb2fddce6383c96098, lo: 0x2d22d1bd462e661094a2b85774a8174b }
}

/// Whether `a` is one of the reserved ledger accounts.
pub fn reserved(a: AccountId) -> (r: bool)
    ensures
        r == is_reserved(a),
{
    a == guild() || a == escrow() || a == total()
}

} // verus!
