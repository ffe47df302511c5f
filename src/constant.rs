//! Hard-coded limits. They are small enough to keep period and share
//! arithmetic far from overflow, yet large enough not to limit reasonable use.
use vstd::prelude::*;

verus! {

/// Maximum length of the voting period, in periods.
pub const MAX_VOTING_PERIOD_LENGTH: u128 = 1_000_000_000_000_000_000;

/// Maximum length of the grace period, in periods.
pub const MAX_GRACE_PERIOD_LENGTH: u128 = 1_000_000_000_000_000_000;

/// Maximum dilution bound.
pub const MAX_DILUTION_BOUND: u128 = 1_000_000_000_000_000_000;

/// Maximum number of shares and loot that can exist together.
pub const MAX_NUMBER_OF_SHARES_AND_LOOT: u128 = 1_000_000_000_000_000_000;

/// Maximum number of whitelisted tokens.
pub const MAX_TOKEN_WHITELIST_COUNT: u128 = 400;

/// Maximum number of tokens with a non-zero balance in the guild bank.
pub const MAX_TOKEN_GUILDBANK_COUNT: u128 = 200;

} // verus!
