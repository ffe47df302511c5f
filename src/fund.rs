//! A token whitelist held on its own: an ordered, bounded set of approved
//! tokens whose first element is the deposit token.
use vstd::prelude::*;

use crate::account::AccountId;

verus! {

/// Why a whitelist change was rejected.
#[derive(Clone, Copy, Debug, PartialEq, Eq, Structural)]
pub enum Error {
    DuplicateTokenError,
    TokenIsntWhitelistError,
    /// The whitelist already holds its maximum number of tokens.
    TooManyTokensError,
}

/// A token was whitelisted.
#[derive(Clone, Copy, Debug, PartialEq, Eq, Structural)]
pub struct AddToWhiteList {
    pub token_id: AccountId,
}

/// A token was removed from the whitelist.
#[derive(Clone, Copy, Debug, PartialEq, Eq, Structural)]
pub struct RemoveFromWhiteList {
    pub token_id: AccountId,
}

/// Either event of a whitelist.
#[derive(Clone, Copy, Debug, PartialEq, Eq, Structural)]
pub enum FundEvent {
    AddToWhiteList(AddToWhiteList),
    RemoveFromWhiteList(RemoveFromWhiteList),
}

/// An ordered, bounded whitelist of tokens.
pub trait TokenWhitelist {
    /// The approved tokens, in order.
    spec fn approved(&self) -> Seq<AccountId>;

    /// The largest number of tokens the whitelist may hold.
    spec fn capacity(&self) -> nat;

    /// The tokens are distinct and within capacity.
    spec fn inv(&self) -> bool;

    /// The deposit token: the first approved token.
    fn get_deposit_token(&self) -> (r: AccountId)
        requires
            self.inv(),
            self.approved().len() > 0,
        ensures
            r == self.approved()[0],
    ;

    /// The approved token at `index`.
    fn get_approved_token(&self, index: u32) -> (r: AccountId)
        requires
            self.inv(),
            index < self.approved().len(),
        ensures
            r == self.approved()[index as int],
    ;

    /// The number of approved tokens.
    fn total_approved_tokens(&self) -> (r: u32)
        requires
            self.inv(),
        ensures
            r == self.approved().len(),
    ;

    /// Appends `token_id` to the whitelist.
    fn whitelist_token(&mut self, token_id: AccountId) -> (r: Result<(), Error>)
        requires
            old(self).inv(),
        ensures
            final(self).inv(),
            final(self).capacity() == old(self).capacity(),
            r == if old(self).approved().contains(token_id) {
                Err::<(), Error>(Error::DuplicateTokenError)
            } else if old(self).approved().len() >= old(self).capacity() {
                Err(Error::TooManyTokensError)
            } else {
                Ok(())
            },
            r is Ok ==> final(self).approved() == old(self).approved().push(token_id),
            r is Err ==> final(self).approved() == old(self).approved(),
    ;

    /// Removes `token_id` from the whitelist, keeping the order of the rest.
    fn unwhitelist_token(&mut self, token_id: AccountId) -> (r: Result<(), Error>)
        requires
            old(self).inv(),
        ensures
            final(self).inv(),
            final(self).capacity() == old(self).capacity(),
            r == if old(self).approved().contains(token_id) {
                Ok::<(), Error>(())
            } else {
                Err(Error::TokenIsntWhitelistError)
            },
            r is Ok ==> final(self).approved() == old(self).approved().remove(old(self).approved().index_of(token_id)),
            r is Err ==> final(self).approved() == old(self).approved(),
    ;

    /// Whether `token_id` is whitelisted.
    fn is_token_whitelisted(&self, token_id: AccountId) -> (r: bool)
        requires
            self.inv(),
        ensures
            r == self.approved().contains(token_id),
    ;
}

/// A whitelist of tokens, with the events it emitted.
pub struct Fund {
    pub max_token_whitelist_count: u32,
    pub approved_tokens: Vec<AccountId>,
    pub events: Vec<FundEvent>,
}

impl Fund {
    /// A whitelist of `approved_tokens`, which must be distinct, non-empty
    /// and at most `max_token_whitelist_count` many.
    pub fn new(approved_tokens: Vec<AccountId>, max_token_whitelist_count: u32) -> (r: Fund)
        requires
            approved_tokens@.len() > 0,
            approved_tokens@.len() <= max_token_whitelist_count,
            approved_tokens@.no_duplicates(),
        ensures
            r.inv(),
            r.approved() == approved_tokens@,
            r.capacity() == max_token_whitelist_count,
    {
        let mut fund = Fund { max_token_whitelist_count, approved_tokens: Vec::new(), events: Vec::new() };
        let mut i: usize = 0;
        while i < approved_tokens.len()
            invariant
                i <= approved_tokens@.len(),
                approved_tokens@.len() <= max_token_whitelist_count,
                approved_tokens@.no_duplicates(),
                fund.inv(),
                fund.max_token_whitelist_count == max_token_whitelist_count,
                fund.approved_tokens@ == approved_tokens@.subrange(0, i as int),
            decreases approved_tokens@.len() - i,
        {
            let t = approved_tokens[i];
            proof {
                assert(!fund.approved_tokens@.contains(t)) by {
                    if fund.approved_tokens@.contains(t) {
                        let j = fund.approved_tokens@.index_of(t);
                        assert(approved_tokens@[j] == approved_tokens@[i as int]);
                    }
                }
            }
            let r = fund.whitelist_token(t);
            proof {
                assert(fund.approved_tokens@ =~= approved_tokens@.subrange(0, i + 1));
            }
            i = i + 1;
        }
        proof {
            assert(fund.approved_tokens@ =~= approved_tokens@);
        }
        fund
    }

    fn position(&self, token_id: AccountId) -> (r: Option<usize>)
        requires
            self.inv(),
        ensures
            r matches Some(i) ==> i < self.approved_tokens@.len() && self.approved_tokens@[i as int] == token_id,
            r is None <==> !self.approved_tokens@.contains(token_id),
    {
        let mut i: usize = 0;
        while i < self.approved_tokens.len()
            invariant
                i <= self.approved_tokens@.len(),
                forall|j: int| 0 <= j < i ==> #[trigger] self.approved_tokens@[j] != token_id,
            decreases self.approved_tokens@.len() - i,
        {
            if self.approved_tokens[i] == token_id {
                return Some(i);
            }
            i = i + 1;
        }
        None
    }
}

impl TokenWhitelist for Fund {
    open spec fn approved(&self) -> Seq<AccountId> {
        self.approved_tokens@
    }

    open spec fn capacity(&self) -> nat {
        self.max_token_whitelist_count as nat
    }

    open spec fn inv(&self) -> bool {
        self.approved_tokens@.no_duplicates() && self.approved_tokens@.len() <= self.max_token_whitelist_count
    }

    fn get_deposit_token(&self) -> (r: AccountId) {
        self.approved_tokens[0]
    }

    fn get_approved_token(&self, index: u32) -> (r: AccountId) {
        self.approved_tokens[index as usize]
    }

    fn total_approved_tokens(&self) -> (r: u32) {
        self.approved_tokens.len() as u32
    }

    fn whitelist_token(&mut self, token_id: AccountId) -> (r: Result<(), Error>) {
        if self.position(token_id).is_some() {
            return Err(Error::DuplicateTokenError);
        }
        if self.approved_tokens.len() >= self.max_token_whitelist_count as usize {
            return Err(Error::TooManyTokensError);
        }
        self.approved_tokens.push(token_id);
        self.events.push(FundEvent::AddToWhiteList(AddToWhiteList { token_id }));
        Ok(())
    }

    fn unwhitelist_token(&mut self, token_id: AccountId) -> (r: Result<(), Error>) {
        match self.position(token_id) {
            None => Err(Error::TokenIsntWhitelistError),
            Some(i) => {
                proof {
                    assert(self.approved_tokens@.index_of(token_id) == i as int);
                }
                let ghost before = self.approved_tokens@;
                self.approved_tokens.remove(i);
                proof {
                    assert forall|a: int, b: int|
                        0 <= a < b < self.approved_tokens@.len() implies self.approved_tokens@[a]
                        != self.approved_tokens@[b] by {
                        let a2 = if a < i { a } else { a + 1 };
                        let b2 = if b < i { b } else { b + 1 };
                        assert(self.approved_tokens@[a] == before[a2]);
                        assert(self.approved_tokens@[b] == before[b2]);
                    }
                }
                self.events.push(FundEvent::RemoveFromWhiteList(RemoveFromWhiteList { token_id }));
                Ok(())
            },
        }
    }

    fn is_token_whitelisted(&self, token_id: AccountId) -> (r: bool) {
        self.position(token_id).is_some()
    }
}

} // verus!
