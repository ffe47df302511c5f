//! The whitelist of approved tokens and the internal ledger over all of them.
use vstd::prelude::*;

use crate::account::{guild_account, total_account, zero_account, AccountId};
use crate::constant::MAX_TOKEN_WHITELIST_COUNT;
use crate::ledger::TokenLedger;
use crate::utils::{lemma_sum_push, lemma_sum_update, sum};

verus! {

/// 1 if the guild holds some of the ledger's token, else 0.
pub open spec fn guild_holds(l: TokenLedger) -> int {
    if l.balance(guild_account()) > 0 {
        1
    } else {
        0
    }
}

/// The number of ledgers in which the guild holds a positive balance.
pub open spec fn guild_count(ls: Seq<TokenLedger>) -> int {
    sum(ls.map_values(|l: TokenLedger| guild_holds(l)))
}

proof fn lemma_count_bounds(s: Seq<int>)
    requires
        forall|i: int| 0 <= i < s.len() ==> 0 <= #[trigger] s[i] <= 1,
    ensures
        0 <= sum(s) <= s.len(),
    decreases s.len(),
{
    if s.len() > 0 {
        lemma_count_bounds(s.drop_last());
    }
}

proof fn lemma_index_of(s: Seq<AccountId>, i: int)
    requires
        s.no_duplicates(),
        0 <= i < s.len(),
    ensures
        s.index_of(s[i]) == i,
{
    assert(s.contains(s[i]));
}

/// Changing the ledger at position `i` changes the balances of its token
/// only, and the guild count by what the guild holds of it before and after.
proof fn lemma_update_frame(o: Bank, n: Bank, i: int)
    requires
        o.wf(),
        0 <= i < o.approved_tokens@.len(),
        n.approved_tokens@ == o.approved_tokens@,
        n.ledgers@ == o.ledgers@.update(i, n.ledgers@[i]),
    ensures
        forall|u: AccountId, s: AccountId| s != o.approved_tokens@[i] ==> #[trigger] n.balance(u, s) == o.balance(u, s),
        forall|u: AccountId| #[trigger] n.balance(u, o.approved_tokens@[i]) == n.ledgers@[i].balance(u),
        guild_count(n.ledgers@) == guild_count(o.ledgers@) - guild_holds(o.ledgers@[i]) + guild_holds(n.ledgers@[i]),
        0 <= guild_count(n.ledgers@) <= n.ledgers@.len(),
{
    let f = |l: TokenLedger| guild_holds(l);
    lemma_sum_update(o.ledgers@.map_values(f), i, guild_holds(n.ledgers@[i]));
    assert(n.ledgers@.map_values(f) =~= o.ledgers@.map_values(f).update(i, guild_holds(n.ledgers@[i])));
    lemma_count_bounds(n.ledgers@.map_values(f));
    lemma_index_of(o.approved_tokens@, i);
    assert forall|u: AccountId, s: AccountId| s != o.approved_tokens@[i] implies #[trigger] n.balance(u, s) == o.balance(u, s) by {
        if o.is_whitelisted(s) {
            let j = o.approved_tokens@.index_of(s);
            assert(j != i);
        }
    }
}

/// A map from (account, token) to balance.
pub type Balances = Map<(AccountId, AccountId), int>;

/// `m` after moving `a` of token `t` from `from` to `to`.
pub open spec fn moved(m: Balances, from: AccountId, to: AccountId, t: AccountId, a: int) -> Balances {
    Map::new(
        |k: (AccountId, AccountId)| m.dom().contains(k),
        |k: (AccountId, AccountId)|
            if from == to || k.1 != t {
                m[k]
            } else if k.0 == from {
                m[k] - a
            } else if k.0 == to {
                m[k] + a
            } else {
                m[k]
            },
    )
}

/// `m` after crediting `a` of token `t` to `u`, and to the total.
pub open spec fn credited(m: Balances, u: AccountId, t: AccountId, a: int) -> Balances {
    Map::new(
        |k: (AccountId, AccountId)| m.dom().contains(k),
        |k: (AccountId, AccountId)|
            if k.1 == t && (k.0 == u || k.0 == total_account()) {
                m[k] + a
            } else {
                m[k]
            },
    )
}

/// `m` after debiting `a` of token `t` from `u`, and from the total.
pub open spec fn debited(m: Balances, u: AccountId, t: AccountId, a: int) -> Balances {
    credited(m, u, t, -a)
}

/// The approved tokens, in the order they were whitelisted, and for each one
/// the ledger of who holds how much of it.
pub struct Bank {
    pub approved_tokens: Vec<AccountId>,
    pub ledgers: Vec<TokenLedger>,
    /// The number of approved tokens of which the guild holds some.
    pub total_guild_bank_tokens: u128,
}

impl Bank {
    pub open spec fn wf(&self) -> bool {
        &&& self.approved_tokens@.no_duplicates()
        &&& self.approved_tokens@.len() <= MAX_TOKEN_WHITELIST_COUNT
        &&& forall|i: int| 0 <= i < self.approved_tokens@.len() ==> #[trigger] self.approved_tokens@[i] != zero_account()
        &&& self.ledgers@.len() == self.approved_tokens@.len()
        &&& forall|i: int| 0 <= i < self.ledgers@.len() ==> #[trigger] self.ledgers@[i].wf()
        &&& self.total_guild_bank_tokens == guild_count(self.ledgers@)
    }

    pub open spec fn is_whitelisted(&self, t: AccountId) -> bool {
        self.approved_tokens@.contains(t)
    }

    /// The balance of `u` in token `t`; 0 for a token that is not approved.
    pub open spec fn balance(&self, u: AccountId, t: AccountId) -> int {
        if self.is_whitelisted(t) {
            self.ledgers@[self.approved_tokens@.index_of(t)].balance(u)
        } else {
            0
        }
    }

    /// Every balance, by account and token.
    pub open spec fn balances(&self) -> Balances {
        Map::new(|k: (AccountId, AccountId)| true, |k: (AccountId, AccountId)| self.balance(k.0, k.1))
    }

    /// An empty bank.
    pub fn new() -> (r: Bank)
        ensures
            r.wf(),
            r.approved_tokens@.len() == 0,
    {
        let r = Bank { approved_tokens: Vec::new(), ledgers: Vec::new(), total_guild_bank_tokens: 0 };
        assert(r.ledgers@.map_values(|l: TokenLedger| guild_holds(l)) =~= Seq::<int>::empty());
        r
    }

    pub proof fn lemma_balance_at(&self, i: int, u: AccountId)
        requires
            self.wf(),
            0 <= i < self.approved_tokens@.len(),
        ensures
            self.balance(u, self.approved_tokens@[i]) == self.ledgers@[i].balance(u),
    {
        lemma_index_of(self.approved_tokens@, i);
    }

    /// Every balance is at most the total balance of its token.
    pub proof fn lemma_balance_bounded(&self, u: AccountId, t: AccountId)
        requires
            self.wf(),
        ensures
            0 <= self.balance(u, t) <= self.balance(total_account(), t),
    {
        if self.is_whitelisted(t) {
            let i = self.approved_tokens@.index_of(t);
            self.ledgers@[i].lemma_balance_bounded(u);
        }
    }

    /// The position of `t` among the approved tokens, if it is approved.
    pub fn token_index(&self, t: AccountId) -> (r: Option<usize>)
        requires
            self.wf(),
        ensures
            r matches Some(i) ==> i < self.approved_tokens@.len() && self.approved_tokens@[i as int] == t,
            r is None <==> !self.is_whitelisted(t),
    {
        let mut i: usize = 0;
        while i < self.approved_tokens.len()
            invariant
                i <= self.approved_tokens@.len(),
                forall|j: int| 0 <= j < i ==> #[trigger] self.approved_tokens@[j] != t,
            decreases self.approved_tokens@.len() - i,
        {
            if self.approved_tokens[i] == t {
                return Some(i);
            }
            i = i + 1;
        }
        None
    }

    /// Whether `t` is an approved token.
    pub fn whitelisted(&self, t: AccountId) -> (r: bool)
        requires
            self.wf(),
        ensures
            r == self.is_whitelisted(t),
    {
        self.token_index(t).is_some()
    }

    /// The number of approved tokens.
    pub fn token_count(&self) -> (r: usize)
        ensures
            r == self.approved_tokens@.len(),
    {
        self.approved_tokens.len()
    }

    /// The balance of `u` in token `t`.
    pub fn balance_of(&self, u: AccountId, t: AccountId) -> (r: u128)
        requires
            self.wf(),
        ensures
            r == self.balance(u, t),
    {
        match self.token_index(t) {
            Some(i) => {
                proof {
                    self.lemma_balance_at(i as int, u);
                }
                self.ledgers[i].balance_of(u)
            },
            None => 0,
        }
    }

    /// Approves a new token.
    pub fn whitelist(&mut self, t: AccountId)
        requires
            old(self).wf(),
            !old(self).is_whitelisted(t),
            t != zero_account(),
            old(self).approved_tokens@.len() < MAX_TOKEN_WHITELIST_COUNT,
        ensures
            final(self).wf(),
            final(self).approved_tokens@ == old(self).approved_tokens@.push(t),
            final(self).total_guild_bank_tokens == old(self).total_guild_bank_tokens,
            forall|u: AccountId, s: AccountId| s != t ==> #[trigger] final(self).balance(u, s) == old(self).balance(u, s),
            forall|u: AccountId| #[trigger] final(self).balance(u, t) == 0,
    {
        let l = TokenLedger::new();
        let ghost old_self = *old(self);
        self.approved_tokens.push(t);
        self.ledgers.push(l);
        proof {
            let f = |l: TokenLedger| guild_holds(l);
            lemma_sum_push(old_self.ledgers@.map_values(f), guild_holds(l));
            assert(self.ledgers@.map_values(f) =~= old_self.ledgers@.map_values(f).push(guild_holds(l)));
            assert(guild_holds(l) == 0);
            let n = old_self.approved_tokens@.len() as int;
            assert forall|u: AccountId, s: AccountId| s != t implies #[trigger] self.balance(u, s) == old_self.balance(u, s) by {
                if old_self.is_whitelisted(s) {
                    let i = old_self.approved_tokens@.index_of(s);
                    lemma_index_of(self.approved_tokens@, i);
                    assert(self.approved_tokens@[i] == s);
                } else {
                    assert(!self.is_whitelisted(s));
                }
            }
            assert forall|u: AccountId| #[trigger] self.balance(u, t) == 0 by {
                assert(self.approved_tokens@[n] == t);
                lemma_index_of(self.approved_tokens@, n);
            }
        }
    }

    /// Brings the guild count up to date after the ledger at `i` changed.
    fn recount(&mut self, i: usize, before: bool, Ghost(o): Ghost<Bank>)
        requires
            o.wf(),
            i < o.approved_tokens@.len(),
            old(self).approved_tokens@ == o.approved_tokens@,
            old(self).ledgers@ == o.ledgers@.update(i as int, old(self).ledgers@[i as int]),
            old(self).ledgers@[i as int].wf(),
            old(self).total_guild_bank_tokens == o.total_guild_bank_tokens,
            before == (o.ledgers@[i as int].balance(guild_account()) > 0),
        ensures
            final(self).wf(),
            final(self).approved_tokens@ == old(self).approved_tokens@,
            final(self).ledgers@ == old(self).ledgers@,
    {
        proof {
            lemma_update_frame(o, *self, i as int);
        }
        let after = self.ledgers[i].balance_of(crate::account::guild()) > 0;
        if before && !after {
            self.total_guild_bank_tokens = self.total_guild_bank_tokens - 1;
        } else if !before && after {
            self.total_guild_bank_tokens = self.total_guild_bank_tokens + 1;
        }
    }

    /// Credits `amount` of token `t` to `u`, unless the total would overflow.
    pub fn credit(&mut self, u: AccountId, t: AccountId, amount: u128) -> (r: bool)
        requires
            old(self).wf(),
            old(self).is_whitelisted(t),
            u != total_account(),
        ensures
            r == (old(self).balance(total_account(), t) + amount <= u128::MAX),
            !r ==> *final(self) == *old(self),
            r ==> final(self).wf(),
            r ==> final(self).approved_tokens@ == old(self).approved_tokens@,
            r ==> final(self).balance(u, t) == old(self).balance(u, t) + amount,
            r ==> final(self).balance(total_account(), t) == old(self).balance(total_account(), t) + amount,
            r ==> forall|w: AccountId, s: AccountId|
                !(s == t && (w == u || w == total_account())) ==> #[trigger] final(self).balance(w, s) == old(self).balance(w, s),
            r ==> final(self).balances() == credited(old(self).balances(), u, t, amount as int),
    {
        let ghost o0 = *self;
        let i = self.token_index(t).unwrap();
        proof {
            self.lemma_balance_at(i as int, u);
            self.lemma_balance_at(i as int, total_account());
        }
        if self.ledgers[i].total > u128::MAX - amount {
            return false;
        }
        let ghost o = *self;
        let before = self.ledgers[i].balance_of(crate::account::guild()) > 0;
        self.ledgers[i].add(u, amount);
        proof {
            lemma_update_frame(o, *self, i as int);
        }
        self.recount(i, before, Ghost(o));
        proof {
            assert(self.balances() =~= credited(o0.balances(), u, t, amount as int));
        }
        true
    }

    /// Debits `amount` of token `t` from `u`.
    pub fn debit(&mut self, u: AccountId, t: AccountId, amount: u128)
        requires
            old(self).wf(),
            old(self).is_whitelisted(t),
            u != total_account(),
            old(self).balance(u, t) >= amount,
        ensures
            final(self).wf(),
            final(self).approved_tokens@ == old(self).approved_tokens@,
            final(self).balance(u, t) == old(self).balance(u, t) - amount,
            final(self).balance(total_account(), t) == old(self).balance(total_account(), t) - amount,
            forall|w: AccountId, s: AccountId|
                !(s == t && (w == u || w == total_account())) ==> #[trigger] final(self).balance(w, s) == old(self).balance(w, s),
            final(self).balances() == debited(old(self).balances(), u, t, amount as int),
    {
        let i = self.token_index(t).unwrap();
        proof {
            self.lemma_balance_at(i as int, u);
            self.lemma_balance_at(i as int, total_account());
        }
        let ghost o = *self;
        let before = self.ledgers[i].balance_of(crate::account::guild()) > 0;
        self.ledgers[i].sub(u, amount);
        proof {
            lemma_update_frame(o, *self, i as int);
        }
        self.recount(i, before, Ghost(o));
        proof {
            assert(self.balances() =~= debited(o.balances(), u, t, amount as int));
        }
    }

    /// Moves `amount` of token `t` from `from` to `to`.
    pub fn transfer(&mut self, from: AccountId, to: AccountId, t: AccountId, amount: u128)
        requires
            old(self).wf(),
            old(self).is_whitelisted(t),
            from != total_account(),
            to != total_account(),
            old(self).balance(from, t) >= amount,
        ensures
            final(self).wf(),
            final(self).approved_tokens@ == old(self).approved_tokens@,
            from != to ==> final(self).balance(from, t) == old(self).balance(from, t) - amount,
            from != to ==> final(self).balance(to, t) == old(self).balance(to, t) + amount,
            forall|w: AccountId, s: AccountId|
                !(s == t && (w == from || w == to)) ==> #[trigger] final(self).balance(w, s) == old(self).balance(w, s),
            final(self).balance(from, t) + final(self).balance(to, t) == old(self).balance(from, t) + old(self).balance(to, t),
            final(self).balances() == moved(old(self).balances(), from, to, t, amount as int),
    {
        let ghost o0 = *self;
        let i = self.token_index(t).unwrap();
        proof {
            self.lemma_balance_at(i as int, from);
            self.lemma_balance_at(i as int, to);
            self.lemma_balance_at(i as int, total_account());
        }
        let ghost o = *self;
        let before = self.ledgers[i].balance_of(crate::account::guild()) > 0;
        self.ledgers[i].transfer(from, to, amount);
        proof {
            lemma_update_frame(o, *self, i as int);
        }
        self.recount(i, before, Ghost(o));
        proof {
            assert(self.balances() =~= moved(o0.balances(), from, to, t, amount as int));
        }
    }
}

} // verus!
