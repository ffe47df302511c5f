//! The internal ledger of one token: what each account holds, and the total.
use vstd::prelude::*;

use crate::account::{total_account, AccountId};
use crate::utils::{all_nonneg, lemma_sum_ge_elem, lemma_sum_nonneg, lemma_sum_push, lemma_sum_update, sum};

verus! {

/// The amount of one token that one account holds.
#[derive(Clone, Copy, Debug, PartialEq, Eq, Structural)]
pub struct Holding {
    pub user: AccountId,
    pub amount: u128,
}

/// The balances of one token. The balance of the total account is kept in
/// `total`; every other account with a balance has one entry in `holdings`.
pub struct TokenLedger {
    pub total: u128,
    pub holdings: Vec<Holding>,
}

/// The amounts of a sequence of holdings.
pub open spec fn amounts(s: Seq<Holding>) -> Seq<int> {
    s.map_values(|h: Holding| h.amount as int)
}

/// The sum of the amounts of a sequence of holdings.
pub open spec fn held(s: Seq<Holding>) -> int {
    sum(amounts(s))
}

/// Whether no account has two entries.
pub open spec fn users_unique(s: Seq<Holding>) -> bool {
    forall|i: int, j: int| 0 <= i < j < s.len() ==> s[i].user != s[j].user
}

/// The balance of `u` in a sequence of holdings: the amount of its entry, or 0.
pub open spec fn balance_in(s: Seq<Holding>, u: AccountId) -> int
    decreases s.len(),
{
    if s.len() == 0 {
        0
    } else if s.last().user == u {
        s.last().amount as int
    } else {
        balance_in(s.drop_last(), u)
    }
}

pub proof fn lemma_balance_absent(s: Seq<Holding>, u: AccountId)
    requires
        forall|i: int| 0 <= i < s.len() ==> s[i].user != u,
    ensures
        balance_in(s, u) == 0,
    decreases s.len(),
{
    if s.len() > 0 {
        assert(s.last().user != u);
        lemma_balance_absent(s.drop_last(), u);
    }
}

pub proof fn lemma_balance_at(s: Seq<Holding>, i: int)
    requires
        users_unique(s),
        0 <= i < s.len(),
    ensures
        balance_in(s, s[i].user) == s[i].amount,
    decreases s.len(),
{
    if i < s.len() - 1 {
        assert(s.last().user != s[i].user);
        lemma_balance_at(s.drop_last(), i);
    }
}

proof fn lemma_balance_update(s: Seq<Holding>, i: int, v: u128)
    requires
        users_unique(s),
        0 <= i < s.len(),
    ensures
        forall|w: AccountId|
            #![auto]
            balance_in(s.update(i, Holding { user: s[i].user, amount: v }), w) == if w == s[i].user {
                v as int
            } else {
                balance_in(s, w)
            },
    decreases s.len(),
{
    let t = s.update(i, Holding { user: s[i].user, amount: v });
    if i == s.len() - 1 {
        assert(t.drop_last() =~= s.drop_last());
        assert forall|w: AccountId| #![auto] balance_in(t, w) == if w == s[i].user {
            v as int
        } else {
            balance_in(s, w)
        } by {
            if w == s[i].user {
            } else {
                assert(balance_in(t, w) == balance_in(t.drop_last(), w));
            }
        }
    } else {
        let d = s.drop_last();
        assert(users_unique(d));
        lemma_balance_update(d, i, v);
        assert(t.drop_last() =~= d.update(i, Holding { user: s[i].user, amount: v }));
        assert(d[i].user == s[i].user);
        assert(t.last() == s.last());
        assert(s.last().user != s[i].user);
        assert forall|w: AccountId| #![auto] balance_in(t, w) == if w == s[i].user {
            v as int
        } else {
            balance_in(s, w)
        } by {
            if w == s.last().user {
            } else {
                assert(balance_in(t, w) == balance_in(t.drop_last(), w));
                assert(balance_in(s, w) == balance_in(d, w));
            }
        }
    }
}

proof fn lemma_amounts_nonneg(s: Seq<Holding>)
    ensures
        all_nonneg(amounts(s)),
{
}

proof fn lemma_balance_le_held(s: Seq<Holding>, u: AccountId)
    requires
        users_unique(s),
    ensures
        0 <= balance_in(s, u) <= held(s),
{
    lemma_amounts_nonneg(s);
    lemma_sum_nonneg(amounts(s));
    if exists|i: int| 0 <= i < s.len() && s[i].user == u {
        let i = choose|i: int| 0 <= i < s.len() && s[i].user == u;
        lemma_balance_at(s, i);
        lemma_sum_ge_elem(amounts(s), i);
    } else {
        lemma_balance_absent(s, u);
    }
}

impl TokenLedger {
    /// The ledger holds each account once, never the total account, and its
    /// total is the sum of what the other accounts hold.
    pub open spec fn wf(&self) -> bool {
        &&& users_unique(self.holdings@)
        &&& forall|i: int| 0 <= i < self.holdings@.len() ==> #[trigger] self.holdings@[i].user != total_account()
        &&& self.total == held(self.holdings@)
    }

    /// The balance of `u`.
    pub open spec fn balance(&self, u: AccountId) -> int {
        if u == total_account() {
            self.total as int
        } else {
            balance_in(self.holdings@, u)
        }
    }

    /// An empty ledger.
    pub fn new() -> (r: TokenLedger)
        ensures
            r.wf(),
            forall|u: AccountId| #[trigger] r.balance(u) == 0,
    {
        let r = TokenLedger { total: 0, holdings: Vec::new() };
        assert(amounts(r.holdings@) =~= Seq::<int>::empty());
        r
    }

    /// Every balance is at most the total.
    pub proof fn lemma_balance_bounded(&self, u: AccountId)
        requires
            self.wf(),
        ensures
            0 <= self.balance(u) <= self.total,
    {
        lemma_balance_le_held(self.holdings@, u);
    }

    fn find(&self, u: AccountId) -> (r: Option<usize>)
        ensures
            r matches Some(i) ==> i < self.holdings@.len() && self.holdings@[i as int].user == u,
            r is None ==> forall|i: int| 0 <= i < self.holdings@.len() ==> #[trigger] self.holdings@[i].user != u,
    {
        let mut i: usize = 0;
        while i < self.holdings.len()
            invariant
                i <= self.holdings@.len(),
                forall|j: int| 0 <= j < i ==> #[trigger] self.holdings@[j].user != u,
            decreases self.holdings@.len() - i,
        {
            if self.holdings[i].user == u {
                return Some(i);
            }
            i = i + 1;
        }
        None
    }

    /// The balance of `u`.
    pub fn balance_of(&self, u: AccountId) -> (r: u128)
        requires
            self.wf(),
        ensures
            r == self.balance(u),
    {
        if u == crate::account::total() {
            return self.total;
        }
        match self.find(u) {
            Some(i) => {
                proof {
                    lemma_balance_at(self.holdings@, i as int);
                }
                self.holdings[i].amount
            },
            None => {
                proof {
                    lemma_balance_absent(self.holdings@, u);
                }
                0
            },
        }
    }

    /// Credits `amount` to `u`, and to the total.
    pub fn add(&mut self, u: AccountId, amount: u128)
        requires
            old(self).wf(),
            u != total_account(),
            old(self).total + amount <= u128::MAX,
        ensures
            final(self).wf(),
            final(self).balance(u) == old(self).balance(u) + amount,
            final(self).total == old(self).total + amount,
            forall|w: AccountId| w != u && w != total_account() ==> #[trigger] final(self).balance(w) == old(self).balance(w),
    {
        proof {
            lemma_balance_le_held(self.holdings@, u);
        }
        match self.find(u) {
            Some(i) => {
                let old_amount = self.holdings[i].amount;
                proof {
                    lemma_balance_at(self.holdings@, i as int);
                }
                let h = Holding { user: u, amount: old_amount + amount };
                proof {
                    lemma_balance_update(self.holdings@, i as int, (old_amount + amount) as u128);
                    lemma_sum_update(amounts(self.holdings@), i as int, (old_amount + amount) as int);
                    assert(amounts(self.holdings@.update(i as int, h)) =~= amounts(self.holdings@).update(i as int, h.amount as int));
                }
                self.holdings.set(i, h);
            },
            None => {
                let h = Holding { user: u, amount };
                proof {
                    lemma_balance_absent(self.holdings@, u);
                    lemma_sum_push(amounts(self.holdings@), amount as int);
                    assert(amounts(self.holdings@.push(h)) =~= amounts(self.holdings@).push(amount as int));
                    assert(self.holdings@.push(h).drop_last() =~= self.holdings@);
                }
                self.holdings.push(h);
            },
        }
        self.total = self.total + amount;
    }

    /// Debits `amount` from `u`, and from the total.
    pub fn sub(&mut self, u: AccountId, amount: u128)
        requires
            old(self).wf(),
            u != total_account(),
            old(self).balance(u) >= amount,
        ensures
            final(self).wf(),
            final(self).balance(u) == old(self).balance(u) - amount,
            final(self).total == old(self).total - amount,
            forall|w: AccountId| w != u && w != total_account() ==> #[trigger] final(self).balance(w) == old(self).balance(w),
    {
        proof {
            lemma_balance_le_held(self.holdings@, u);
        }
        match self.find(u) {
            Some(i) => {
                let old_amount = self.holdings[i].amount;
                proof {
                    lemma_balance_at(self.holdings@, i as int);
                }
                let h = Holding { user: u, amount: old_amount - amount };
                proof {
                    lemma_balance_update(self.holdings@, i as int, (old_amount - amount) as u128);
                    lemma_sum_update(amounts(self.holdings@), i as int, (old_amount - amount) as int);
                    assert(amounts(self.holdings@.update(i as int, h)) =~= amounts(self.holdings@).update(i as int, h.amount as int));
                }
                self.holdings.set(i, h);
                self.total = self.total - amount;
            },
            None => {
                proof {
                    lemma_balance_absent(self.holdings@, u);
                }
            },
        }
    }

    /// Moves `amount` from `from` to `to`; the total is unchanged.
    pub fn transfer(&mut self, from: AccountId, to: AccountId, amount: u128)
        requires
            old(self).wf(),
            from != total_account(),
            to != total_account(),
            old(self).balance(from) >= amount,
        ensures
            final(self).wf(),
            final(self).total == old(self).total,
            from != to ==> final(self).balance(from) == old(self).balance(from) - amount,
            from != to ==> final(self).balance(to) == old(self).balance(to) + amount,
            forall|w: AccountId| w != from && w != to ==> #[trigger] final(self).balance(w) == old(self).balance(w),
            from == to ==> final(self).balance(from) == old(self).balance(from),
    {
        self.sub(from, amount);
        self.add(to, amount);
    }
}

} // verus!
