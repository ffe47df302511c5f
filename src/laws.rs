//! Laws of the guild: what holds of every well-formed state, and what a full
//! ragequit by a sole member returns.
use vstd::prelude::*;

use crate::account::{guild_account, total_account, AccountId};
use crate::bank::guild_holds;
use crate::constant::MAX_NUMBER_OF_SHARES_AND_LOOT;
use crate::ledger::{amounts, lemma_balance_absent, lemma_balance_at, users_unique, Holding};
use crate::state::{escrow_owed, queued_in, Submoloch};
use crate::utils::{lemma_share_bounded, sum};

verus! {

impl Submoloch {
    /// The accounts that hold token `t`, each with its entry.
    pub open spec fn holders(&self, t: AccountId) -> Seq<Holding> {
        self.bank.ledgers@[self.bank.approved_tokens@.index_of(t)].holdings@
    }

    /// The sum of the balances of the accounts that hold `t`.
    pub open spec fn holders_sum(&self, t: AccountId) -> int {
        sum(self.holders(t).map_values(|h: Holding| self.balance(h.user, t)))
    }

    /// The number of whitelisted tokens of which the guild holds some.
    pub open spec fn guild_token_count(&self) -> int {
        sum(self.bank.approved_tokens@.map_values(|t: AccountId| if self.balance(guild_account(), t) > 0 {
            1int
        } else {
            0int
        }))
    }
}

/// The balance of the total account in a token is the sum of the balances of
/// all other accounts: the accounts that hold the token are listed once each,
/// the total account is not among them, and every account not listed holds
/// none. A token that is not whitelisted is held by no account.
pub proof fn lemma_total_is_sum_of_balances(s: &Submoloch, t: AccountId)
    requires
        s.wf(),
    ensures
        s.bank.is_whitelisted(t) ==> {
            &&& s.balance(total_account(), t) == s.holders_sum(t)
            &&& users_unique(s.holders(t))
            &&& forall|i: int| 0 <= i < s.holders(t).len() ==> #[trigger] s.holders(t)[i].user != total_account()
            &&& forall|u: AccountId|
                u != total_account() && (forall|i: int| 0 <= i < s.holders(t).len() ==> #[trigger] s.holders(t)[i].user != u)
                    ==> s.balance(u, t) == 0
        },
        !s.bank.is_whitelisted(t) ==> forall|u: AccountId| #[trigger] s.balance(u, t) == 0,
{
    if s.bank.is_whitelisted(t) {
        let k = s.bank.approved_tokens@.index_of(t);
        let l = s.bank.ledgers@[k];
        let h = l.holdings@;
        assert(l.wf());
        assert(s.holders(t) == h);
        assert forall|i: int| 0 <= i < h.len() implies #[trigger] s.balance(h[i].user, t) == h[i].amount by {
            lemma_balance_at(h, i);
        }
        assert(h.map_values(|x: Holding| s.balance(x.user, t)) =~= amounts(h));
        assert forall|u: AccountId|
            u != total_account() && (forall|i: int| 0 <= i < s.holders(t).len() ==> #[trigger] s.holders(t)[i].user != u)
                implies s.balance(u, t) == 0 by {
            assert forall|i: int| 0 <= i < h.len() implies h[i].user != u by {
                assert(s.holders(t)[i] == h[i]);
            }
            lemma_balance_absent(h, u);
        }
    }
}

/// The share and loot totals are the sums over all members.
pub proof fn lemma_totals_are_sums(s: &Submoloch)
    requires
        s.wf(),
    ensures
        s.total_shares == s.members.share_sum(),
        s.total_loot == s.members.loot_sum(),
{
}

/// Shares and loot together never exceed the maximum.
pub proof fn lemma_shares_and_loot_bounded(s: &Submoloch)
    requires
        s.wf(),
    ensures
        s.total_shares + s.total_loot <= MAX_NUMBER_OF_SHARES_AND_LOOT,
{
}

/// The guild bank token count is the number of whitelisted tokens, each
/// listed once, of which the guild holds a positive balance.
pub proof fn lemma_guild_bank_count(s: &Submoloch)
    requires
        s.wf(),
    ensures
        s.bank.total_guild_bank_tokens == s.guild_token_count(),
        s.bank.approved_tokens@.no_duplicates(),
{
    let f = |t: AccountId| if s.balance(guild_account(), t) > 0 {
        1int
    } else {
        0int
    };
    assert forall|i: int| 0 <= i < s.bank.approved_tokens@.len() implies #[trigger] s.bank.approved_tokens@.map_values(
        f,
    )[i] == s.bank.ledgers@.map_values(|l: crate::ledger::TokenLedger| guild_holds(l))[i] by {
        s.bank.lemma_balance_at(i, guild_account());
    }
    assert(s.bank.approved_tokens@.map_values(f) =~= s.bank.ledgers@.map_values(
        |l: crate::ledger::TokenLedger| guild_holds(l),
    ));
}

/// No two members share a delegate key, and no member's delegate key is
/// another member's address.
pub proof fn lemma_delegate_keys_unique(s: &Submoloch, a: AccountId, b: AccountId)
    requires
        s.wf(),
        s.member(a) is Some,
        s.member(b) is Some,
        a != b,
    ensures
        s.member(a).unwrap().delegate_key != s.member(b).unwrap().delegate_key,
        s.member(a).unwrap().delegate_key != b,
{
}

/// Escrow always holds, in every token, the tributes of the open standard
/// proposals and the deposits of the sponsored, unprocessed ones, so that
/// every refund and reward paid out of escrow can be paid in full.
pub proof fn lemma_escrow_covers_refunds(s: &Submoloch, t: AccountId)
    requires
        s.wf(),
    ensures
        s.balance(crate::account::escrow_account(), t) >= escrow_owed(
            s.proposals@,
            t,
            s.deposit_token_spec(),
            s.proposal_deposit,
        ),
{
}

/// Along the queue, starting periods never decrease.
pub proof fn lemma_queue_ordered(s: &Submoloch, j: int, k: int)
    requires
        s.wf(),
        0 <= j <= k < s.proposal_queue@.len(),
    ensures
        s.queued(j).starting_period <= s.queued(k).starting_period,
{
    if j < k {
        assert(queued_in(s.proposals@, s.proposal_queue@, j).starting_period <= queued_in(
            s.proposals@,
            s.proposal_queue@,
            k,
        ).starting_period);
    }
}

/// A sole member with one share, no loot and no Yes vote on an unprocessed
/// proposal may ragequit that share; doing so hands it the whole guild bank
/// and leaves the guild holding nothing.
pub proof fn lemma_sole_member_full_ragequit(o: &Submoloch, n: &Submoloch, a: AccountId)
    requires
        o.wf(),
        o.member(a) is Some,
        o.member(a).unwrap().shares == 1,
        o.member(a).unwrap().loot == 0,
        forall|b: AccountId| b != a ==> #[trigger] o.member(b) is None,
        o.yes_votes_processed(a, o.member(a).unwrap().highest_index_yes_vote as int),
    ensures
        o.ragequit_error(a, 1, 0) is None,
        n.quit_done(o, a, 1, 0) ==> forall|t: AccountId|
            #[trigger] n.balance(guild_account(), t) == 0 && n.balance(a, t) == o.balance(a, t) + o.balance(
                guild_account(),
                t,
            ),
{
    assert forall|b: AccountId| b != a implies !#[trigger] o.members.contains(b) by {
        assert(o.member(b) is None);
    }
    o.members.lemma_sole_member(a);
    assert(o.total_shares + o.total_loot == 1);
    assert forall|i: int| 0 <= i < o.bank.approved_tokens@.len() implies !(#[trigger] o.balance(
        guild_account(),
        o.bank.approved_tokens@[i],
    ) * 1 > u128::MAX) by {
        o.bank.lemma_balance_bounded(guild_account(), o.bank.approved_tokens@[i]);
        let i2 = o.bank.approved_tokens@.index_of(o.bank.approved_tokens@[i]);
        assert(o.bank.approved_tokens@.contains(o.bank.approved_tokens@[i]));
        assert(o.bank.ledgers@[i2].wf());
    }
    assert(o.members.contains(a));
    if n.quit_done(o, a, 1, 0) {
        assert forall|t: AccountId| #[trigger] n.balance(guild_account(), t) == 0 && n.balance(a, t) == o.balance(a, t)
            + o.balance(guild_account(), t) by {
            o.bank.lemma_balance_bounded(guild_account(), t);
            lemma_share_bounded(o.balance(guild_account(), t), 1, 1);
            assert(n.bank.balance(guild_account(), t) == o.balance_after_quit(a, 1, guild_account(), t));
            assert(n.bank.balance(a, t) == o.balance_after_quit(a, 1, a, t));
            if !o.bank.is_whitelisted(t) {
                lemma_total_is_sum_of_balances(o, t);
            }
        }
    }
}

} // verus!
