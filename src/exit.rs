//! Leaving the guild (ragequit and ragekick), withdrawing internal balances,
//! collecting stray tokens and changing delegate keys.
use vstd::prelude::*;

use crate::account::{guild_account, is_reserved, total_account, zero_account, AccountId};
use crate::bank::debited;
use crate::error::Error;
use crate::event::{Event, Ragequit, TokensCollected, UpdateDelegateKey, Withdraw};
use crate::member::Member;
use crate::proposal::{ProposalIndex, Vote};
use crate::state::Submoloch;
use crate::utils::lemma_share_bounded;

verus! {

/// How much of token `t` the first `k` withdrawals of a batch take.
pub open spec fn withdrawn(tokens: Seq<AccountId>, amounts: Seq<u128>, k: int, t: AccountId) -> int
    decreases k,
{
    if k <= 0 {
        0
    } else {
        withdrawn(tokens, amounts, k - 1, t) + if tokens[k - 1] == t {
            amounts[k - 1] as int
        } else {
            0
        }
    }
}

proof fn lemma_withdrawn_grows(tokens: Seq<AccountId>, amounts: Seq<u128>, j: int, k: int, t: AccountId)
    requires
        0 <= j <= k,
    ensures
        0 <= withdrawn(tokens, amounts, j, t) <= withdrawn(tokens, amounts, k, t),
    decreases k,
{
    if j < k {
        lemma_withdrawn_grows(tokens, amounts, j, k - 1, t);
    } else if k > 0 {
        lemma_withdrawn_grows(tokens, amounts, 0, k - 1, t);
    }
}

impl Submoloch {
    /// Whether every queued proposal up to `upto` on which `a` voted Yes has
    /// been processed.
    pub open spec fn yes_votes_processed(&self, a: AccountId, upto: int) -> bool {
        forall|k: int|
            0 <= k < self.votes@.len() && (#[trigger] self.votes@[k]).member == a && self.votes@[k].vote == Vote::Yes
                && self.votes@[k].proposal_index <= upto ==> self.queued(self.votes@[k].proposal_index as int).flags.processed
    }

    /// The share of the guild's balance of `t` that burning `burn` of the
    /// shares and loot redeems.
    pub open spec fn fair_share(&self, t: AccountId, burn: int) -> int {
        self.balance(guild_account(), t) * burn / (self.total_shares + self.total_loot)
    }

    /// Whether computing some fair share overflows.
    pub open spec fn share_overflows(&self, burn: int) -> bool {
        exists|i: int|
            0 <= i < self.bank.approved_tokens@.len() && #[trigger] self.balance(
                guild_account(),
                self.bank.approved_tokens@[i],
            ) * burn > u128::MAX
    }

    /// The balance of `u` in `t` after member `a` redeems `burn` shares and loot.
    pub open spec fn balance_after_quit(&self, a: AccountId, burn: int, u: AccountId, t: AccountId) -> int {
        if self.bank.is_whitelisted(t) && u == guild_account() {
            self.balance(u, t) - self.fair_share(t, burn)
        } else if self.bank.is_whitelisted(t) && u == a {
            self.balance(u, t) + self.fair_share(t, burn)
        } else {
            self.balance(u, t)
        }
    }

    /// Why member `a` cannot burn `shares_to_burn` shares and `loot_to_burn`
    /// loot, if it cannot.
    pub open spec fn ragequit_error(&self, a: AccountId, shares_to_burn: u128, loot_to_burn: u128) -> Option<Error> {
        let m = self.member(a).unwrap();
        if self.member(a) is None || (m.shares == 0 && m.loot == 0) {
            Some(Error::NoSuchMember)
        } else if m.shares < shares_to_burn || m.loot < loot_to_burn {
            Some(Error::InsufficientShares)
        } else if !self.yes_votes_processed(a, m.highest_index_yes_vote as int) {
            Some(Error::HighestYesVoteUnprocessed)
        } else if self.share_overflows(shares_to_burn + loot_to_burn) {
            Some(Error::Overflow)
        } else {
            None
        }
    }

    /// Why `member_to_kick` cannot be ragekicked, if it cannot.
    pub open spec fn ragekick_error(&self, member_to_kick: AccountId) -> Option<Error> {
        let m = self.member(member_to_kick).unwrap();
        if self.member(member_to_kick) is None {
            Some(Error::NoSuchMember)
        } else if m.jailed == 0 {
            Some(Error::NotJailed)
        } else if m.loot == 0 || m.shares != 0 {
            Some(Error::InsufficientShares)
        } else {
            self.ragequit_error(member_to_kick, 0, m.loot)
        }
    }

    /// What holds after member `a` burned `s` shares and `l` loot.
    pub open spec fn quit_done(&self, o: &Submoloch, a: AccountId, s: u128, l: u128) -> bool {
        let m = o.member(a).unwrap();
        &&& self.members.get(a) == Some(Member { shares: (m.shares - s) as u128, loot: (m.loot - l) as u128, ..m })
        &&& forall|b: AccountId| b != a ==> #[trigger] self.members.get(b) == o.members.get(b)
        &&& self.total_shares == o.total_shares - s
        &&& self.total_loot == o.total_loot - l
        &&& forall|u: AccountId, t: AccountId| #[trigger] self.bank.balance(u, t) == o.balance_after_quit(a, s + l, u, t)
        &&& self.bank.approved_tokens@ == o.bank.approved_tokens@
        &&& self.proposals == o.proposals
        &&& self.proposal_queue == o.proposal_queue
        &&& self.votes == o.votes
        &&& self.same_config(o)
    }

    /// Checks that every queued proposal up to `upto` on which `a` voted Yes
    /// has been processed.
    fn check_yes_votes(&self, a: AccountId, upto: u128) -> (r: bool)
        requires
            self.proposals_wf(),
        ensures
            r == self.yes_votes_processed(a, upto as int),
    {
        let mut k: usize = 0;
        while k < self.votes.len()
            invariant
                self.proposals_wf(),
                k <= self.votes@.len(),
                forall|j: int|
                    0 <= j < k && (#[trigger] self.votes@[j]).member == a && self.votes@[j].vote == Vote::Yes
                        && self.votes@[j].proposal_index <= upto ==> self.queued(
                        self.votes@[j].proposal_index as int,
                    ).flags.processed,
            decreases self.votes@.len() - k,
        {
            let v = self.votes[k];
            proof {
                assert(self.votes@[k as int] == v);
            }
            if v.member == a && v.vote == Vote::Yes && v.proposal_index <= upto {
                let qlen = self.proposal_queue.len();
                proof {
                    assert(v.proposal_index < qlen);
                }
                let index = v.proposal_index as usize;
                let pid = self.proposal_queue[index];
                let count = self.proposals.len();
                proof {
                    assert(pid < count);
                    assert(self.queued(v.proposal_index as int) == self.proposals@[pid as int]);
                }
                if !self.proposals[pid as usize].flags.processed {
                    return false;
                }
            }
            k = k + 1;
        }
        true
    }

    /// Burns `s` shares and `l` loot of member `a`, paying it its fair share
    /// of every whitelisted token in the guild bank.
    fn quit(&mut self, a: AccountId, s: u128, l: u128) -> (r: Result<(), Error>)
        requires
            old(self).wf(),
        ensures
            final(self).wf(),
            r == match old(self).ragequit_error(a, s, l) {
                Some(e) => Err::<(), Error>(e),
                None => Ok(()),
            },
            r is Err ==> *final(self) == *old(self),
            r is Ok ==> final(self).quit_done(old(self), a, s, l),
            r is Ok ==> final(self).events == old(self).events,
    {
        let m = match self.members.get_member(a) {
            Some(m) => m,
            None => {
                return Err(Error::NoSuchMember);
            },
        };
        if m.shares == 0 && m.loot == 0 {
            return Err(Error::NoSuchMember);
        }
        if m.shares < s || m.loot < l {
            return Err(Error::InsufficientShares);
        }
        if !self.check_yes_votes(a, m.highest_index_yes_vote) {
            return Err(Error::HighestYesVoteUnprocessed);
        }
        proof {
            self.members.lemma_member_bounded(a);
            self.members.lemma_sums_nonneg();
        }
        let burn = s + l;
        let total = self.total_shares + self.total_loot;
        let n = self.bank.token_count();
        proof {
            assert(self.members.contains(a));
        }
        let mut i: usize = 0;
        while i < n
            invariant
                self.wf(),
                self.member(a) == Some(m),
                !(m.shares == 0 && m.loot == 0),
                m.shares >= s && m.loot >= l,
                self.yes_votes_processed(a, m.highest_index_yes_vote as int),
                burn == s + l,
                n == self.bank.approved_tokens@.len(),
                i <= n,
                forall|j: int|
                    0 <= j < i ==> #[trigger] self.balance(guild_account(), self.bank.approved_tokens@[j]) * burn
                        <= u128::MAX,
            decreases n - i,
        {
            let t = self.bank.approved_tokens[i];
            let g = self.bank.balance_of(crate::account::guild(), t);
            if g.checked_mul(burn).is_none() {
                proof {
                    assert(self.balance(guild_account(), self.bank.approved_tokens@[i as int]) * burn > u128::MAX);
                    assert(self.share_overflows(burn as int));
                }
                return Err(Error::Overflow);
            }
            i = i + 1;
        }
        proof {
            assert(self.members.contains(a));
            assert(!self.share_overflows(burn as int));
        }
        let ghost o = *self;
        let mut i: usize = 0;
        while i < n
            invariant
                o.wf(),
                self.bank.wf(),
                self.members == o.members,
                self.total_shares == o.total_shares,
                self.total_loot == o.total_loot,
                self.proposals == o.proposals,
                self.proposal_details == o.proposal_details,
                self.proposal_count == o.proposal_count,
                self.proposal_queue == o.proposal_queue,
                self.votes == o.votes,
                self.events == o.events,
                self.same_config(&o),
                o.member(a) == Some(m),
                m.shares >= s && m.loot >= l,
                o.bank.wf(),
                n == o.bank.approved_tokens@.len(),
                self.bank.approved_tokens@ == o.bank.approved_tokens@,
                i <= n,
                0 < total,
                total == o.total_shares + o.total_loot,
                burn == s + l,
                burn <= total,
                a != guild_account(),
                a != total_account(),
                forall|j: int|
                    0 <= j < n ==> #[trigger] o.balance(guild_account(), o.bank.approved_tokens@[j]) * burn <= u128::MAX,
                forall|u: AccountId, t: AccountId|
                    #[trigger] self.bank.balance(u, t) == if o.bank.is_whitelisted(t) && o.bank.approved_tokens@.index_of(t)
                        < i {
                        o.balance_after_quit(a, burn as int, u, t)
                    } else {
                        o.balance(u, t)
                    },
            decreases n - i,
        {
            let t = self.bank.approved_tokens[i];
            let g = self.bank.balance_of(crate::account::guild(), t);
            proof {
                assert(o.bank.approved_tokens@.contains(t));
                o.bank.lemma_balance_at(i as int, guild_account());
                assert(o.bank.approved_tokens@.index_of(t) == i);
                assert(g == o.balance(guild_account(), t));
                assert(g * burn <= u128::MAX);
                lemma_share_bounded(g as int, burn as int, total as int);
            }
            let owed = g * burn / total;
            self.bank.transfer(crate::account::guild(), a, t, owed);
            proof {
                assert forall|u: AccountId, x: AccountId| #[trigger] self.bank.balance(u, x) == if o.bank.is_whitelisted(x)
                    && o.bank.approved_tokens@.index_of(x) < i + 1 {
                    o.balance_after_quit(a, burn as int, u, x)
                } else {
                    o.balance(u, x)
                } by {
                    if x == t {
                        assert(o.bank.approved_tokens@.index_of(x) == i);
                    } else if o.bank.is_whitelisted(x) {
                        assert(o.bank.approved_tokens@[o.bank.approved_tokens@.index_of(x)] == x);
                    }
                }
            }
            i = i + 1;
        }
        let m2 = Member { shares: m.shares - s, loot: m.loot - l, ..m };
        self.members.set(a, m2);
        self.total_shares = self.total_shares - s;
        self.total_loot = self.total_loot - l;
        proof {
            assert forall|u: AccountId, t: AccountId| #[trigger] self.balance(u, t) == o.balance_after_quit(
                a,
                burn as int,
                u,
                t,
            ) by {
                if o.bank.is_whitelisted(t) {
                    let j = o.bank.approved_tokens@.index_of(t);
                    assert(o.bank.approved_tokens@[j] == t);
                }
            }
            assert forall|w: AccountId| #[trigger] self.members.contains(w) implies !is_reserved(w) && w != zero_account() by {
                assert(o.members.contains(w));
            }
        }
        Ok(())
    }

    /// The caller, a member, burns `shares_to_burn` shares and `loot_to_burn`
    /// loot and receives its fair share of every token in the guild bank: the
    /// guild's balance times what it burns, divided by all shares and loot.
    pub fn ragequit(&mut self, caller: AccountId, shares_to_burn: u128, loot_to_burn: u128) -> (r: Result<(), Error>)
        requires
            old(self).wf(),
        ensures
            final(self).wf(),
            old(self).keeps_history(final(self)),
            r == match old(self).ragequit_error(caller, shares_to_burn, loot_to_burn) {
                Some(e) => Err::<(), Error>(e),
                None => Ok(()),
            },
            r is Err ==> *final(self) == *old(self),
            r is Ok ==> final(self).quit_done(old(self), caller, shares_to_burn, loot_to_burn),
            r is Ok ==> final(self).events@ == old(self).events@.push(
                Event::Ragequit(Ragequit { member_address: caller, shares_to_burn, loot_to_burn }),
            ),
    {
        let r = self.quit(caller, shares_to_burn, loot_to_burn);
        if r.is_ok() {
            self.events.push(Event::Ragequit(Ragequit { member_address: caller, shares_to_burn, loot_to_burn }));
        }
        r
    }

    /// Anyone may make a jailed member with loot and no shares ragequit all
    /// its loot.
    pub fn ragekick(&mut self, member_to_kick: AccountId) -> (r: Result<(), Error>)
        requires
            old(self).wf(),
        ensures
            final(self).wf(),
            old(self).keeps_history(final(self)),
            r == match old(self).ragekick_error(member_to_kick) {
                Some(e) => Err::<(), Error>(e),
                None => Ok(()),
            },
            r is Err ==> *final(self) == *old(self),
            r is Ok ==> final(self).quit_done(old(self), member_to_kick, 0, old(self).member(member_to_kick).unwrap().loot),
            r is Ok ==> final(self).events@ == old(self).events@.push(
                Event::Ragequit(
                    Ragequit {
                        member_address: member_to_kick,
                        shares_to_burn: 0,
                        loot_to_burn: old(self).member(member_to_kick).unwrap().loot,
                    },
                ),
            ),
    {
        let m = match self.members.get_member(member_to_kick) {
            Some(m) => m,
            None => {
                return Err(Error::NoSuchMember);
            },
        };
        if m.jailed == 0 {
            return Err(Error::NotJailed);
        }
        if m.loot == 0 || m.shares != 0 {
            return Err(Error::InsufficientShares);
        }
        let r = self.quit(member_to_kick, 0, m.loot);
        if r.is_ok() {
            self.events.push(
                Event::Ragequit(Ragequit { member_address: member_to_kick, shares_to_burn: 0, loot_to_burn: m.loot }),
            );
        }
        r
    }

    /// Whether the queued proposal at `highest_index_yes_vote` has been
    /// processed, so that a member whose highest Yes vote it holds may leave.
    pub fn can_ragequit(&self, highest_index_yes_vote: ProposalIndex) -> (r: Result<bool, Error>)
        requires
            self.wf(),
        ensures
            r == if highest_index_yes_vote >= self.proposal_queue@.len() {
                Err::<bool, Error>(Error::NoSuchProposal)
            } else {
                Ok(self.queued(highest_index_yes_vote as int).flags.processed)
            },
    {
        if highest_index_yes_vote >= self.proposal_queue.len() as u128 {
            return Err(Error::NoSuchProposal);
        }
        let pid = self.proposal_queue[highest_index_yes_vote as usize];
        let count = self.proposals.len();
        proof {
            assert(pid < count);
        }
        Ok(self.proposals[pid as usize].flags.processed)
    }

    /// The vote of member `member_address` on the queued proposal at `proposal_index`.
    pub fn get_member_proposal_vote(&self, member_address: AccountId, proposal_index: ProposalIndex) -> (r: Result<
        Vote,
        Error,
    >)
        requires
            self.wf(),
        ensures
            r == if self.member(member_address) is None {
                Err::<Vote, Error>(Error::NoSuchMember)
            } else if proposal_index >= self.proposal_queue@.len() {
                Err(Error::NoSuchProposal)
            } else {
                Ok(self.vote_of(proposal_index as int, member_address))
            },
    {
        if self.members.get_member(member_address).is_none() {
            return Err(Error::NoSuchMember);
        }
        if proposal_index >= self.proposal_queue.len() as u128 {
            return Err(Error::NoSuchProposal);
        }
        Ok(self.vote_on(proposal_index, member_address))
    }

    /// Why `caller` cannot withdraw `amount` of `token`, if it cannot.
    pub open spec fn withdraw_error(&self, caller: AccountId, token: AccountId, amount: u128) -> Option<Error> {
        if is_reserved(caller) {
            Some(Error::ReservedAccount)
        } else if !self.bank.is_whitelisted(token) {
            Some(Error::TokenNotWhitelisted)
        } else if self.balance(caller, token) < amount {
            Some(Error::InsufficientBalance)
        } else {
            None
        }
    }

    /// Withdraws `amount` of `token` from the caller's internal balance; the
    /// emitted `Withdraw` event is the transfer that the token owes the caller.
    pub fn withdraw_balance(&mut self, caller: AccountId, token: AccountId, amount: u128) -> (r: Result<(), Error>)
        requires
            old(self).wf(),
        ensures
            final(self).wf(),
            old(self).keeps_history(final(self)),
            r == match old(self).withdraw_error(caller, token, amount) {
                Some(e) => Err::<(), Error>(e),
                None => Ok(()),
            },
            r is Err ==> *final(self) == *old(self),
            r is Ok ==> {
                &&& final(self).bank.balances() == debited(old(self).bank.balances(), caller, token, amount as int)
                &&& final(self).bank.approved_tokens@ == old(self).bank.approved_tokens@
                &&& final(self).same_members(old(self))
                &&& final(self).same_proposals(old(self))
                &&& final(self).same_config(old(self))
                &&& final(self).events@ == old(self).events@.push(
                    Event::Withdraw(Withdraw { member_address: caller, token, amount }),
                )
            },
    {
        if crate::account::reserved(caller) {
            return Err(Error::ReservedAccount);
        }
        if !self.bank.whitelisted(token) {
            return Err(Error::TokenNotWhitelisted);
        }
        if self.bank.balance_of(caller, token) < amount {
            return Err(Error::InsufficientBalance);
        }
        self.bank.debit(caller, token, amount);
        self.events.push(Event::Withdraw(Withdraw { member_address: caller, token, amount }));
        Ok(())
    }

    /// Why a delegate of a member cannot collect `token` when the token
    /// reports `external_balance` held by the guild, if it cannot.
    pub open spec fn collect_error(&self, caller: AccountId, token: AccountId, external_balance: u128) -> Option<Error> {
        if self.delegate_member(caller) is None {
            Some(Error::NoSuchMember)
        } else if self.member(self.delegate_member(caller).unwrap()).unwrap().shares == 0 {
            Some(Error::InsufficientShares)
        } else if !self.bank.is_whitelisted(token) {
            Some(Error::TokenNotWhitelisted)
        } else if external_balance <= self.balance(total_account(), token) {
            Some(Error::NothingToCollect)
        } else if self.balance(guild_account(), token) == 0 {
            Some(Error::NothingToCollect)
        } else {
            None
        }
    }

    /// Credits to the guild bank the tokens that reached the guild outside
    /// of any proposal: the token's `external_balance` for the guild less
    /// the internal total.
    pub fn collect_tokens(&mut self, caller: AccountId, token: AccountId, external_balance: u128) -> (r: Result<
        (),
        Error,
    >)
        requires
            old(self).wf(),
        ensures
            final(self).wf(),
            old(self).keeps_history(final(self)),
            r == match old(self).collect_error(caller, token, external_balance) {
                Some(e) => Err::<(), Error>(e),
                None => Ok(()),
            },
            r is Err ==> *final(self) == *old(self),
            r is Ok ==> {
                let amount = external_balance - old(self).balance(total_account(), token);
                &&& final(self).bank.balances() == crate::bank::credited(
                    old(self).bank.balances(),
                    guild_account(),
                    token,
                    amount,
                )
                &&& final(self).balance(total_account(), token) == external_balance
                &&& final(self).bank.approved_tokens@ == old(self).bank.approved_tokens@
                &&& final(self).same_members(old(self))
                &&& final(self).same_proposals(old(self))
                &&& final(self).same_config(old(self))
                &&& final(self).events@ == old(self).events@.push(
                    Event::TokensCollected(TokensCollected { token, amount_to_collect: amount as u128 }),
                )
            },
    {
        let (_, m) = match self.resolve_delegate(caller) {
            Some(found) => found,
            None => {
                return Err(Error::NoSuchMember);
            },
        };
        if m.shares == 0 {
            return Err(Error::InsufficientShares);
        }
        if !self.bank.whitelisted(token) {
            return Err(Error::TokenNotWhitelisted);
        }
        let total = self.bank.balance_of(crate::account::total(), token);
        if external_balance <= total {
            return Err(Error::NothingToCollect);
        }
        if self.bank.balance_of(crate::account::guild(), token) == 0 {
            return Err(Error::NothingToCollect);
        }
        let amount = external_balance - total;
        let credited = self.bank.credit(crate::account::guild(), token, amount);
        proof {
            assert(credited);
        }
        self.events.push(Event::TokensCollected(TokensCollected { token, amount_to_collect: amount }));
        Ok(())
    }

    /// Why `caller` cannot take `new_delegate_key` as its delegate key, if it cannot.
    pub open spec fn delegate_key_error(&self, caller: AccountId, new_delegate_key: AccountId) -> Option<Error> {
        if self.member(caller) is None {
            Some(Error::NoSuchMember)
        } else if self.member(caller).unwrap().shares == 0 {
            Some(Error::InsufficientShares)
        } else if new_delegate_key == zero_account() {
            Some(Error::ZeroAddress)
        } else if new_delegate_key != caller && self.member(new_delegate_key) is Some {
            Some(Error::DelegateKeyTaken)
        } else if self.delegate_member(new_delegate_key) is Some && self.delegate_member(new_delegate_key) != Some(
            caller,
        ) {
            Some(Error::DelegateKeyTaken)
        } else {
            None
        }
    }

    /// The caller, a member with shares, makes `new_delegate_key` its
    /// delegate key. The key may not be another member's address or another
    /// member's delegate key.
    pub fn update_delegate_key(&mut self, caller: AccountId, new_delegate_key: AccountId) -> (r: Result<(), Error>)
        requires
            old(self).wf(),
        ensures
            final(self).wf(),
            old(self).keeps_history(final(self)),
            r == match old(self).delegate_key_error(caller, new_delegate_key) {
                Some(e) => Err::<(), Error>(e),
                None => Ok(()),
            },
            r is Err ==> *final(self) == *old(self),
            r is Ok ==> {
                &&& final(self).member(caller) == Some(
                    Member { delegate_key: new_delegate_key, ..old(self).member(caller).unwrap() },
                )
                &&& forall|b: AccountId| b != caller ==> #[trigger] final(self).member(b) == old(self).member(b)
                &&& final(self).total_shares == old(self).total_shares
                &&& final(self).total_loot == old(self).total_loot
                &&& final(self).bank == old(self).bank
                &&& final(self).same_proposals(old(self))
                &&& final(self).same_config(old(self))
                &&& final(self).events@ == old(self).events@.push(
                    Event::UpdateDelegateKey(UpdateDelegateKey { member_address: caller, new_delegate_key }),
                )
            },
    {
        let m = match self.members.get_member(caller) {
            Some(m) => m,
            None => {
                return Err(Error::NoSuchMember);
            },
        };
        if m.shares == 0 {
            return Err(Error::InsufficientShares);
        }
        if new_delegate_key.is_zero() {
            return Err(Error::ZeroAddress);
        }
        if new_delegate_key != caller && self.members.get_member(new_delegate_key).is_some() {
            return Err(Error::DelegateKeyTaken);
        }
        match self.resolve_delegate(new_delegate_key) {
            Some((d, _)) => {
                if d != caller {
                    return Err(Error::DelegateKeyTaken);
                }
            },
            None => {},
        }
        let ghost o = *self;
        proof {
            assert forall|b: AccountId| #[trigger] o.members.contains(b) && b != caller implies o.members.get(
                b,
            ).unwrap().delegate_key != new_delegate_key && b != new_delegate_key by {
                if o.members.get(b).unwrap().delegate_key == new_delegate_key {
                    o.lemma_delegate_member(b);
                }
                if b == new_delegate_key && new_delegate_key == caller {
                }
            }
        }
        self.members.set(caller, Member { delegate_key: new_delegate_key, ..m });
        proof {
            assert forall|w: AccountId| #[trigger] self.members.contains(w) implies !is_reserved(w) && w != zero_account() by {
                assert(o.members.contains(w));
            }
        }
        self.events.push(Event::UpdateDelegateKey(UpdateDelegateKey { member_address: caller, new_delegate_key }));
        Ok(())
    }

    /// Why the withdrawals of a batch from position `i` on cannot all be
    /// made, each against what the earlier ones left, if they cannot.
    pub open spec fn batch_error(&self, caller: AccountId, tokens: Seq<AccountId>, amounts: Seq<u128>, i: int) -> Option<
        Error,
    >
        decreases tokens.len() - i,
    {
        if i < 0 || i >= tokens.len() {
            None
        } else if !self.bank.is_whitelisted(tokens[i]) {
            Some(Error::TokenNotWhitelisted)
        } else if withdrawn(tokens, amounts, i + 1, tokens[i]) > self.balance(caller, tokens[i]) {
            Some(Error::InsufficientBalance)
        } else {
            self.batch_error(caller, tokens, amounts, i + 1)
        }
    }

    /// Why `caller` cannot withdraw the batch, if it cannot.
    pub open spec fn withdraw_all_error(&self, caller: AccountId, tokens: Seq<AccountId>, amounts: Seq<u128>) -> Option<
        Error,
    > {
        if tokens.len() != amounts.len() {
            Some(Error::LengthMismatch)
        } else if is_reserved(caller) {
            Some(Error::ReservedAccount)
        } else {
            self.batch_error(caller, tokens, amounts, 0)
        }
    }

    proof fn lemma_batch_fits(&self, caller: AccountId, tokens: Seq<AccountId>, amounts: Seq<u128>, i: int)
        requires
            0 <= i,
            self.batch_error(caller, tokens, amounts, i) is None,
        ensures
            forall|j: int|
                i <= j < tokens.len() ==> self.bank.is_whitelisted(#[trigger] tokens[j]) && withdrawn(
                    tokens,
                    amounts,
                    j + 1,
                    tokens[j],
                ) <= self.balance(caller, tokens[j]),
        decreases tokens.len() - i,
    {
        if i < tokens.len() {
            self.lemma_batch_fits(caller, tokens, amounts, i + 1);
        }
    }

    /// Withdraws `amounts[i]` of `tokens[i]` from the caller's internal
    /// balance for each `i`, in order; all of them or, on an error, none.
    pub fn withdraw_balances(&mut self, caller: AccountId, tokens: Vec<AccountId>, amounts: Vec<u128>) -> (r: Result<
        (),
        Error,
    >)
        requires
            old(self).wf(),
        ensures
            final(self).wf(),
            old(self).keeps_history(final(self)),
            r == match old(self).withdraw_all_error(caller, tokens@, amounts@) {
                Some(e) => Err::<(), Error>(e),
                None => Ok(()),
            },
            r is Err ==> *final(self) == *old(self),
            r is Ok ==> {
                &&& forall|u: AccountId, t: AccountId| #[trigger]
                    final(self).balance(u, t) == if (u == caller || u == total_account()) && old(self).bank.is_whitelisted(t) {
                        old(self).balance(u, t) - withdrawn(tokens@, amounts@, tokens@.len() as int, t)
                    } else {
                        old(self).balance(u, t)
                    }
                &&& final(self).bank.approved_tokens@ == old(self).bank.approved_tokens@
                &&& final(self).same_members(old(self))
                &&& final(self).same_proposals(old(self))
                &&& final(self).same_config(old(self))
                &&& final(self).events@ == old(self).events@ + Seq::new(
                    tokens@.len(),
                    |i: int| Event::Withdraw(Withdraw { member_address: caller, token: tokens@[i], amount: amounts@[i] }),
                )
            },
    {
        if tokens.len() != amounts.len() {
            return Err(Error::LengthMismatch);
        }
        if crate::account::reserved(caller) {
            return Err(Error::ReservedAccount);
        }
        let n = tokens.len();
        let mut i: usize = 0;
        while i < n
            invariant
                self.wf(),
                n == tokens@.len(),
                n == amounts@.len(),
                !is_reserved(caller),
                i <= n,
                self.batch_error(caller, tokens@, amounts@, 0) == self.batch_error(caller, tokens@, amounts@, i as int),
            decreases n - i,
        {
            let t = tokens[i];
            if !self.bank.whitelisted(t) {
                return Err(Error::TokenNotWhitelisted);
            }
            let held = self.bank.balance_of(caller, t);
            let mut acc: u128 = 0;
            let mut j: usize = 0;
            while j <= i
                invariant
                    self.wf(),
                    !is_reserved(caller),
                    self.batch_error(caller, tokens@, amounts@, 0) == self.batch_error(caller, tokens@, amounts@, i as int),
                    self.bank.is_whitelisted(t),
                    held == self.balance(caller, t),
                    j <= i + 1,
                    i < n,
                    n == tokens@.len(),
                    n == amounts@.len(),
                    t == tokens@[i as int],
                    acc == withdrawn(tokens@, amounts@, j as int, t),
                    acc <= held,
                decreases i + 1 - j,
            {
                if tokens[j] == t {
                    if amounts[j] > held - acc {
                        proof {
                            lemma_withdrawn_grows(tokens@, amounts@, j + 1, i + 1, t);
                        }
                        return Err(Error::InsufficientBalance);
                    }
                    acc = acc + amounts[j];
                }
                j = j + 1;
            }
            i = i + 1;
        }
        proof {
            self.lemma_batch_fits(caller, tokens@, amounts@, 0);
        }
        let ghost o = *self;
        let mut k: usize = 0;
        while k < n
            invariant
                o.wf(),
                self.wf(),
                n == tokens@.len(),
                n == amounts@.len(),
                !is_reserved(caller),
                k <= n,
                self.bank.approved_tokens@ == o.bank.approved_tokens@,
                self.same_members(&o),
                self.same_proposals(&o),
                self.same_config(&o),
                forall|j: int|
                    0 <= j < n ==> o.bank.is_whitelisted(#[trigger] tokens@[j]) && withdrawn(tokens@, amounts@, j + 1, tokens@[j])
                        <= o.balance(caller, tokens@[j]),
                forall|u: AccountId, t: AccountId| #[trigger]
                    self.bank.balance(u, t) == if (u == caller || u == total_account()) && o.bank.is_whitelisted(t) {
                        o.balance(u, t) - withdrawn(tokens@, amounts@, k as int, t)
                    } else {
                        o.balance(u, t)
                    },
                self.events@ == o.events@ + Seq::new(
                    k as nat,
                    |i: int| Event::Withdraw(Withdraw { member_address: caller, token: tokens@[i], amount: amounts@[i] }),
                ),
            decreases n - k,
        {
            let t = tokens[k];
            let amount = amounts[k];
            proof {
                assert(o.bank.is_whitelisted(tokens@[k as int]));
                assert(withdrawn(tokens@, amounts@, k + 1, t) <= o.balance(caller, t));
                assert(self.bank.balance(caller, t) == o.balance(caller, t) - withdrawn(tokens@, amounts@, k as int, t));
            }
            self.bank.debit(caller, t, amount);
            self.events.push(Event::Withdraw(Withdraw { member_address: caller, token: t, amount }));
            proof {
                assert forall|u: AccountId, x: AccountId| #[trigger]
                    self.bank.balance(u, x) == if (u == caller || u == total_account()) && o.bank.is_whitelisted(x) {
                        o.balance(u, x) - withdrawn(tokens@, amounts@, k + 1, x)
                    } else {
                        o.balance(u, x)
                    } by {}
                assert(self.events@ =~= o.events@ + Seq::new(
                    (k + 1) as nat,
                    |i: int| Event::Withdraw(Withdraw { member_address: caller, token: tokens@[i], amount: amounts@[i] }),
                ));
            }
            k = k + 1;
        }
        Ok(())
    }
}

} // verus!
