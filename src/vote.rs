//! Voting on queued proposals.
use vstd::prelude::*;

use crate::account::AccountId;
use crate::error::Error;
use crate::event::{Event, SubmitVote};
use crate::member::Member;
use crate::proposal::{vote_of_uint, Proposal, ProposalIndex, Vote, VoteRecord};
use crate::account::escrow_account;
use crate::state::{escrow_owed, escrowed, lemma_owed_update, proposal_ok, queued_in, vote_in, Submoloch};

verus! {

/// The later of two periods or indices.
pub open spec fn max_of(a: int, b: int) -> int {
    if a >= b {
        a
    } else {
        b
    }
}

impl Submoloch {
    /// Why `caller` cannot cast `uint_vote` on the queued proposal at
    /// `proposal_index` at time `now`, if it cannot.
    pub open spec fn vote_error(&self, caller: AccountId, now: u64, proposal_index: ProposalIndex, uint_vote: u8) -> Option<
        Error,
    > {
        let a = self.delegate_member(caller).unwrap();
        let m = self.member(a).unwrap();
        let p = self.queued(proposal_index as int);
        if self.delegate_member(caller) is None {
            Some(Error::NoSuchMember)
        } else if m.shares == 0 {
            Some(Error::InsufficientShares)
        } else if proposal_index >= self.proposal_queue@.len() {
            Some(Error::NoSuchProposal)
        } else if uint_vote >= 3 {
            Some(Error::InvalidVote)
        } else if self.period_at(now) < p.starting_period {
            Some(Error::NotYetOpen)
        } else if self.period_at(now) >= p.starting_period + self.voting_period_length {
            Some(Error::VotingClosed)
        } else if self.vote_of(proposal_index as int, a) != Vote::Null {
            Some(Error::AlreadyVoted)
        } else if uint_vote == 0 {
            Some(Error::InvalidVote)
        } else if uint_vote == 1 && p.yes_votes + m.shares > u128::MAX {
            Some(Error::Overflow)
        } else if uint_vote == 2 && p.no_votes + m.shares > u128::MAX {
            Some(Error::Overflow)
        } else {
            None
        }
    }

    /// Whether the voting period of a proposal that starts in
    /// `starting_period` is over at time `now`.
    pub fn has_voting_period_expired(&self, starting_period: u128, now: u64) -> (r: bool)
        requires
            self.config_wf(),
        ensures
            r == (self.period_at(now) >= starting_period + self.voting_period_length),
    {
        let period = self.get_current_period(now);
        period >= starting_period && period - starting_period >= self.voting_period_length
    }

    /// Casts the vote of the member whose delegate key is `caller` on the
    /// queued proposal at `proposal_index`; `uint_vote` is 1 for Yes and 2
    /// for No. The vote weighs as many shares as the member holds.
    pub fn submit_vote(&mut self, caller: AccountId, now: u64, proposal_index: ProposalIndex, uint_vote: u8) -> (r:
        Result<(), Error>)
        requires
            old(self).wf(),
        ensures
            final(self).wf(),
            old(self).keeps_history(final(self)),
            r == match old(self).vote_error(caller, now, proposal_index, uint_vote) {
                Some(e) => Err::<(), Error>(e),
                None => Ok(()),
            },
            r is Err ==> *final(self) == *old(self),
            r is Ok ==> {
                let a = old(self).delegate_member(caller).unwrap();
                let m = old(self).member(a).unwrap();
                let id = old(self).proposal_queue@[proposal_index as int];
                let p = old(self).proposals@[id as int];
                let total = old(self).total_shares + old(self).total_loot;
                &&& final(self).votes@ == old(self).votes@.push(
                    VoteRecord { proposal_index, member: a, vote: vote_of_uint(uint_vote) },
                )
                &&& final(self).vote_of(proposal_index as int, a) == vote_of_uint(uint_vote)
                &&& final(self).proposals@ == old(self).proposals@.update(
                    id as int,
                    if uint_vote == 1 {
                        Proposal {
                            yes_votes: (p.yes_votes + m.shares) as u128,
                            max_total_shares_and_loot_at_yes_vote: max_of(
                                p.max_total_shares_and_loot_at_yes_vote as int,
                                total,
                            ) as u128,
                            ..p
                        }
                    } else {
                        Proposal { no_votes: (p.no_votes + m.shares) as u128, ..p }
                    },
                )
                &&& final(self).member(a) == Some(
                    if uint_vote == 1 {
                        Member {
                            highest_index_yes_vote: max_of(m.highest_index_yes_vote as int, proposal_index as int) as u128,
                            ..m
                        }
                    } else {
                        m
                    },
                )
                &&& forall|b: AccountId| b != a ==> #[trigger] final(self).member(b) == old(self).member(b)
                &&& final(self).total_shares == old(self).total_shares
                &&& final(self).total_loot == old(self).total_loot
                &&& final(self).bank == old(self).bank
                &&& final(self).proposal_queue == old(self).proposal_queue
                &&& final(self).proposal_details == old(self).proposal_details
                &&& final(self).same_config(old(self))
                &&& final(self).events@ == old(self).events@.push(
                    Event::SubmitVote(
                        SubmitVote { proposal_id: id, proposal_index, delegate_key: caller, member_address: a, uint_vote },
                    ),
                )
            },
    {
        let (a, m) = match self.resolve_delegate(caller) {
            Some(found) => found,
            None => {
                return Err(Error::NoSuchMember);
            },
        };
        if m.shares == 0 {
            return Err(Error::InsufficientShares);
        }
        if proposal_index >= self.proposal_queue.len() as u128 {
            return Err(Error::NoSuchProposal);
        }
        if uint_vote >= 3 {
            return Err(Error::InvalidVote);
        }
        let index = proposal_index as usize;
        let id = self.proposal_queue[index];
        let count = self.proposals.len();
        proof {
            assert(id < count);
        }
        let p = self.proposals[id as usize];
        let period = self.get_current_period(now);
        if period < p.starting_period {
            return Err(Error::NotYetOpen);
        }
        if period - p.starting_period >= self.voting_period_length {
            return Err(Error::VotingClosed);
        }
        if self.vote_on(proposal_index, a) != Vote::Null {
            return Err(Error::AlreadyVoted);
        }
        if uint_vote == 0 {
            return Err(Error::InvalidVote);
        }
        let vote = Vote::from_uint(uint_vote);
        let total = self.total_shares + self.total_loot;
        let q = if uint_vote == 1 {
            if p.yes_votes > u128::MAX - m.shares {
                return Err(Error::Overflow);
            }
            Proposal {
                yes_votes: p.yes_votes + m.shares,
                max_total_shares_and_loot_at_yes_vote: crate::utils::max(p.max_total_shares_and_loot_at_yes_vote, total),
                ..p
            }
        } else {
            if p.no_votes > u128::MAX - m.shares {
                return Err(Error::Overflow);
            }
            Proposal { no_votes: p.no_votes + m.shares, ..p }
        };
        let ghost o = *self;
        self.proposals.set(id as usize, q);
        self.votes.push(VoteRecord { proposal_index, member: a, vote });
        if uint_vote == 1 {
            let m2 = Member { highest_index_yes_vote: crate::utils::max(m.highest_index_yes_vote, proposal_index), ..m };
            self.members.set(a, m2);
        }
        proof {
            let n = o.proposal_queue@.len() as int;
            assert(o.queued(index as int) == p);
            assert forall|k: int| 0 <= k < n implies #[trigger] self.queued(k).starting_period == o.queued(
                k,
            ).starting_period && self.queued(k).flags == o.queued(k).flags by {}
            assert forall|i: int| 0 <= i < self.proposals@.len() implies #[trigger] proposal_ok(
                self.bank.approved_tokens@,
                self.proposals@[i],
            ) by {
                assert(proposal_ok(o.bank.approved_tokens@, o.proposals@[i]));
            }
            assert forall|k: int|
                0 <= k < self.proposal_queue@.len() implies #[trigger] self.proposal_queue@[k] < self.proposals@.len()
                && queued_in(self.proposals@, self.proposal_queue@, k).flags.sponsored by {
                assert(self.queued(k).flags == o.queued(k).flags);
            }
            assert forall|j: int, k: int|
                0 <= j < k < self.proposal_queue@.len() implies #[trigger] queued_in(
                self.proposals@,
                self.proposal_queue@,
                j,
            ).starting_period <= #[trigger] queued_in(self.proposals@, self.proposal_queue@, k).starting_period by {
                assert(self.queued(j).starting_period == o.queued(j).starting_period);
                assert(self.queued(k).starting_period == o.queued(k).starting_period);
            }
            assert forall|k: int| 0 <= k < self.votes@.len() implies (#[trigger] self.votes@[k]).proposal_index
                < self.proposal_queue@.len() && self.votes@[k].vote != Vote::Null by {
                if k < o.votes@.len() {
                    assert(o.votes@[k] == self.votes@[k]);
                }
            }
            assert(self.votes@.drop_last() =~= o.votes@);
            let dt = o.bank.approved_tokens@[0];
            lemma_owed_update(o.proposals@, id as int, q, dt, o.proposal_deposit);
            assert forall|t: AccountId|
                #[trigger] self.bank.balance(escrow_account(), t) >= escrow_owed(self.proposals@, t, dt, self.proposal_deposit) by {
                assert(o.bank.balance(escrow_account(), t) >= escrow_owed(o.proposals@, t, dt, o.proposal_deposit));
                assert(escrowed(q, t, dt, o.proposal_deposit) == escrowed(p, t, dt, o.proposal_deposit));
            }
            assert forall|w: AccountId| #[trigger] self.members.contains(w) implies !crate::account::is_reserved(w)
                && w != crate::account::zero_account() by {
                assert(o.members.contains(w));
            }
        }
        self.events.push(
            Event::SubmitVote(SubmitVote { proposal_id: id, proposal_index, delegate_key: caller, member_address: a, uint_vote }),
        );
        Ok(())
    }

    /// The last vote of `m` on the queued proposal at `index`, or no vote.
    pub(crate) fn vote_on(&self, index: ProposalIndex, m: AccountId) -> (r: Vote)
        ensures
            r == self.vote_of(index as int, m),
    {
        let mut k: usize = self.votes.len();
        proof {
            assert(self.votes@.subrange(0, k as int) =~= self.votes@);
        }
        while k > 0
            invariant
                k <= self.votes@.len(),
                vote_in(self.votes@, index as int, m) == vote_in(self.votes@.subrange(0, k as int), index as int, m),
            decreases k,
        {
            let v = self.votes[k - 1];
            proof {
                assert(self.votes@.subrange(0, k as int).drop_last() =~= self.votes@.subrange(0, k - 1));
            }
            if v.proposal_index == index && v.member == m {
                return v.vote;
            }
            k = k - 1;
        }
        Vote::Null
    }
}

} // verus!
