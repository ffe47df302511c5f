//! Sponsoring a proposal into the voting queue.
use vstd::prelude::*;

use crate::account::{escrow_account, total_account, AccountId};
use crate::bank::credited;
use crate::constant::MAX_TOKEN_WHITELIST_COUNT;
use crate::error::{Error, TransferError};
use crate::event::{Event, SponsorProposal};
use crate::proposal::{Proposal, ProposalFlags, ProposalId};
use crate::state::{escrow_owed, escrowed, lemma_owed_update, proposal_ok, queued_in, Submoloch};

verus! {

impl Submoloch {
    /// The starting period that a proposal sponsored at time `now` gets: one
    /// after the later of the current period and the last queued start.
    pub open spec fn next_starting_period(&self, now: u64) -> int {
        if self.period_at(now) >= self.last_starting_period() {
            self.period_at(now) + 1
        } else {
            self.last_starting_period() + 1
        }
    }

    /// Why `caller` cannot sponsor the proposal, if it cannot; `transfer` is
    /// the outcome of collecting the deposit from the caller.
    pub open spec fn sponsor_error(
        &self,
        caller: AccountId,
        now: u64,
        proposal_id: ProposalId,
        transfer: Result<(), TransferError>,
    ) -> Option<Error> {
        let p = self.proposals@[proposal_id as int];
        if self.delegate_member(caller) is None {
            Some(Error::NoSuchMember)
        } else if self.member(self.delegate_member(caller).unwrap()).unwrap().shares == 0 {
            Some(Error::InsufficientShares)
        } else if proposal_id >= self.proposals@.len() {
            Some(Error::NoSuchProposal)
        } else if p.flags.sponsored {
            Some(Error::AlreadySponsored)
        } else if p.flags.cancelled {
            Some(Error::AlreadyCancelled)
        } else if p.applicant is Some && self.member(p.applicant.unwrap()) is Some && self.member(
            p.applicant.unwrap(),
        ).unwrap().jailed != 0 {
            Some(Error::ApplicantJailed)
        } else if p.flags.whitelist && self.bank.is_whitelisted(p.tribute_token.unwrap()) {
            Some(Error::DuplicateToken)
        } else if p.flags.whitelist && self.whitelist_reserved(p.tribute_token.unwrap()) {
            Some(Error::AlreadyProposed)
        } else if p.flags.whitelist && self.bank.approved_tokens@.len() >= MAX_TOKEN_WHITELIST_COUNT {
            Some(Error::WhitelistFull)
        } else if p.flags.guildkick && self.kick_reserved(p.applicant.unwrap()) {
            Some(Error::AlreadyProposed)
        } else if transfer is Err {
            Some(Error::TransferFailed(transfer->Err_0))
        } else if self.balance(total_account(), self.deposit_token_spec()) + self.proposal_deposit > u128::MAX {
            Some(Error::Overflow)
        } else if self.next_starting_period(now) > u128::MAX {
            Some(Error::Overflow)
        } else {
            None
        }
    }

    /// Whether a sponsored, unprocessed whitelist proposal names `t`.
    fn whitelist_reserved_exec(&self, t: AccountId) -> (r: bool)
        requires
            self.proposals_wf(),
        ensures
            r == self.whitelist_reserved(t),
    {
        let mut k: usize = 0;
        while k < self.proposal_queue.len()
            invariant
                self.proposals_wf(),
                k <= self.proposal_queue@.len(),
                forall|j: int|
                    0 <= j < k ==> !(#[trigger] self.queued(j).flags.whitelist && !self.queued(j).flags.processed
                        && self.queued(j).tribute_token == Some(t)),
            decreases self.proposal_queue@.len() - k,
        {
            let pid = self.proposal_queue[k];
            let count = self.proposals.len();
            proof {
                assert(pid < count);
            }
            let q = self.proposals[pid as usize];
            let names = match q.tribute_token {
                Some(x) => x == t,
                None => false,
            };
            if q.flags.whitelist && !q.flags.processed && names {
                proof {
                    assert(self.queued(k as int) == q);
                }
                return true;
            }
            proof {
                assert(self.queued(k as int) == q);
            }
            k = k + 1;
        }
        false
    }

    /// Whether a sponsored, unprocessed guildkick proposal names `a`.
    fn kick_reserved_exec(&self, a: AccountId) -> (r: bool)
        requires
            self.proposals_wf(),
        ensures
            r == self.kick_reserved(a),
    {
        let mut k: usize = 0;
        while k < self.proposal_queue.len()
            invariant
                self.proposals_wf(),
                k <= self.proposal_queue@.len(),
                forall|j: int|
                    0 <= j < k ==> !(#[trigger] self.queued(j).flags.guildkick && !self.queued(j).flags.processed
                        && self.queued(j).applicant == Some(a)),
            decreases self.proposal_queue@.len() - k,
        {
            let pid = self.proposal_queue[k];
            let count = self.proposals.len();
            proof {
                assert(pid < count);
            }
            let q = self.proposals[pid as usize];
            let names = match q.applicant {
                Some(x) => x == a,
                None => false,
            };
            if q.flags.guildkick && !q.flags.processed && names {
                proof {
                    assert(self.queued(k as int) == q);
                }
                return true;
            }
            proof {
                assert(self.queued(k as int) == q);
            }
            k = k + 1;
        }
        false
    }

    /// Sponsors a proposal: the caller, a delegate key of a member with
    /// shares, posts the deposit and moves the proposal into the queue, where
    /// voting opens in its starting period. `transfer` is the outcome of
    /// collecting the deposit from the caller; the deposit is held in escrow.
    pub fn sponsor_proposal(
        &mut self,
        caller: AccountId,
        now: u64,
        proposal_id: ProposalId,
        transfer: Result<(), TransferError>,
    ) -> (r: Result<(), Error>)
        requires
            old(self).wf(),
        ensures
            final(self).wf(),
            old(self).keeps_history(final(self)),
            r == match old(self).sponsor_error(caller, now, proposal_id, transfer) {
                Some(e) => Err::<(), Error>(e),
                None => Ok(()),
            },
            r is Err ==> *final(self) == *old(self),
            r is Ok ==> {
                let p = old(self).proposals@[proposal_id as int];
                let sponsor = old(self).delegate_member(caller).unwrap();
                let start = old(self).next_starting_period(now);
                &&& final(self).proposals@ == old(self).proposals@.update(
                    proposal_id as int,
                    Proposal {
                        starting_period: start as u128,
                        sponsor: Some(sponsor),
                        flags: ProposalFlags { sponsored: true, ..p.flags },
                        ..p
                    },
                )
                &&& start >= old(self).period_at(now) + 1
                &&& final(self).proposal_queue@ == old(self).proposal_queue@.push(proposal_id)
                &&& final(self).bank.balances() == credited(
                    old(self).bank.balances(),
                    escrow_account(),
                    old(self).deposit_token_spec(),
                    old(self).proposal_deposit as int,
                )
                &&& final(self).bank.approved_tokens@ == old(self).bank.approved_tokens@
                &&& final(self).votes == old(self).votes
                &&& final(self).proposal_details == old(self).proposal_details
                &&& final(self).same_members(old(self))
                &&& final(self).same_config(old(self))
                &&& final(self).events@ == old(self).events@.push(
                    Event::SponsorProposal(
                        SponsorProposal {
                            delegate_key: caller,
                            member_address: sponsor,
                            proposal_id,
                            proposal_index: old(self).proposal_queue@.len() as u128,
                            starting_period: start as u128,
                        },
                    ),
                )
            },
    {
        let (member_address, member) = match self.resolve_delegate(caller) {
            Some(found) => found,
            None => {
                return Err(Error::NoSuchMember);
            },
        };
        if member.shares == 0 {
            return Err(Error::InsufficientShares);
        }
        if proposal_id >= self.proposals.len() as u128 {
            return Err(Error::NoSuchProposal);
        }
        let id = proposal_id as usize;
        let p = self.proposals[id];
        if p.flags.sponsored {
            return Err(Error::AlreadySponsored);
        }
        if p.flags.cancelled {
            return Err(Error::AlreadyCancelled);
        }
        if let Some(a) = p.applicant {
            if let Some(am) = self.members.get_member(a) {
                if am.jailed != 0 {
                    return Err(Error::ApplicantJailed);
                }
            }
        }
        proof {
            assert(proposal_ok(self.bank.approved_tokens@, self.proposals@[id as int]));
        }
        if p.flags.whitelist {
            let token = p.tribute_token.unwrap();
            if self.bank.whitelisted(token) {
                return Err(Error::DuplicateToken);
            }
            if self.whitelist_reserved_exec(token) {
                return Err(Error::AlreadyProposed);
            }
            if self.bank.token_count() as u128 >= MAX_TOKEN_WHITELIST_COUNT {
                return Err(Error::WhitelistFull);
            }
        } else if p.flags.guildkick {
            if self.kick_reserved_exec(p.applicant.unwrap()) {
                return Err(Error::AlreadyProposed);
            }
        }
        if let Err(k) = transfer {
            return Err(Error::TransferFailed(k));
        }
        let current_period = self.get_current_period(now);
        let last = if self.proposal_queue.len() == 0 {
            0
        } else {
            self.proposals[self.proposal_queue[self.proposal_queue.len() - 1] as usize].starting_period
        };
        let later = crate::utils::max(current_period, last);
        if later == u128::MAX {
            return Err(Error::Overflow);
        }
        let deposit_token = self.bank.approved_tokens[0];
        let ghost before = *self;
        proof {
            assert(self.bank.approved_tokens@.contains(deposit_token));
        }
        if !self.bank.credit(crate::account::escrow(), deposit_token, self.proposal_deposit) {
            return Err(Error::Overflow);
        }
        let start = later + 1;
        let q = Proposal {
            starting_period: start,
            sponsor: Some(member_address),
            flags: ProposalFlags { sponsored: true, ..p.flags },
            ..p
        };
        let ghost o = *self;
        self.proposals.set(id, q);
        let index = self.proposal_queue.len() as u128;
        self.proposal_queue.push(proposal_id);
        proof {
            let n = o.proposal_queue@.len() as int;
            assert forall|k: int| 0 <= k < n implies #[trigger] self.queued(k) == o.queued(k) by {
                assert(o.queued(k).flags.sponsored);
                assert(o.proposal_queue@[k] != proposal_id);
            }
            assert(self.queued(n) == q);
            assert forall|i: int| 0 <= i < self.proposals@.len() implies #[trigger] proposal_ok(
                self.bank.approved_tokens@,
                self.proposals@[i],
            ) by {
                assert(proposal_ok(o.bank.approved_tokens@, o.proposals@[i]));
            }
            assert forall|k: int|
                0 <= k < self.proposal_queue@.len() implies #[trigger] self.proposal_queue@[k] < self.proposals@.len()
                && queued_in(self.proposals@, self.proposal_queue@, k).flags.sponsored by {
                if k < n {
                    assert(self.queued(k) == o.queued(k));
                }
            }
            assert forall|j: int, k: int|
                0 <= j < k < self.proposal_queue@.len() implies #[trigger] queued_in(
                self.proposals@,
                self.proposal_queue@,
                j,
            ).starting_period <= #[trigger] queued_in(self.proposals@, self.proposal_queue@, k).starting_period by {
                assert(self.queued(j) == o.queued(j));
                if k < n {
                    assert(self.queued(k) == o.queued(k));
                } else {
                    if j < n - 1 {
                        assert(o.queued(j).starting_period <= o.queued(n - 1).starting_period);
                    }
                }
            }
            assert forall|k: int| 0 <= k < self.votes@.len() implies (#[trigger] self.votes@[k]).proposal_index
                < self.proposal_queue@.len() && self.votes@[k].vote != crate::proposal::Vote::Null by {
                assert(o.votes@[k] == self.votes@[k]);
            }
            assert forall|k: int|
                0 <= k < self.proposal_queue@.len() && (#[trigger] queued_in(self.proposals@, self.proposal_queue@, k)).flags.whitelist
                    && !queued_in(self.proposals@, self.proposal_queue@, k).flags.processed implies !self.bank.approved_tokens@.contains(
                queued_in(self.proposals@, self.proposal_queue@, k).tribute_token.unwrap(),
            ) by {
                if k < n {
                    assert(self.queued(k) == o.queued(k));
                }
            }
            assert forall|j: int, k: int|
                0 <= j < k < self.proposal_queue@.len() && (#[trigger] queued_in(self.proposals@, self.proposal_queue@, j)).flags.whitelist
                    && !queued_in(self.proposals@, self.proposal_queue@, j).flags.processed && (#[trigger] queued_in(
                    self.proposals@,
                    self.proposal_queue@,
                    k,
                )).flags.whitelist && !queued_in(self.proposals@, self.proposal_queue@, k).flags.processed implies queued_in(
                self.proposals@,
                self.proposal_queue@,
                j,
            ).tribute_token != queued_in(self.proposals@, self.proposal_queue@, k).tribute_token by {
                assert(self.queued(j) == o.queued(j));
                if k < n {
                    assert(self.queued(k) == o.queued(k));
                } else {
                    assert(!old(self).whitelist_reserved(p.tribute_token.unwrap()));
                    assert(old(self).queued(j) == o.queued(j));
                }
            }
            let dt = deposit_token;
            lemma_owed_update(o.proposals@, proposal_id as int, q, dt, o.proposal_deposit);
            assert forall|t: AccountId|
                #[trigger] self.bank.balance(escrow_account(), t) >= escrow_owed(self.proposals@, t, dt, self.proposal_deposit) by {
                assert(before.bank.balance(escrow_account(), t) >= escrow_owed(before.proposals@, t, dt, before.proposal_deposit));
                assert(escrowed(q, t, dt, o.proposal_deposit) == escrowed(p, t, dt, o.proposal_deposit) + if t == dt {
                    o.proposal_deposit as int
                } else {
                    0
                });
            }
        }
        self.events.push(
            Event::SponsorProposal(
                SponsorProposal {
                    delegate_key: caller,
                    member_address,
                    proposal_id,
                    proposal_index: index,
                    starting_period: start,
                },
            ),
        );
        Ok(())
    }
}

} // verus!
