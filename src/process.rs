//! Processing queued proposals once voting and grace are over.
use vstd::prelude::*;

use crate::account::{escrow_account, guild_account, is_reserved, total_account, zero_account, AccountId};
use crate::bank::{moved, Balances};
use crate::constant::{MAX_NUMBER_OF_SHARES_AND_LOOT, MAX_TOKEN_WHITELIST_COUNT};
use crate::error::Error;
use crate::event::{Event, ProcessGuildKickProposal, ProcessProposal, ProcessWhitelistProposal};
use crate::member::Member;
use crate::proposal::{Proposal, ProposalFlags, ProposalId, ProposalIndex, Vote};
use crate::state::{escrow_owed, escrowed, lemma_owed_nonneg, lemma_owed_update, lemma_proposal_ok_grow, proposal_ok, queued_in, Submoloch};

verus! {

/// The three kinds of proposal, each with its own processing entry point.
#[derive(Clone, Copy, Debug, PartialEq, Eq, Structural)]
pub enum ProposalKind {
    Standard,
    Whitelist,
    GuildKick,
}

/// Whether `p` is of kind `kind`.
pub open spec fn is_kind(p: Proposal, kind: ProposalKind) -> bool {
    match kind {
        ProposalKind::Standard => p.is_standard(),
        ProposalKind::Whitelist => p.flags.whitelist,
        ProposalKind::GuildKick => p.flags.guildkick,
    }
}

/// `p` marked processed, with its outcome.
pub open spec fn processed(p: Proposal, did_pass: bool) -> Proposal {
    Proposal { flags: ProposalFlags { processed: true, did_pass, ..p.flags }, ..p }
}

impl Submoloch {
    /// Why the queued proposal at `index` cannot be processed as a proposal
    /// of kind `kind` by `caller` at time `now`, if it cannot.
    pub open spec fn processing_error(&self, caller: AccountId, now: u64, index: ProposalIndex, kind: ProposalKind) -> Option<
        Error,
    > {
        let p = self.queued(index as int);
        if is_reserved(caller) {
            Some(Error::ReservedAccount)
        } else if index >= self.proposal_queue@.len() {
            Some(Error::NoSuchProposal)
        } else if self.period_at(now) < p.starting_period + self.voting_period_length + self.grace_period_length {
            Some(Error::NotReady)
        } else if p.flags.processed {
            Some(Error::AlreadyProcessed)
        } else if index > 0 && !self.queued(index - 1).flags.processed {
            Some(Error::NotReady)
        } else if !is_kind(p, kind) {
            Some(Error::WrongProposalKind)
        } else {
            None
        }
    }

    /// Whether the shares and loot have shrunk so far since the largest total
    /// seen at a Yes vote on `p` that the Yes voters must be protected.
    pub open spec fn diluted(&self, p: Proposal) -> bool {
        self.dilution_bound * (self.total_shares + self.total_loot) < p.max_total_shares_and_loot_at_yes_vote
    }

    /// Whether the standard proposal `p` passes: more Yes than No, not
    /// diluted, applicant not jailed, the shares and loot fit, and the guild
    /// bank can pay.
    pub open spec fn standard_passes(&self, p: Proposal) -> bool {
        &&& p.yes_votes > p.no_votes
        &&& !self.diluted(p)
        &&& !(self.member(p.applicant.unwrap()) is Some && self.member(p.applicant.unwrap()).unwrap().jailed != 0)
        &&& self.total_shares + self.total_loot + p.shares_requested + p.loot_requested <= MAX_NUMBER_OF_SHARES_AND_LOOT
        &&& self.balance(guild_account(), p.payment_token.unwrap()) >= p.payment_requested.unwrap()
    }

    /// Whether the whitelist proposal `p` passes: more Yes than No, not
    /// diluted, and the whitelist has room for one more token.
    pub open spec fn whitelist_passes(&self, p: Proposal) -> bool {
        &&& p.yes_votes > p.no_votes
        &&& !self.diluted(p)
        &&& self.bank.approved_tokens@.len() < MAX_TOKEN_WHITELIST_COUNT
    }

    /// Whether the guildkick proposal `p` passes: more Yes than No, not diluted.
    pub open spec fn guildkick_passes(&self, p: Proposal) -> bool {
        p.yes_votes > p.no_votes && !self.diluted(p)
    }

    /// `m` after paying the processing reward to `caller` and returning the
    /// rest of the deposit to `sponsor`, both out of escrow.
    pub open spec fn deposit_returned(&self, m: Balances, caller: AccountId, sponsor: AccountId) -> Balances {
        let t = self.deposit_token_spec();
        let m1 = moved(m, escrow_account(), caller, t, self.processing_reward as int);
        moved(m1, escrow_account(), sponsor, t, self.proposal_deposit - self.processing_reward)
    }

    /// Checks that the queued proposal at `index` can be processed; returns its id.
    fn ready_to_process(&self, caller: AccountId, now: u64, index: ProposalIndex, kind: ProposalKind) -> (r: Result<
        usize,
        Error,
    >)
        requires
            self.wf(),
        ensures
            r == match self.processing_error(caller, now, index, kind) {
                Some(e) => Err::<usize, Error>(e),
                None => Ok(self.proposal_queue@[index as int] as usize),
            },
            r matches Ok(id) ==> id < self.proposals@.len() && self.proposals@[id as int] == self.queued(index as int),
    {
        if crate::account::reserved(caller) {
            return Err(Error::ReservedAccount);
        }
        if index >= self.proposal_queue.len() as u128 {
            return Err(Error::NoSuchProposal);
        }
        let k = index as usize;
        let id = self.proposal_queue[k];
        let count = self.proposals.len();
        proof {
            assert(id < count);
        }
        let p = self.proposals[id as usize];
        let period = self.get_current_period(now);
        if period < p.starting_period || period - p.starting_period < self.voting_period_length
            + self.grace_period_length {
            return Err(Error::NotReady);
        }
        if p.flags.processed {
            return Err(Error::AlreadyProcessed);
        }
        if k > 0 {
            let prev = self.proposal_queue[k - 1];
            proof {
                assert(prev < count);
            }
            if !self.proposals[prev as usize].flags.processed {
                return Err(Error::NotReady);
            }
        }
        let right_kind = match kind {
            ProposalKind::Standard => !p.flags.whitelist && !p.flags.guildkick,
            ProposalKind::Whitelist => p.flags.whitelist,
            ProposalKind::GuildKick => p.flags.guildkick,
        };
        if !right_kind {
            return Err(Error::WrongProposalKind);
        }
        Ok(id as usize)
    }

    /// Whether the shares and loot have shrunk too far since the Yes votes on `p`.
    fn is_diluted(&self, p: &Proposal) -> (r: bool)
        requires
            self.wf(),
        ensures
            r == self.diluted(*p),
    {
        let total = self.total_shares + self.total_loot;
        proof {
            assert(self.dilution_bound * total <= 1_000_000_000_000_000_000u128 * 1_000_000_000_000_000_000u128)
                by (nonlinear_arith)
                requires
                    self.dilution_bound <= 1_000_000_000_000_000_000u128,
                    total <= 1_000_000_000_000_000_000u128,
            ;
        }
        self.dilution_bound * total < p.max_total_shares_and_loot_at_yes_vote
    }

    /// Marks the proposal `id` processed with its outcome.
    fn mark_processed(&mut self, id: usize, did_pass: bool)
        requires
            old(self).wf(),
            id < old(self).proposals@.len(),
            old(self).proposals@[id as int].flags.sponsored,
        ensures
            final(self).wf(),
            final(self).proposals@ == old(self).proposals@.update(id as int, processed(old(self).proposals@[id as int], did_pass)),
            final(self).bank == old(self).bank,
            final(self).same_members(old(self)),
            final(self).same_config(old(self)),
            final(self).proposal_queue == old(self).proposal_queue,
            final(self).votes == old(self).votes,
            final(self).proposal_details == old(self).proposal_details,
            final(self).events == old(self).events,
    {
        let p = self.proposals[id];
        let q = Proposal { flags: ProposalFlags { processed: true, did_pass, ..p.flags }, ..p };
        let ghost o = *self;
        self.proposals.set(id, q);
        proof {
            assert forall|k: int| 0 <= k < self.proposal_queue@.len() implies #[trigger] self.queued(k).starting_period
                == o.queued(k).starting_period && self.queued(k).flags.sponsored == o.queued(k).flags.sponsored by {}
            assert forall|i: int| 0 <= i < self.proposals@.len() implies #[trigger] proposal_ok(
                self.bank.approved_tokens@,
                self.proposals@[i],
            ) by {
                assert(proposal_ok(o.bank.approved_tokens@, o.proposals@[i]));
            }
            assert forall|k: int|
                0 <= k < self.proposal_queue@.len() implies #[trigger] self.proposal_queue@[k] < self.proposals@.len()
                && queued_in(self.proposals@, self.proposal_queue@, k).flags.sponsored by {
                assert(self.queued(k).flags.sponsored == o.queued(k).flags.sponsored);
            }
            assert forall|j: int, k: int|
                0 <= j < k < self.proposal_queue@.len() implies #[trigger] queued_in(
                self.proposals@,
                self.proposal_queue@,
                j,
            ).starting_period <= #[trigger] queued_in(self.proposals@, self.proposal_queue@, k).starting_period by {
                assert(self.queued(j).starting_period == o.queued(j).starting_period);
                assert(self.queued(k).starting_period == o.queued(k).starting_period);
            }
            assert(self.votes@ == o.votes@);
            let dt = o.bank.approved_tokens@[0];
            lemma_owed_update(o.proposals@, id as int, q, dt, o.proposal_deposit);
            assert forall|t: AccountId|
                #[trigger] self.bank.balance(escrow_account(), t) >= escrow_owed(self.proposals@, t, dt, self.proposal_deposit) by {
                assert(o.bank.balance(escrow_account(), t) >= escrow_owed(o.proposals@, t, dt, o.proposal_deposit));
                assert(escrowed(q, t, dt, o.proposal_deposit) == 0);
            }
        }
    }

    /// Pays the processing reward to `caller` and returns the rest of the
    /// deposit to the sponsor, out of escrow.
    fn return_deposit(&mut self, caller: AccountId, sponsor: AccountId)
        requires
            old(self).wf(),
            !is_reserved(caller),
            !is_reserved(sponsor),
            old(self).balance(escrow_account(), old(self).deposit_token_spec()) >= escrow_owed(
                old(self).proposals@,
                old(self).deposit_token_spec(),
                old(self).deposit_token_spec(),
                old(self).proposal_deposit,
            ) + old(self).proposal_deposit,
        ensures
            final(self).wf(),
            final(self).bank.balances() == old(self).deposit_returned(old(self).bank.balances(), caller, sponsor),
            final(self).bank.approved_tokens@ == old(self).bank.approved_tokens@,
            final(self).same_members(old(self)),
            final(self).same_config(old(self)),
            final(self).proposals == old(self).proposals,
            final(self).proposal_queue == old(self).proposal_queue,
            final(self).votes == old(self).votes,
            final(self).proposal_details == old(self).proposal_details,
            final(self).events == old(self).events,
    {
        let t = self.bank.approved_tokens[0];
        proof {
            assert(self.bank.approved_tokens@.contains(t));
        }
        let reward = self.processing_reward;
        let rest = self.proposal_deposit - self.processing_reward;
        let ghost o = *self;
        proof {
            lemma_owed_nonneg(self.proposals@, t, t, self.proposal_deposit);
        }
        self.bank.transfer(crate::account::escrow(), caller, t, reward);
        self.bank.transfer(crate::account::escrow(), sponsor, t, rest);
        proof {
            assert forall|x: AccountId|
                #[trigger] self.bank.balance(escrow_account(), x) >= escrow_owed(self.proposals@, x, t, self.proposal_deposit) by {
                assert(o.bank.balance(escrow_account(), x) >= escrow_owed(o.proposals@, x, t, o.proposal_deposit));
            }
        }
    }

    /// Admits `applicant` with the given shares and loot: adds them to an
    /// existing member, or registers a new member that delegates to itself,
    /// first resetting to its own address the delegate key of any member that
    /// delegated to the applicant.
    fn enroll(&mut self, applicant: AccountId, shares: u128, loot: u128)
        requires
            old(self).wf(),
            !is_reserved(applicant),
            applicant != zero_account(),
            old(self).total_shares + old(self).total_loot + shares + loot <= MAX_NUMBER_OF_SHARES_AND_LOOT,
        ensures
            final(self).wf(),
            final(self).total_shares == old(self).total_shares + shares,
            final(self).total_loot == old(self).total_loot + loot,
            final(self).member(applicant) == Some(
                match old(self).member(applicant) {
                    Some(m) => Member { shares: (m.shares + shares) as u128, loot: (m.loot + loot) as u128, ..m },
                    None => Member {
                        delegate_key: applicant,
                        shares,
                        loot,
                        exists: true,
                        highest_index_yes_vote: 0,
                        jailed: 0,
                    },
                },
            ),
            old(self).member(applicant) is None && old(self).delegate_member(applicant) is Some ==> final(self).member(
                old(self).delegate_member(applicant).unwrap(),
            ) == Some(
                Member {
                    delegate_key: old(self).delegate_member(applicant).unwrap(),
                    ..old(self).member(old(self).delegate_member(applicant).unwrap()).unwrap()
                },
            ),
            forall|b: AccountId|
                b != applicant && !(old(self).member(applicant) is None && old(self).delegate_member(applicant) == Some(b))
                    ==> #[trigger] final(self).member(b) == old(self).member(b),
            final(self).bank == old(self).bank,
            final(self).same_config(old(self)),
            final(self).proposals == old(self).proposals,
            final(self).proposal_queue == old(self).proposal_queue,
            final(self).votes == old(self).votes,
            final(self).proposal_details == old(self).proposal_details,
            final(self).events == old(self).events,
    {
        let ghost o = *self;
        proof {
            self.members.lemma_sums_nonneg();
        }
        match self.members.get_member(applicant) {
            Some(m) => {
                proof {
                    self.members.lemma_member_bounded(applicant);
                }
                let m2 = Member { shares: m.shares + shares, loot: m.loot + loot, ..m };
                self.members.set(applicant, m2);
            },
            None => {
                match self.resolve_delegate(applicant) {
                    Some((d, dm)) => {
                        let reset = Member { delegate_key: d, ..dm };
                        self.members.set(d, reset);
                        proof {
                            assert forall|b: AccountId| #[trigger] self.members.contains(b) implies self.members.get(
                                b,
                            ).unwrap().delegate_key != applicant by {
                                if b != d {
                                    assert(o.members.contains(b));
                                    assert(o.members.get(b).unwrap().delegate_key != o.members.get(d).unwrap().delegate_key);
                                }
                            }
                        }
                    },
                    None => {},
                }
                let fresh = Member {
                    delegate_key: applicant,
                    shares,
                    loot,
                    exists: true,
                    highest_index_yes_vote: 0,
                    jailed: 0,
                };
                self.members.insert(applicant, fresh);
            },
        }
        self.total_shares = self.total_shares + shares;
        self.total_loot = self.total_loot + loot;
        proof {
            assert forall|w: AccountId| #[trigger] self.members.contains(w) implies !is_reserved(w) && w != zero_account() by {
                if w != applicant {
                    assert(o.members.contains(w));
                }
            }
        }
    }

    /// Processes the standard proposal at `proposal_index`. On a pass the
    /// applicant is admitted, the tribute moves from escrow to the guild bank
    /// and the payment from the guild bank to the applicant; on a fail the
    /// tribute goes back to the proposer. Either way the caller gets the
    /// processing reward and the sponsor the rest of the deposit. Returns
    /// whether the proposal passed.
    pub fn process_proposal(&mut self, caller: AccountId, now: u64, proposal_index: ProposalIndex) -> (r: Result<
        bool,
        Error,
    >)
        requires
            old(self).wf(),
        ensures
            final(self).wf(),
            old(self).keeps_history(final(self)),
            r == match old(self).processing_error(caller, now, proposal_index, ProposalKind::Standard) {
                Some(e) => Err::<bool, Error>(e),
                None => Ok(old(self).standard_passes(old(self).queued(proposal_index as int))),
            },
            r is Err ==> *final(self) == *old(self),
            r matches Ok(did_pass) ==> {
                let id = old(self).proposal_queue@[proposal_index as int];
                let p = old(self).proposals@[id as int];
                let applicant = p.applicant.unwrap();
                let tt = p.tribute_token.unwrap();
                let tribute = p.tribute_offered.unwrap() as int;
                let m0 = old(self).bank.balances();
                let m1 = if did_pass {
                    moved(m0, escrow_account(), guild_account(), tt, tribute)
                } else {
                    moved(m0, escrow_account(), p.proposer, tt, tribute)
                };
                let m2 = if did_pass {
                    moved(m1, guild_account(), applicant, p.payment_token.unwrap(), p.payment_requested.unwrap() as int)
                } else {
                    m1
                };
                &&& final(self).proposals@ == old(self).proposals@.update(id as int, processed(p, did_pass))
                &&& final(self).bank.balances() == old(self).deposit_returned(m2, caller, p.sponsor.unwrap())
                &&& final(self).bank.approved_tokens@ == old(self).bank.approved_tokens@
                &&& did_pass ==> final(self).total_shares == old(self).total_shares + p.shares_requested
                &&& did_pass ==> final(self).total_loot == old(self).total_loot + p.loot_requested
                &&& did_pass ==> final(self).member(applicant) == Some(
                    match old(self).member(applicant) {
                        Some(m) => Member {
                            shares: (m.shares + p.shares_requested) as u128,
                            loot: (m.loot + p.loot_requested) as u128,
                            ..m
                        },
                        None => Member {
                            delegate_key: applicant,
                            shares: p.shares_requested,
                            loot: p.loot_requested,
                            exists: true,
                            highest_index_yes_vote: 0,
                            jailed: 0,
                        },
                    },
                )
                &&& (did_pass && old(self).member(applicant) is None && old(self).delegate_member(applicant) is Some)
                    ==> final(self).member(old(self).delegate_member(applicant).unwrap()) == Some(
                    Member {
                        delegate_key: old(self).delegate_member(applicant).unwrap(),
                        ..old(self).member(old(self).delegate_member(applicant).unwrap()).unwrap()
                    },
                )
                &&& did_pass ==> forall|b: AccountId|
                    b != applicant && !(old(self).member(applicant) is None && old(self).delegate_member(applicant)
                        == Some(b)) ==> #[trigger] final(self).member(b) == old(self).member(b)
                &&& !did_pass ==> final(self).same_members(old(self))
                &&& final(self).proposal_queue == old(self).proposal_queue
                &&& final(self).votes == old(self).votes
                &&& final(self).same_config(old(self))
                &&& final(self).events@ == old(self).events@.push(
                    Event::ProcessProposal(ProcessProposal { proposal_index, proposal_id: id, did_pass }),
                )
            },
    {
        let ghost o = *self;
        let id = match self.ready_to_process(caller, now, proposal_index, ProposalKind::Standard) {
            Ok(id) => id,
            Err(e) => {
                return Err(e);
            },
        };
        let count = self.proposals.len();
        let p = self.proposals[id];
        proof {
            assert(proposal_ok(self.bank.approved_tokens@, self.proposals@[id as int]));
            assert(id as u128 == o.proposal_queue@[proposal_index as int]);
            assert(p == o.proposals@[o.proposal_queue@[proposal_index as int] as int]);
        }
        let applicant = p.applicant.unwrap();
        let tribute_token = p.tribute_token.unwrap();
        let tribute = p.tribute_offered.unwrap();
        let payment_token = p.payment_token.unwrap();
        let payment = p.payment_requested.unwrap();
        let jailed = match self.members.get_member(applicant) {
            Some(m) => m.jailed != 0,
            None => false,
        };
        let total = self.total_shares + self.total_loot;
        let did_pass = p.yes_votes > p.no_votes && !self.is_diluted(&p) && !jailed && p.shares_requested
            + p.loot_requested <= MAX_NUMBER_OF_SHARES_AND_LOOT - total && self.bank.balance_of(
            crate::account::guild(),
            payment_token,
        ) >= payment;
        proof {
            assert(self.queued(proposal_index as int).flags.sponsored);
        }
        self.mark_processed(id, did_pass);
        let ghost mid = *self;
        let ghost dt = o.bank.approved_tokens@[0];
        let ghost dep = o.proposal_deposit;
        proof {
            lemma_owed_update(o.proposals@, id as int, processed(p, did_pass), dt, dep);
            assert(escrowed(p, tribute_token, dt, dep) >= tribute);
            assert(o.bank.balance(escrow_account(), tribute_token) >= escrow_owed(o.proposals@, tribute_token, dt, dep));
            assert(escrowed(p, dt, dt, dep) == dep + if tribute_token == dt { tribute as int } else { 0 });
        }
        proof {
            assert(mid.members == o.members);
            assert(mid.delegate_member(applicant) == o.delegate_member(applicant));
            assert(forall|b: AccountId| #[trigger] mid.member(b) == o.member(b));
        }
        let ghost mut after = *self;
        if did_pass {
            self.enroll(applicant, p.shares_requested, p.loot_requested);
            proof {
                after = *self;
            }
            self.bank.transfer(crate::account::escrow(), crate::account::guild(), tribute_token, tribute);
            self.bank.transfer(crate::account::guild(), applicant, payment_token, payment);
        } else {
            self.bank.transfer(crate::account::escrow(), p.proposer, tribute_token, tribute);
        }
        proof {
            assert forall|t: AccountId|
                #[trigger] self.bank.balance(escrow_account(), t) >= escrow_owed(self.proposals@, t, dt, dep) by {
                assert(o.bank.balance(escrow_account(), t) >= escrow_owed(o.proposals@, t, dt, dep));
                assert(escrow_owed(self.proposals@, t, dt, dep) == escrow_owed(o.proposals@, t, dt, dep) - escrowed(p, t, dt, dep));
            }
            assert(self.bank.balance(escrow_account(), dt) >= escrow_owed(self.proposals@, dt, dt, dep) + dep) by {
                assert(o.bank.balance(escrow_account(), dt) >= escrow_owed(o.proposals@, dt, dt, dep));
                assert(escrow_owed(self.proposals@, dt, dt, dep) == escrow_owed(o.proposals@, dt, dt, dep) - escrowed(p, dt, dt, dep));
            }
        }
        self.return_deposit(caller, p.sponsor.unwrap());
        self.events.push(
            Event::ProcessProposal(ProcessProposal { proposal_index, proposal_id: id as ProposalId, did_pass }),
        );
        proof {
            let applicant = p.applicant.unwrap();
            if did_pass {
                assert(self.members == after.members);
                assert forall|b: AccountId|
                    b != applicant && !(o.member(applicant) is None && o.delegate_member(applicant) == Some(b)) implies #[trigger] self.member(b) == o.member(b) by {
                    assert(after.member(b) == mid.member(b));
                }
            }
            assert forall|b: AccountId| #[trigger] o.members.contains(b) implies self.members.contains(b) by {
                if did_pass && b != applicant && !(o.member(applicant) is None && o.delegate_member(applicant) == Some(b)) {
                    assert(self.member(b) == o.member(b));
                }
            }
        }
        Ok(did_pass)
    }

    /// Processes the whitelist proposal at `proposal_index`: on a pass its
    /// token joins the whitelist. Either way the caller gets the processing
    /// reward and the sponsor the rest of the deposit. Returns whether the
    /// proposal passed.
    pub fn process_whitelist_proposal(&mut self, caller: AccountId, now: u64, proposal_index: ProposalIndex) -> (r:
        Result<bool, Error>)
        requires
            old(self).wf(),
        ensures
            final(self).wf(),
            old(self).keeps_history(final(self)),
            r == match old(self).processing_error(caller, now, proposal_index, ProposalKind::Whitelist) {
                Some(e) => Err::<bool, Error>(e),
                None => Ok(old(self).whitelist_passes(old(self).queued(proposal_index as int))),
            },
            r is Err ==> *final(self) == *old(self),
            r matches Ok(did_pass) ==> {
                let id = old(self).proposal_queue@[proposal_index as int];
                let p = old(self).proposals@[id as int];
                &&& final(self).proposals@ == old(self).proposals@.update(id as int, processed(p, did_pass))
                &&& final(self).bank.approved_tokens@ == if did_pass {
                    old(self).bank.approved_tokens@.push(p.tribute_token.unwrap())
                } else {
                    old(self).bank.approved_tokens@
                }
                &&& final(self).bank.balances() == old(self).deposit_returned(
                    old(self).bank.balances(),
                    caller,
                    p.sponsor.unwrap(),
                )
                &&& final(self).same_members(old(self))
                &&& final(self).proposal_queue == old(self).proposal_queue
                &&& final(self).votes == old(self).votes
                &&& final(self).same_config(old(self))
                &&& final(self).events@ == old(self).events@.push(
                    Event::ProcessWhitelistProposal(ProcessWhitelistProposal { proposal_index, proposal_id: id, did_pass }),
                )
            },
    {
        let ghost o = *self;
        let id = match self.ready_to_process(caller, now, proposal_index, ProposalKind::Whitelist) {
            Ok(id) => id,
            Err(e) => {
                return Err(e);
            },
        };
        let count = self.proposals.len();
        let p = self.proposals[id];
        proof {
            assert(proposal_ok(self.bank.approved_tokens@, self.proposals@[id as int]));
            assert(id as u128 == o.proposal_queue@[proposal_index as int]);
        }
        let token = p.tribute_token.unwrap();
        let did_pass = p.yes_votes > p.no_votes && !self.is_diluted(&p) && (self.bank.token_count() as u128)
            < MAX_TOKEN_WHITELIST_COUNT;
        proof {
            assert(queued_in(self.proposals@, self.proposal_queue@, proposal_index as int) == p);
            assert(!self.bank.is_whitelisted(token));
        }
        proof {
            assert(self.queued(proposal_index as int).flags.sponsored);
        }
        self.mark_processed(id, did_pass);
        if did_pass {
            let ghost before = *self;
            self.bank.whitelist(token);
            proof {
                assert forall|i: int| 0 <= i < self.proposals@.len() implies #[trigger] proposal_ok(
                    self.bank.approved_tokens@,
                    self.proposals@[i],
                ) by {
                    assert(proposal_ok(before.bank.approved_tokens@, before.proposals@[i]));
                    lemma_proposal_ok_grow(before.bank.approved_tokens@, token, before.proposals@[i]);
                }
                assert(self.bank.balances() =~= before.bank.balances());
                assert(self.bank.approved_tokens@[0] == before.bank.approved_tokens@[0]);
                let n = self.proposal_queue@.len() as int;
                let x = proposal_index as int;
                assert forall|k: int|
                    0 <= k < n && (#[trigger] queued_in(self.proposals@, self.proposal_queue@, k)).flags.whitelist
                        && !queued_in(self.proposals@, self.proposal_queue@, k).flags.processed implies !self.bank.approved_tokens@.contains(
                    queued_in(self.proposals@, self.proposal_queue@, k).tribute_token.unwrap(),
                ) by {
                    let qk = queued_in(self.proposals@, self.proposal_queue@, k);
                    assert(qk == queued_in(before.proposals@, before.proposal_queue@, k));
                    assert(k != x);
                    assert(qk == queued_in(o.proposals@, o.proposal_queue@, k));
                    if k < x {
                        assert(queued_in(o.proposals@, o.proposal_queue@, k).tribute_token != queued_in(
                            o.proposals@,
                            o.proposal_queue@,
                            x,
                        ).tribute_token);
                    } else {
                        assert(queued_in(o.proposals@, o.proposal_queue@, x).tribute_token != queued_in(
                            o.proposals@,
                            o.proposal_queue@,
                            k,
                        ).tribute_token);
                    }
                    assert(queued_in(o.proposals@, o.proposal_queue@, x) == p);
                    assert(o.proposal_queue@[k] < o.proposals@.len());
                    assert(proposal_ok(o.bank.approved_tokens@, qk));
                    assert(qk.tribute_token.unwrap() != token);
                    assert(!before.bank.approved_tokens@.contains(qk.tribute_token.unwrap()));
                    assert(self.bank.approved_tokens@ == before.bank.approved_tokens@.push(token));
                }
                assert forall|t: AccountId|
                    #[trigger] self.bank.balance(escrow_account(), t) >= escrow_owed(
                        self.proposals@,
                        t,
                        self.bank.approved_tokens@[0],
                        self.proposal_deposit,
                    ) by {
                    assert(self.bank.balances()[(escrow_account(), t)] == before.bank.balances()[(escrow_account(), t)]);
                    assert(before.bank.balance(escrow_account(), t) >= escrow_owed(
                        before.proposals@,
                        t,
                        before.bank.approved_tokens@[0],
                        before.proposal_deposit,
                    ));
                }
            }
        }
        proof {
            let dt = o.bank.approved_tokens@[0];
            let dep = o.proposal_deposit;
            lemma_owed_update(o.proposals@, id as int, processed(p, did_pass), dt, dep);
            assert(escrowed(p, dt, dt, dep) == dep);
            assert(o.bank.balance(escrow_account(), dt) >= escrow_owed(o.proposals@, dt, dt, dep));
            assert(self.bank.balance(escrow_account(), dt) == o.bank.balance(escrow_account(), dt));
        }
        self.return_deposit(caller, p.sponsor.unwrap());
        self.events.push(
            Event::ProcessWhitelistProposal(
                ProcessWhitelistProposal { proposal_index, proposal_id: id as ProposalId, did_pass },
            ),
        );
        Ok(did_pass)
    }

    /// Processes the guildkick proposal at `proposal_index`: on a pass the
    /// member's shares all turn into loot and the member is jailed at this
    /// index. Either way the caller gets the processing reward and the sponsor
    /// the rest of the deposit. Returns whether the proposal passed.
    pub fn process_guildkick_proposal(&mut self, caller: AccountId, now: u64, proposal_index: ProposalIndex) -> (r:
        Result<bool, Error>)
        requires
            old(self).wf(),
        ensures
            final(self).wf(),
            old(self).keeps_history(final(self)),
            r == match old(self).processing_error(caller, now, proposal_index, ProposalKind::GuildKick) {
                Some(e) => Err::<bool, Error>(e),
                None => Ok(old(self).guildkick_passes(old(self).queued(proposal_index as int))),
            },
            r is Err ==> *final(self) == *old(self),
            r matches Ok(did_pass) ==> {
                let id = old(self).proposal_queue@[proposal_index as int];
                let p = old(self).proposals@[id as int];
                let target = p.applicant.unwrap();
                let m = old(self).member(target).unwrap();
                &&& final(self).proposals@ == old(self).proposals@.update(id as int, processed(p, did_pass))
                &&& final(self).bank.balances() == old(self).deposit_returned(
                    old(self).bank.balances(),
                    caller,
                    p.sponsor.unwrap(),
                )
                &&& final(self).bank.approved_tokens@ == old(self).bank.approved_tokens@
                &&& old(self).member(target) is Some
                &&& did_pass ==> {
                    &&& final(self).member(target) == Some(
                        Member { shares: 0, loot: (m.loot + m.shares) as u128, jailed: proposal_index, ..m },
                    )
                    &&& final(self).total_shares == old(self).total_shares - m.shares
                    &&& final(self).total_loot == old(self).total_loot + m.shares
                    &&& forall|b: AccountId| b != target ==> #[trigger] final(self).member(b) == old(self).member(b)
                }
                &&& !did_pass ==> final(self).same_members(old(self))
                &&& final(self).proposal_queue == old(self).proposal_queue
                &&& final(self).votes == old(self).votes
                &&& final(self).same_config(old(self))
                &&& final(self).events@ == old(self).events@.push(
                    Event::ProcessGuildKickProposal(ProcessGuildKickProposal { proposal_index, proposal_id: id, did_pass }),
                )
            },
    {
        let ghost o = *self;
        let id = match self.ready_to_process(caller, now, proposal_index, ProposalKind::GuildKick) {
            Ok(id) => id,
            Err(e) => {
                return Err(e);
            },
        };
        let count = self.proposals.len();
        let p = self.proposals[id];
        proof {
            assert(proposal_ok(self.bank.approved_tokens@, self.proposals@[id as int]));
            assert(id as u128 == o.proposal_queue@[proposal_index as int]);
        }
        let target = p.applicant.unwrap();
        let did_pass = p.yes_votes > p.no_votes && !self.is_diluted(&p);
        proof {
            assert(self.queued(proposal_index as int).flags.sponsored);
        }
        self.mark_processed(id, did_pass);
        let ghost mut after = *self;
        if did_pass {
            if let Some(m) = self.members.get_member(target) {
                proof {
                    self.members.lemma_member_bounded(target);
                    self.members.lemma_sums_nonneg();
                }
                let kicked = Member { shares: 0, loot: m.loot + m.shares, jailed: proposal_index, ..m };
                self.members.set(target, kicked);
                self.total_shares = self.total_shares - m.shares;
                self.total_loot = self.total_loot + m.shares;
                proof {
                    after = *self;
                    assert forall|w: AccountId| #[trigger] self.members.contains(w) implies !is_reserved(w) && w
                        != zero_account() by {
                        assert(o.members.contains(w));
                    }
                }
            }
        }
        proof {
            let dt = o.bank.approved_tokens@[0];
            let dep = o.proposal_deposit;
            lemma_owed_update(o.proposals@, id as int, processed(p, did_pass), dt, dep);
            assert(escrowed(p, dt, dt, dep) == dep);
            assert(o.bank.balance(escrow_account(), dt) >= escrow_owed(o.proposals@, dt, dt, dep));
            assert(self.bank.balance(escrow_account(), dt) == o.bank.balance(escrow_account(), dt));
        }
        self.return_deposit(caller, p.sponsor.unwrap());
        self.events.push(
            Event::ProcessGuildKickProposal(
                ProcessGuildKickProposal { proposal_index, proposal_id: id as ProposalId, did_pass },
            ),
        );
        proof {
            assert(o.members.contains(target));
            if did_pass {
                assert(self.members == after.members);
                assert forall|b: AccountId| b != target implies #[trigger] self.member(b) == o.member(b) by {
                    assert(after.members.get(b) == o.members.get(b));
                }
            }
        }
        Ok(did_pass)
    }
}

} // verus!
