//! Submitting proposals of the three kinds, and cancelling them before they
//! are sponsored.
use vstd::prelude::*;

use crate::account::{escrow_account, guild_account, is_reserved, total_account, zero_account, AccountId};
use crate::bank::{credited, moved};
use crate::constant::{MAX_NUMBER_OF_SHARES_AND_LOOT, MAX_TOKEN_GUILDBANK_COUNT, MAX_TOKEN_WHITELIST_COUNT};
use crate::error::{Error, TransferError};
use crate::event::{CancelProposal, Event, SubmitProposal};
use crate::proposal::{Proposal, ProposalFlags, ProposalId};
use crate::state::{escrow_owed, escrowed, lemma_owed_push, lemma_owed_update, Submoloch};

verus! {

impl Submoloch {
    /// Why a standard proposal cannot be submitted, if it cannot; `transfer`
    /// is the outcome of collecting the tribute from the caller.
    pub open spec fn submit_error(
        &self,
        caller: AccountId,
        applicant: AccountId,
        shares_requested: u128,
        loot_requested: u128,
        tribute_offered: u128,
        tribute_token: AccountId,
        payment_token: AccountId,
        transfer: Result<(), TransferError>,
    ) -> Option<Error> {
        if is_reserved(caller) {
            Some(Error::ReservedAccount)
        } else if shares_requested + loot_requested > MAX_NUMBER_OF_SHARES_AND_LOOT {
            Some(Error::TooManyShares)
        } else if !self.bank.is_whitelisted(tribute_token) || !self.bank.is_whitelisted(payment_token) {
            Some(Error::TokenNotWhitelisted)
        } else if applicant == zero_account() {
            Some(Error::ZeroAddress)
        } else if is_reserved(applicant) {
            Some(Error::ApplicantReserved)
        } else if self.member(applicant) matches Some(m) && m.jailed != 0 {
            Some(Error::ApplicantJailed)
        } else if tribute_offered > 0 && self.balance(guild_account(), tribute_token) == 0
            && self.bank.total_guild_bank_tokens >= MAX_TOKEN_GUILDBANK_COUNT {
            Some(Error::GuildBankFull)
        } else if transfer is Err {
            Some(Error::TransferFailed(transfer->Err_0))
        } else if self.balance(total_account(), tribute_token) + tribute_offered > u128::MAX {
            Some(Error::Overflow)
        } else {
            None
        }
    }

    /// Why a whitelist proposal cannot be submitted, if it cannot.
    pub open spec fn submit_whitelist_error(&self, caller: AccountId, token: AccountId) -> Option<Error> {
        if is_reserved(caller) {
            Some(Error::ReservedAccount)
        } else if token == zero_account() {
            Some(Error::ZeroAddress)
        } else if self.bank.is_whitelisted(token) {
            Some(Error::DuplicateToken)
        } else if self.bank.approved_tokens@.len() >= MAX_TOKEN_WHITELIST_COUNT {
            Some(Error::WhitelistFull)
        } else {
            None
        }
    }

    /// Why a guildkick proposal cannot be submitted, if it cannot.
    pub open spec fn submit_guildkick_error(&self, caller: AccountId, member_to_kick: AccountId) -> Option<Error> {
        if is_reserved(caller) {
            Some(Error::ReservedAccount)
        } else if self.member(member_to_kick) is None {
            Some(Error::NoSuchMember)
        } else if self.member(member_to_kick).unwrap().shares == 0 && self.member(member_to_kick).unwrap().loot == 0 {
            Some(Error::InsufficientShares)
        } else if self.member(member_to_kick).unwrap().jailed != 0 {
            Some(Error::ApplicantJailed)
        } else {
            None
        }
    }

    /// Why a proposal cannot be cancelled by `caller`, if it cannot.
    pub open spec fn cancel_error(&self, caller: AccountId, proposal_id: ProposalId) -> Option<Error> {
        if proposal_id >= self.proposals@.len() {
            Some(Error::NoSuchProposal)
        } else if self.proposals@[proposal_id as int].flags.sponsored {
            Some(Error::AlreadySponsored)
        } else if self.proposals@[proposal_id as int].flags.cancelled {
            Some(Error::AlreadyCancelled)
        } else if caller != self.proposals@[proposal_id as int].proposer {
            Some(Error::NotProposer)
        } else {
            None
        }
    }

    /// Appends a new proposal; its id is the number of proposals before it.
    fn push_proposal(&mut self, p: Proposal, details: String) -> (id: ProposalId)
        requires
            old(self).wf(),
            old(self).proposal_wf(p),
            !p.flags.sponsored,
            p.flags.guildkick ==> old(self).members.contains(p.applicant.unwrap()),
            forall|t: AccountId|
                #[trigger] old(self).bank.balance(escrow_account(), t) >= escrow_owed(
                    old(self).proposals@,
                    t,
                    old(self).bank.approved_tokens@[0],
                    old(self).proposal_deposit,
                ) + escrowed(p, t, old(self).bank.approved_tokens@[0], old(self).proposal_deposit),
        ensures
            final(self).wf(),
            id == old(self).proposal_count,
            final(self).proposals@ == old(self).proposals@.push(p),
            final(self).proposal_details@ == old(self).proposal_details@.push(details),
            final(self).proposal_count == old(self).proposal_count + 1,
            final(self).proposal_queue == old(self).proposal_queue,
            final(self).votes == old(self).votes,
            final(self).same_members(old(self)),
            final(self).same_config(old(self)),
            final(self).bank == old(self).bank,
            final(self).events == old(self).events,
    {
        let id = self.proposal_count;
        self.proposals.push(p);
        self.proposal_details.push(details);
        self.proposal_count = self.proposals.len() as u128;
        proof {
            let o = old(self);
            assert forall|k: int| 0 <= k < self.proposal_queue@.len() implies #[trigger] self.queued(k) == o.queued(k) by {
                assert(self.proposal_queue@[k] < o.proposals@.len());
            }
            assert forall|i: int| 0 <= i < self.proposals@.len() implies #[trigger] crate::state::proposal_ok(self.bank.approved_tokens@, self.proposals@[i]) by {
                if i < o.proposals@.len() {
                    assert(o.proposal_wf(o.proposals@[i]));
                }
            }
            assert forall|k: int|
                0 <= k < self.proposal_queue@.len() implies #[trigger] self.proposal_queue@[k] < self.proposals@.len()
                && self.queued(k).flags.sponsored by {
                assert(self.queued(k) == o.queued(k));
            }
            assert forall|j: int, k: int|
                0 <= j < k < self.proposal_queue@.len() implies #[trigger] self.queued(j).starting_period
                <= #[trigger] self.queued(k).starting_period by {
                assert(self.queued(k) == o.queued(k));
                assert(self.queued(j) == o.queued(j));
            }
            assert(self.votes@ == o.votes@);
            lemma_owed_push(o.proposals@, p, o.bank.approved_tokens@[0], o.proposal_deposit);
            assert forall|i: int|
                0 <= i < self.proposals@.len() && (#[trigger] self.proposals@[i]).flags.guildkick implies self.members.contains(
                self.proposals@[i].applicant.unwrap(),
            ) by {
                if i < o.proposals@.len() {
                    assert(o.proposals@[i] == self.proposals@[i]);
                }
            }
        }
        id
    }

    /// Submits a standard proposal: `applicant` asks for shares and loot, and
    /// a payment, in return for a tribute. `transfer` is the outcome of
    /// collecting the tribute from the caller; the tribute is held in escrow.
    /// Returns the new proposal's id.
    pub fn submit_proposal(
        &mut self,
        caller: AccountId,
        applicant: AccountId,
        shares_requested: u128,
        loot_requested: u128,
        tribute_offered: u128,
        tribute_token: AccountId,
        payment_requested: u128,
        payment_token: AccountId,
        details: String,
        transfer: Result<(), TransferError>,
    ) -> (r: Result<ProposalId, Error>)
        requires
            old(self).wf(),
        ensures
            final(self).wf(),
            old(self).keeps_history(final(self)),
            r == match old(self).submit_error(
                caller,
                applicant,
                shares_requested,
                loot_requested,
                tribute_offered,
                tribute_token,
                payment_token,
                transfer,
            ) {
                Some(e) => Err::<ProposalId, Error>(e),
                None => Ok(old(self).proposal_count),
            },
            r is Err ==> *final(self) == *old(self),
            r is Ok ==> {
                &&& final(self).proposals@ == old(self).proposals@.push(
                    Proposal {
                        applicant: Some(applicant),
                        proposer: caller,
                        sponsor: None,
                        shares_requested,
                        loot_requested,
                        tribute_offered: Some(tribute_offered),
                        tribute_token: Some(tribute_token),
                        payment_requested: Some(payment_requested),
                        payment_token: Some(payment_token),
                        starting_period: 0,
                        yes_votes: 0,
                        no_votes: 0,
                        flags: ProposalFlags {
                            sponsored: false,
                            processed: false,
                            did_pass: false,
                            cancelled: false,
                            whitelist: false,
                            guildkick: false,
                        },
                        max_total_shares_and_loot_at_yes_vote: 0,
                    },
                )
                &&& final(self).proposal_count == old(self).proposal_count + 1
                &&& final(self).bank.balances() == credited(
                    old(self).bank.balances(),
                    escrow_account(),
                    tribute_token,
                    tribute_offered as int,
                )
                &&& final(self).bank.approved_tokens@ == old(self).bank.approved_tokens@
                &&& final(self).proposal_queue == old(self).proposal_queue
                &&& final(self).votes == old(self).votes
                &&& final(self).same_members(old(self))
                &&& final(self).same_config(old(self))
                &&& final(self).events@.drop_last() == old(self).events@
                &&& final(self).events@.last() is SubmitProposal
                &&& final(self).events@.last()->SubmitProposal_0.proposal_id == old(self).proposal_count
                &&& final(self).events@.last()->SubmitProposal_0.applicant == Some(applicant)
                &&& final(self).events@.last()->SubmitProposal_0.delegate_key == caller
            },
    {
        if crate::account::reserved(caller) {
            return Err(Error::ReservedAccount);
        }
        if shares_requested > MAX_NUMBER_OF_SHARES_AND_LOOT || loot_requested > MAX_NUMBER_OF_SHARES_AND_LOOT
            - shares_requested {
            return Err(Error::TooManyShares);
        }
        if !self.bank.whitelisted(tribute_token) || !self.bank.whitelisted(payment_token) {
            return Err(Error::TokenNotWhitelisted);
        }
        if applicant.is_zero() {
            return Err(Error::ZeroAddress);
        }
        if crate::account::reserved(applicant) {
            return Err(Error::ApplicantReserved);
        }
        if let Some(m) = self.members.get_member(applicant) {
            if m.jailed != 0 {
                return Err(Error::ApplicantJailed);
            }
        }
        if tribute_offered > 0 && self.bank.balance_of(crate::account::guild(), tribute_token) == 0
            && self.bank.total_guild_bank_tokens >= MAX_TOKEN_GUILDBANK_COUNT {
            return Err(Error::GuildBankFull);
        }
        if let Err(k) = transfer {
            return Err(Error::TransferFailed(k));
        }
        let ghost before = *self;
        if !self.bank.credit(crate::account::escrow(), tribute_token, tribute_offered) {
            return Err(Error::Overflow);
        }
        let flags = ProposalFlags::of_kind(false, false);
        let p = Proposal::new(
            Some(applicant),
            caller,
            shares_requested,
            loot_requested,
            Some(tribute_offered),
            Some(tribute_token),
            Some(payment_requested),
            Some(payment_token),
            flags,
        );
        proof {
            let dt = self.bank.approved_tokens@[0];
            assert forall|t: AccountId|
                #[trigger] self.bank.balance(escrow_account(), t) >= escrow_owed(self.proposals@, t, dt, self.proposal_deposit)
                    + escrowed(p, t, dt, self.proposal_deposit) by {
                assert(before.bank.balance(escrow_account(), t) >= escrow_owed(
                    before.proposals@,
                    t,
                    dt,
                    before.proposal_deposit,
                ));
            }
        }
        let member_address = match self.resolve_delegate(caller) {
            Some((a, _)) => Some(a),
            None => None,
        };
        let event = SubmitProposal {
            applicant: Some(applicant),
            shares_requested,
            loot_requested,
            tribute_offered: Some(tribute_offered),
            tribute_token: Some(tribute_token),
            payment_requested: Some(payment_requested),
            payment_token: Some(payment_token),
            details: details.clone(),
            flags: flags.to_array(),
            proposal_id: self.proposal_count,
            delegate_key: caller,
            member_address,
        };
        let id = self.push_proposal(p, details);
        self.events.push(Event::SubmitProposal(event));
        Ok(id)
    }

    /// Submits a proposal to whitelist `token_to_whitelist`. Returns the new
    /// proposal's id.
    pub fn submit_whitelist_proposal(&mut self, caller: AccountId, token_to_whitelist: AccountId, details: String) -> (r:
        Result<ProposalId, Error>)
        requires
            old(self).wf(),
        ensures
            final(self).wf(),
            old(self).keeps_history(final(self)),
            r == match old(self).submit_whitelist_error(caller, token_to_whitelist) {
                Some(e) => Err::<ProposalId, Error>(e),
                None => Ok(old(self).proposal_count),
            },
            r is Err ==> *final(self) == *old(self),
            r is Ok ==> {
                &&& final(self).proposals@ == old(self).proposals@.push(
                    Proposal {
                        applicant: None,
                        proposer: caller,
                        sponsor: None,
                        shares_requested: 0,
                        loot_requested: 0,
                        tribute_offered: Some(0),
                        tribute_token: Some(token_to_whitelist),
                        payment_requested: None,
                        payment_token: None,
                        starting_period: 0,
                        yes_votes: 0,
                        no_votes: 0,
                        flags: ProposalFlags {
                            sponsored: false,
                            processed: false,
                            did_pass: false,
                            cancelled: false,
                            whitelist: true,
                            guildkick: false,
                        },
                        max_total_shares_and_loot_at_yes_vote: 0,
                    },
                )
                &&& final(self).proposal_count == old(self).proposal_count + 1
                &&& final(self).bank == old(self).bank
                &&& final(self).proposal_queue == old(self).proposal_queue
                &&& final(self).votes == old(self).votes
                &&& final(self).same_members(old(self))
                &&& final(self).same_config(old(self))
                &&& final(self).events@.drop_last() == old(self).events@
                &&& final(self).events@.last() is SubmitProposal
                &&& final(self).events@.last()->SubmitProposal_0.proposal_id == old(self).proposal_count
                &&& final(self).events@.last()->SubmitProposal_0.applicant == None::<AccountId>
                &&& final(self).events@.last()->SubmitProposal_0.delegate_key == caller
            },
    {
        if crate::account::reserved(caller) {
            return Err(Error::ReservedAccount);
        }
        if token_to_whitelist.is_zero() {
            return Err(Error::ZeroAddress);
        }
        if self.bank.whitelisted(token_to_whitelist) {
            return Err(Error::DuplicateToken);
        }
        if self.bank.token_count() as u128 >= MAX_TOKEN_WHITELIST_COUNT {
            return Err(Error::WhitelistFull);
        }
        let flags = ProposalFlags::of_kind(true, false);
        let p = Proposal::new(None, caller, 0, 0, Some(0), Some(token_to_whitelist), None, None, flags);
        let member_address = match self.resolve_delegate(caller) {
            Some((a, _)) => Some(a),
            None => None,
        };
        let event = SubmitProposal {
            applicant: None,
            shares_requested: 0,
            loot_requested: 0,
            tribute_offered: Some(0),
            tribute_token: Some(token_to_whitelist),
            payment_requested: None,
            payment_token: None,
            details: details.clone(),
            flags: flags.to_array(),
            proposal_id: self.proposal_count,
            delegate_key: caller,
            member_address,
        };
        let id = self.push_proposal(p, details);
        self.events.push(Event::SubmitProposal(event));
        Ok(id)
    }

    /// Submits a proposal to kick `member_to_kick` out of the guild. Returns
    /// the new proposal's id.
    pub fn submit_guildkick_proposal(&mut self, caller: AccountId, member_to_kick: AccountId, details: String) -> (r:
        Result<ProposalId, Error>)
        requires
            old(self).wf(),
        ensures
            final(self).wf(),
            old(self).keeps_history(final(self)),
            r == match old(self).submit_guildkick_error(caller, member_to_kick) {
                Some(e) => Err::<ProposalId, Error>(e),
                None => Ok(old(self).proposal_count),
            },
            r is Err ==> *final(self) == *old(self),
            r is Ok ==> {
                &&& final(self).proposals@ == old(self).proposals@.push(
                    Proposal {
                        applicant: Some(member_to_kick),
                        proposer: caller,
                        sponsor: None,
                        shares_requested: 0,
                        loot_requested: 0,
                        tribute_offered: None,
                        tribute_token: None,
                        payment_requested: None,
                        payment_token: None,
                        starting_period: 0,
                        yes_votes: 0,
                        no_votes: 0,
                        flags: ProposalFlags {
                            sponsored: false,
                            processed: false,
                            did_pass: false,
                            cancelled: false,
                            whitelist: false,
                            guildkick: true,
                        },
                        max_total_shares_and_loot_at_yes_vote: 0,
                    },
                )
                &&& final(self).proposal_count == old(self).proposal_count + 1
                &&& final(self).bank == old(self).bank
                &&& final(self).proposal_queue == old(self).proposal_queue
                &&& final(self).votes == old(self).votes
                &&& final(self).same_members(old(self))
                &&& final(self).same_config(old(self))
                &&& final(self).events@.drop_last() == old(self).events@
                &&& final(self).events@.last() is SubmitProposal
                &&& final(self).events@.last()->SubmitProposal_0.proposal_id == old(self).proposal_count
                &&& final(self).events@.last()->SubmitProposal_0.applicant == Some(member_to_kick)
                &&& final(self).events@.last()->SubmitProposal_0.delegate_key == caller
            },
    {
        if crate::account::reserved(caller) {
            return Err(Error::ReservedAccount);
        }
        let m = match self.members.get_member(member_to_kick) {
            Some(m) => m,
            None => {
                return Err(Error::NoSuchMember);
            },
        };
        if m.shares == 0 && m.loot == 0 {
            return Err(Error::InsufficientShares);
        }
        if m.jailed != 0 {
            return Err(Error::ApplicantJailed);
        }
        let flags = ProposalFlags::of_kind(false, true);
        let p = Proposal::new(Some(member_to_kick), caller, 0, 0, None, None, None, None, flags);
        let member_address = match self.resolve_delegate(caller) {
            Some((a, _)) => Some(a),
            None => None,
        };
        let event = SubmitProposal {
            applicant: Some(member_to_kick),
            shares_requested: 0,
            loot_requested: 0,
            tribute_offered: None,
            tribute_token: None,
            payment_requested: None,
            payment_token: None,
            details: details.clone(),
            flags: flags.to_array(),
            proposal_id: self.proposal_count,
            delegate_key: caller,
            member_address,
        };
        let id = self.push_proposal(p, details);
        self.events.push(Event::SubmitProposal(event));
        Ok(id)
    }

    /// Cancels an unsponsored proposal of the caller's, and returns its
    /// tribute from escrow to the caller.
    pub fn cancel_proposal(&mut self, caller: AccountId, proposal_id: ProposalId) -> (r: Result<(), Error>)
        requires
            old(self).wf(),
        ensures
            final(self).wf(),
            old(self).keeps_history(final(self)),
            r == match old(self).cancel_error(caller, proposal_id) {
                Some(e) => Err::<(), Error>(e),
                None => Ok(()),
            },
            r is Err ==> *final(self) == *old(self),
            r is Ok ==> {
                let p = old(self).proposals@[proposal_id as int];
                &&& final(self).proposals@ == old(self).proposals@.update(
                    proposal_id as int,
                    Proposal {
                        flags: ProposalFlags { cancelled: true, ..p.flags },
                        tribute_offered: if p.tribute_offered is Some {
                            Some(0u128)
                        } else {
                            None
                        },
                        ..p
                    },
                )
                &&& final(self).bank.balances() == if p.is_standard() {
                    moved(
                        old(self).bank.balances(),
                        escrow_account(),
                        caller,
                        p.tribute_token.unwrap(),
                        p.tribute_offered.unwrap() as int,
                    )
                } else {
                    old(self).bank.balances()
                }
                &&& final(self).bank.approved_tokens@ == old(self).bank.approved_tokens@
                &&& final(self).proposal_queue == old(self).proposal_queue
                &&& final(self).votes == old(self).votes
                &&& final(self).same_members(old(self))
                &&& final(self).same_config(old(self))
                &&& final(self).events@ == old(self).events@.push(
                    Event::CancelProposal(CancelProposal { proposal_id, applicant_address: caller }),
                )
            },
    {
        if proposal_id >= self.proposals.len() as u128 {
            return Err(Error::NoSuchProposal);
        }
        let id = proposal_id as usize;
        let p = self.proposals[id];
        if p.flags.sponsored {
            return Err(Error::AlreadySponsored);
        }
        if p.flags.cancelled {
            return Err(Error::AlreadyCancelled);
        }
        if caller != p.proposer {
            return Err(Error::NotProposer);
        }
        let ghost o = *self;
        let ghost dt = self.bank.approved_tokens@[0];
        proof {
            assert(self.proposal_wf(self.proposals@[id as int]));
            lemma_owed_update(self.proposals@, id as int, p, dt, self.proposal_deposit);
        }
        if !p.flags.whitelist && !p.flags.guildkick {
            let token = p.tribute_token.unwrap();
            let amount = p.tribute_offered.unwrap();
            proof {
                assert(self.bank.balance(escrow_account(), token) >= escrow_owed(self.proposals@, token, dt, self.proposal_deposit));
                assert(escrowed(p, token, dt, self.proposal_deposit) >= amount);
            }
            self.bank.transfer(crate::account::escrow(), caller, token, amount);
        }
        let tribute_offered = if p.tribute_offered.is_some() {
            Some(0u128)
        } else {
            None
        };
        let q = Proposal { flags: ProposalFlags { cancelled: true, ..p.flags }, tribute_offered, ..p };
        self.proposals.set(id, q);
        proof {
            let o = old(self);
            assert forall|k: int| 0 <= k < self.proposal_queue@.len() implies #[trigger] self.queued(k) == o.queued(k) by {
                assert(o.queued(k).flags.sponsored);
            }
            assert forall|i: int| 0 <= i < self.proposals@.len() implies #[trigger] crate::state::proposal_ok(self.bank.approved_tokens@, self.proposals@[i]) by {
                assert(o.proposal_wf(o.proposals@[i]));
            }
            lemma_owed_update(o.proposals@, id as int, q, dt, o.proposal_deposit);
            assert forall|t: AccountId|
                #[trigger] self.bank.balance(escrow_account(), t) >= escrow_owed(self.proposals@, t, dt, self.proposal_deposit) by {
                assert(o.bank.balance(escrow_account(), t) >= escrow_owed(o.proposals@, t, dt, o.proposal_deposit));
                assert(escrowed(q, t, dt, o.proposal_deposit) == 0);
            }
        }
        self.events.push(Event::CancelProposal(CancelProposal { proposal_id, applicant_address: caller }));
        Ok(())
    }
}

} // verus!
