//! Read-only views on the guild.
use vstd::prelude::*;

use crate::account::AccountId;
use crate::member::Member;
use crate::proposal::{Proposal, ProposalId};
use crate::state::Submoloch;

verus! {

impl Submoloch {
    /// The deposit token: the first approved token.
    pub fn deposit_token(&self) -> (r: AccountId)
        requires
            self.wf(),
        ensures
            r == self.deposit_token_spec(),
    {
        self.bank.approved_tokens[0]
    }

    /// The member at `account_id`, if any.
    pub fn members(&self, account_id: AccountId) -> (r: Option<Member>)
        requires
            self.wf(),
        ensures
            r == self.member(account_id),
    {
        self.members.get_member(account_id)
    }

    /// The address of the member whose delegate key is `account_id`, if any.
    pub fn member_address_by_delegate_key(&self, account_id: AccountId) -> (r: Option<AccountId>)
        requires
            self.wf(),
        ensures
            r == self.delegate_member(account_id),
    {
        match self.resolve_delegate(account_id) {
            Some((a, _)) => Some(a),
            None => None,
        }
    }

    /// The approved token at position `index`.
    pub fn approved_tokens(&self, index: u32) -> (r: AccountId)
        requires
            index < self.bank.approved_tokens@.len(),
        ensures
            r == self.bank.approved_tokens@[index as int],
    {
        self.bank.approved_tokens[index as usize]
    }

    /// The number of approved tokens.
    pub fn approved_token_count(&self) -> (r: usize)
        ensures
            r == self.bank.approved_tokens@.len(),
    {
        self.bank.token_count()
    }

    /// Whether `token_address` is whitelisted.
    pub fn token_whitelist(&self, token_address: AccountId) -> (r: bool)
        requires
            self.wf(),
        ensures
            r == self.bank.is_whitelisted(token_address),
    {
        self.bank.whitelisted(token_address)
    }

    pub fn period_duration(&self) -> (r: u128)
        ensures
            r == self.period_duration,
    {
        self.period_duration
    }

    pub fn voting_period_length(&self) -> (r: u128)
        ensures
            r == self.voting_period_length,
    {
        self.voting_period_length
    }

    pub fn grace_period_length(&self) -> (r: u128)
        ensures
            r == self.grace_period_length,
    {
        self.grace_period_length
    }

    pub fn proposal_deposit(&self) -> (r: u128)
        ensures
            r == self.proposal_deposit,
    {
        self.proposal_deposit
    }

    pub fn dilution_bound(&self) -> (r: u128)
        ensures
            r == self.dilution_bound,
    {
        self.dilution_bound
    }

    pub fn processing_reward(&self) -> (r: u128)
        ensures
            r == self.processing_reward,
    {
        self.processing_reward
    }

    /// The proposal with id `proposal_id`, if any.
    pub fn proposals(&self, proposal_id: ProposalId) -> (r: Option<Proposal>)
        ensures
            r == if proposal_id < self.proposals@.len() {
                Some(self.proposals@[proposal_id as int])
            } else {
                None
            },
    {
        if proposal_id < self.proposals.len() as u128 {
            Some(self.proposals[proposal_id as usize])
        } else {
            None
        }
    }

    /// The details text of the proposal with id `proposal_id`, if any.
    pub fn proposal_details(&self, proposal_id: ProposalId) -> (r: Option<&String>)
        ensures
            r == if proposal_id < self.proposal_details@.len() {
                Some(&self.proposal_details@[proposal_id as int])
            } else {
                None
            },
    {
        if proposal_id < self.proposal_details.len() as u128 {
            Some(&self.proposal_details[proposal_id as usize])
        } else {
            None
        }
    }

    pub fn proposal_count(&self) -> (r: u128)
        ensures
            r == self.proposal_count,
    {
        self.proposal_count
    }

    pub fn total_shares(&self) -> (r: u128)
        ensures
            r == self.total_shares,
    {
        self.total_shares
    }

    pub fn total_loot(&self) -> (r: u128)
        ensures
            r == self.total_loot,
    {
        self.total_loot
    }

    /// The number of whitelisted tokens of which the guild bank holds some.
    pub fn total_guild_bank_tokens(&self) -> (r: u128)
        ensures
            r == self.bank.total_guild_bank_tokens,
    {
        self.bank.total_guild_bank_tokens
    }

    /// The number of sponsored proposals.
    pub fn get_proposal_queue_length(&self) -> (r: u128)
        ensures
            r == self.proposal_queue@.len(),
    {
        self.proposal_queue.len() as u128
    }

    /// The flags of the proposal with id `proposal_id`, in the order
    /// sponsored, processed, did pass, cancelled, whitelist, guildkick.
    pub fn get_proposal_flags(&self, proposal_id: ProposalId) -> (r: Option<[bool; 6]>)
        ensures
            proposal_id >= self.proposals@.len() ==> r is None,
            proposal_id < self.proposals@.len() ==> (r matches Some(f) && f@ == {
                let g = self.proposals@[proposal_id as int].flags;
                seq![g.sponsored, g.processed, g.did_pass, g.cancelled, g.whitelist, g.guildkick]
            }),
    {
        match self.proposals(proposal_id) {
            Some(p) => Some(p.flags.to_array()),
            None => None,
        }
    }

    /// The internal balance of `user` in `token`.
    pub fn user_token_balances(&self, user: AccountId, token: AccountId) -> (r: u128)
        requires
            self.wf(),
        ensures
            r == self.balance(user, token),
    {
        self.bank.balance_of(user, token)
    }
}

} // verus!
