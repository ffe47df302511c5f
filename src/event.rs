//! The events that the guild emits, one for each successful operation.
use vstd::prelude::*;

use crate::account::AccountId;
use crate::proposal::{ProposalId, ProposalIndex};

verus! {

/// The guild was summoned.
#[derive(Clone, Debug, PartialEq, Eq)]
pub struct SummonComplete {
    pub summoner: AccountId,
    pub tokens: Vec<AccountId>,
    pub summoning_time: u64,
    pub period_duration: u128,
    pub voting_period_length: u128,
    pub grace_period_length: u128,
    pub proposal_deposit: u128,
    pub dilution_bound: u128,
    pub processing_reward: u128,
}

/// A proposal was submitted.
#[derive(Clone, Debug, PartialEq, Eq)]
pub struct SubmitProposal {
    pub applicant: Option<AccountId>,
    pub shares_requested: u128,
    pub loot_requested: u128,
    pub tribute_offered: Option<u128>,
    pub tribute_token: Option<AccountId>,
    pub payment_requested: Option<u128>,
    pub payment_token: Option<AccountId>,
    pub details: String,
    pub flags: [bool; 6],
    pub proposal_id: ProposalId,
    pub delegate_key: AccountId,
    pub member_address: Option<AccountId>,
}

/// A proposal was sponsored into the queue.
#[derive(Clone, Copy, Debug, PartialEq, Eq, Structural)]
pub struct SponsorProposal {
    pub delegate_key: AccountId,
    pub member_address: AccountId,
    pub proposal_id: ProposalId,
    pub proposal_index: ProposalIndex,
    pub starting_period: u128,
}

/// A vote was cast; `uint_vote` is 1 for Yes and 2 for No.
#[derive(Clone, Copy, Debug, PartialEq, Eq, Structural)]
pub struct SubmitVote {
    pub proposal_id: ProposalId,
    pub proposal_index: ProposalIndex,
    pub delegate_key: AccountId,
    pub member_address: AccountId,
    pub uint_vote: u8,
}

/// A standard proposal was processed.
#[derive(Clone, Copy, Debug, PartialEq, Eq, Structural)]
pub struct ProcessProposal {
    pub proposal_index: ProposalIndex,
    pub proposal_id: ProposalId,
    pub did_pass: bool,
}

/// A whitelist proposal was processed.
#[derive(Clone, Copy, Debug, PartialEq, Eq, Structural)]
pub struct ProcessWhitelistProposal {
    pub proposal_index: ProposalIndex,
    pub proposal_id: ProposalId,
    pub did_pass: bool,
}

/// A guildkick proposal was processed.
#[derive(Clone, Copy, Debug, PartialEq, Eq, Structural)]
pub struct ProcessGuildKickProposal {
    pub proposal_index: ProposalIndex,
    pub proposal_id: ProposalId,
    pub did_pass: bool,
}

/// A member burned shares and loot for a slice of the guild bank.
#[derive(Clone, Copy, Debug, PartialEq, Eq, Structural)]
pub struct Ragequit {
    pub member_address: AccountId,
    pub shares_to_burn: u128,
    pub loot_to_burn: u128,
}

/// Tokens sent to the guild outside of any proposal were credited to the bank.
#[derive(Clone, Copy, Debug, PartialEq, Eq, Structural)]
pub struct TokensCollected {
    pub token: AccountId,
    pub amount_to_collect: u128,
}

/// An unsponsored proposal was cancelled by its proposer.
#[derive(Clone, Copy, Debug, PartialEq, Eq, Structural)]
pub struct CancelProposal {
    pub proposal_id: ProposalId,
    pub applicant_address: AccountId,
}

/// A member changed its delegate key.
#[derive(Clone, Copy, Debug, PartialEq, Eq, Structural)]
pub struct UpdateDelegateKey {
    pub member_address: AccountId,
    pub new_delegate_key: AccountId,
}

/// An internal balance was withdrawn; the token owes `amount` to the member.
#[derive(Clone, Copy, Debug, PartialEq, Eq, Structural)]
pub struct Withdraw {
    pub member_address: AccountId,
    pub token: AccountId,
    pub amount: u128,
}

/// Any of the events above.
#[derive(Clone, Debug, PartialEq, Eq)]
pub enum Event {
    SummonComplete(SummonComplete),
    SubmitProposal(SubmitProposal),
    SponsorProposal(SponsorProposal),
    SubmitVote(SubmitVote),
    ProcessProposal(ProcessProposal),
    ProcessWhitelistProposal(ProcessWhitelistProposal),
    ProcessGuildKickProposal(ProcessGuildKickProposal),
    Ragequit(Ragequit),
    TokensCollected(TokensCollected),
    CancelProposal(CancelProposal),
    UpdateDelegateKey(UpdateDelegateKey),
    Withdraw(Withdraw),
}

} // verus!
