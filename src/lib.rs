//! A guild-governance state machine: members pool tokens into a shared bank
//! and vote, weighted by their shares, on admitting members, paying grantees,
//! whitelisting tokens and kicking members out.
//!
//! The library decides; it does not act. The caller and the block time are
//! plain inputs, collecting a tribute or deposit is an outcome the caller
//! reports, and a withdrawal is an event that tells the token what to pay.

pub mod account;
pub mod bank;
pub mod config;
pub mod constant;
pub mod error;
pub mod event;
pub mod exit;
pub mod fund;
pub mod laws;
pub mod ledger;
pub mod member;
pub mod process;
pub mod proposal;
pub mod sponsor;
pub mod state;
pub mod submit;
pub mod utils;
pub mod views;
pub mod vote;

pub use account::AccountId;
pub use config::{Config, ConfigBuilder};
pub use error::{Error, TransferError};
pub use event::{
    CancelProposal, Event, ProcessGuildKickProposal, ProcessProposal, ProcessWhitelistProposal, Ragequit, SponsorProposal,
    SubmitProposal, SubmitVote, SummonComplete, TokensCollected, UpdateDelegateKey, Withdraw,
};
pub use fund::{AddToWhiteList, Fund, RemoveFromWhiteList, TokenWhitelist};
pub use member::Member;
pub use proposal::{Proposal, ProposalFlags, ProposalId, ProposalIndex, Vote};
pub use state::Submoloch;
pub use utils::max;
