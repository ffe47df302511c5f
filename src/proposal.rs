//! Proposals, their flags, and votes.
use vstd::prelude::*;

use crate::account::AccountId;

verus! {

/// Identifies a proposal: the order in which proposals were submitted.
pub type ProposalId = u128;

/// The position of a sponsored proposal in the queue.
pub type ProposalIndex = u128;

/// A member's vote on a proposal.
#[derive(Clone, Copy, Debug, PartialEq, Eq, Structural)]
pub enum Vote {
    Null,
    Yes,
    No,
}

/// The vote that a wire-encoded value stands for: 1 is Yes, 2 is No, and
/// every other value is no vote.
pub open spec fn vote_of_uint(v: u8) -> Vote {
    if v == 1 {
        Vote::Yes
    } else if v == 2 {
        Vote::No
    } else {
        Vote::Null
    }
}

impl Vote {
    /// Decodes a wire-encoded vote.
    pub fn from_uint(v: u8) -> (r: Vote)
        ensures
            r == vote_of_uint(v),
    {
        if v == 1 {
            Vote::Yes
        } else if v == 2 {
            Vote::No
        } else {
            Vote::Null
        }
    }
}

/// The six flags of a proposal. At most one of `whitelist` and `guildkick`
/// is set; a proposal with neither is a standard proposal.
#[derive(Clone, Copy, Debug, PartialEq, Eq, Structural)]
pub struct ProposalFlags {
    pub sponsored: bool,
    pub processed: bool,
    pub did_pass: bool,
    pub cancelled: bool,
    pub whitelist: bool,
    pub guildkick: bool,
}

impl ProposalFlags {
    /// All flags cleared but the kind flags given.
    pub fn of_kind(whitelist: bool, guildkick: bool) -> (r: ProposalFlags)
        ensures
            r == (ProposalFlags {
                sponsored: false,
                processed: false,
                did_pass: false,
                cancelled: false,
                whitelist,
                guildkick,
            }),
    {
        ProposalFlags { sponsored: false, processed: false, did_pass: false, cancelled: false, whitelist, guildkick }
    }

    /// The flags in the order sponsored, processed, did pass, cancelled,
    /// whitelist, guildkick.
    pub fn to_array(&self) -> (r: [bool; 6])
        ensures
            r@ == seq![self.sponsored, self.processed, self.did_pass, self.cancelled, self.whitelist, self.guildkick],
    {
        let r = [self.sponsored, self.processed, self.did_pass, self.cancelled, self.whitelist, self.guildkick];
        assert(r@ =~= seq![self.sponsored, self.processed, self.did_pass, self.cancelled, self.whitelist, self.guildkick]);
        r
    }
}

/// A proposal to admit or reward an applicant, to whitelist a token, or to
/// kick a member.
#[derive(Clone, Copy, Debug, PartialEq, Eq, Structural)]
pub struct Proposal {
    /// Who wishes to join; the member to kick in a guildkick proposal.
    pub applicant: Option<AccountId>,
    /// Who submitted the proposal; need not be a member.
    pub proposer: AccountId,
    /// The member that sponsored the proposal into the queue.
    pub sponsor: Option<AccountId>,
    pub shares_requested: u128,
    pub loot_requested: u128,
    pub tribute_offered: Option<u128>,
    /// The tribute token; the token to whitelist in a whitelist proposal.
    pub tribute_token: Option<AccountId>,
    pub payment_requested: Option<u128>,
    pub payment_token: Option<AccountId>,
    /// The period in which voting opens.
    pub starting_period: u128,
    pub yes_votes: u128,
    pub no_votes: u128,
    pub flags: ProposalFlags,
    /// The largest total of shares and loot seen at a Yes vote.
    pub max_total_shares_and_loot_at_yes_vote: u128,
}

impl Proposal {
    /// A fresh, unsponsored proposal with no votes.
    pub fn new(
        applicant: Option<AccountId>,
        proposer: AccountId,
        shares_requested: u128,
        loot_requested: u128,
        tribute_offered: Option<u128>,
        tribute_token: Option<AccountId>,
        payment_requested: Option<u128>,
        payment_token: Option<AccountId>,
        flags: ProposalFlags,
    ) -> (r: Proposal)
        ensures
            r == (Proposal {
                applicant,
                proposer,
                sponsor: None,
                shares_requested,
                loot_requested,
                tribute_offered,
                tribute_token,
                payment_requested,
                payment_token,
                starting_period: 0,
                yes_votes: 0,
                no_votes: 0,
                flags,
                max_total_shares_and_loot_at_yes_vote: 0,
            }),
    {
        Proposal {
            applicant,
            proposer,
            sponsor: None,
            shares_requested,
            loot_requested,
            tribute_offered,
            tribute_token,
            payment_requested,
            payment_token,
            starting_period: 0,
            yes_votes: 0,
            no_votes: 0,
            flags,
            max_total_shares_and_loot_at_yes_vote: 0,
        }
    }

    /// Whether this is a standard proposal: neither whitelist nor guildkick.
    pub open spec fn is_standard(&self) -> bool {
        !self.flags.whitelist && !self.flags.guildkick
    }
}

/// One member's vote on one queued proposal.
#[derive(Clone, Copy, Debug, PartialEq, Eq, Structural)]
pub struct VoteRecord {
    pub proposal_index: ProposalIndex,
    pub member: AccountId,
    pub vote: Vote,
}

} // verus!
