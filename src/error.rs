//! The errors that an operation of the guild can end with.
use vstd::prelude::*;

verus! {

/// Why an external token transfer failed.
#[derive(Clone, Copy, Debug, PartialEq, Eq, Structural)]
pub enum TransferError {
    InsufficientBalance,
    InsufficientAllowance,
}

/// Why an operation was rejected. A rejected operation changes nothing.
#[derive(Clone, Copy, Debug, PartialEq, Eq, Structural)]
pub enum Error {
    /// A configuration value is out of its allowed range.
    InvalidConfig,
    DuplicateToken,
    TokenNotWhitelisted,
    /// The whitelist already holds the maximum number of tokens.
    WhitelistFull,
    TooManyShares,
    ApplicantReserved,
    /// The caller or summoner is one of the reserved ledger accounts.
    ReservedAccount,
    ApplicantJailed,
    GuildBankFull,
    NotSponsored,
    AlreadySponsored,
    AlreadyCancelled,
    AlreadyProcessed,
    /// The token or member is already the subject of a sponsored proposal.
    AlreadyProposed,
    NotReady,
    WrongProposalKind,
    NoSuchProposal,
    NoSuchMember,
    /// Only the proposer may cancel a proposal.
    NotProposer,
    /// Ragekick needs a jailed member.
    NotJailed,
    AlreadyVoted,
    VotingClosed,
    NotYetOpen,
    InvalidVote,
    InsufficientShares,
    /// A withdrawal exceeds the internal balance.
    InsufficientBalance,
    /// There is nothing to collect for the token.
    NothingToCollect,
    /// The token and amount lists differ in length.
    LengthMismatch,
    HighestYesVoteUnprocessed,
    DelegateKeyTaken,
    ZeroAddress,
    DepositLessThanReward,
    Overflow,
    TransferFailed(TransferError),
}

} // verus!
