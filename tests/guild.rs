use submoloch::account::{escrow, guild, total};
use submoloch::{
    AccountId, ConfigBuilder, Error, Event, Member, Submoloch, TransferError, Vote, Withdraw,
};

const PERIOD: u64 = 17280;

fn acct(n: u128) -> AccountId {
    AccountId::new(0, n)
}

fn alice() -> AccountId {
    acct(1)
}

fn bob() -> AccountId {
    acct(2)
}

fn carol() -> AccountId {
    acct(3)
}

fn dave() -> AccountId {
    acct(4)
}

fn t0() -> AccountId {
    acct(100)
}

fn t1() -> AccountId {
    acct(101)
}

fn t2() -> AccountId {
    acct(102)
}

fn at(period: u128) -> u64 {
    period as u64 * PERIOD
}

fn paid() -> Result<(), TransferError> {
    Ok(())
}

fn summon() -> Submoloch {
    Submoloch::new(alice(), vec![t0(), t1()], PERIOD as u128, 35, 35, 10, 3, 1, 0).unwrap()
}

fn summon_with(tokens: Vec<AccountId>, dilution_bound: u128) -> Submoloch {
    Submoloch::new(alice(), tokens, PERIOD as u128, 35, 35, 10, dilution_bound, 1, 0).unwrap()
}

/// Submits a standard proposal from `applicant` for itself, paying tribute in T0.
fn submit(s: &mut Submoloch, applicant: AccountId, shares: u128, loot: u128, tribute: u128, payment: u128) -> u128 {
    s.submit_proposal(applicant, applicant, shares, loot, tribute, t0(), payment, t0(), "join".to_string(), paid())
        .unwrap()
}

/// Sponsors `id` by `sponsor` at `period`; returns its queue index and starting period.
fn sponsor(s: &mut Submoloch, sponsor: AccountId, id: u128, period: u128) -> (u128, u128) {
    s.sponsor_proposal(sponsor, at(period), id, paid()).unwrap();
    let index = s.get_proposal_queue_length() - 1;
    (index, s.proposals(id).unwrap().starting_period)
}

/// The first period in which the proposal starting in `start` can be processed.
fn ready(start: u128) -> u128 {
    start + 35 + 35
}

/// Runs a standard proposal for `applicant` through sponsoring by Alice, the
/// given votes, and processing; returns the queue index and the period after.
fn run(s: &mut Submoloch, applicant: AccountId, shares: u128, loot: u128, tribute: u128, votes: &[(AccountId, u8)], period: u128) -> (u128, u128, bool) {
    let id = submit(s, applicant, shares, loot, tribute, 0);
    let (index, start) = sponsor(s, alice(), id, period);
    for (voter, v) in votes {
        s.submit_vote(*voter, at(start), index, *v).unwrap();
    }
    let passed = s.process_proposal(alice(), at(ready(start)), index).unwrap();
    (index, ready(start), passed)
}

/// A guild of Alice (1 share) and Bob (3 shares), Bob having paid 400 T0.
fn with_bob() -> (Submoloch, u128) {
    let mut s = summon();
    let (_, period, passed) = run(&mut s, bob(), 3, 0, 400, &[(alice(), 1)], 0);
    assert!(passed);
    (s, period)
}

#[test]
fn verify_deployment_parameters() {
    let s = summon();
    let m = s.members(alice()).unwrap();
    assert_eq!(m.shares, 1);
    assert_eq!(m.loot, 0);
    assert_eq!(m.delegate_key, alice());
    assert!(m.exists);
    assert_eq!(s.total_shares(), 1);
    assert_eq!(s.total_loot(), 0);
    assert_eq!(s.deposit_token(), t0());
    assert_eq!(s.approved_tokens(1), t1());
    assert!(s.token_whitelist(t1()));
    assert_eq!(s.period_duration(), PERIOD as u128);
    assert_eq!(s.voting_period_length(), 35);
    assert_eq!(s.grace_period_length(), 35);
    assert_eq!(s.proposal_deposit(), 10);
    assert_eq!(s.dilution_bound(), 3);
    assert_eq!(s.processing_reward(), 1);
    assert_eq!(s.proposal_count(), 0);
    assert_eq!(s.total_guild_bank_tokens(), 0);
    assert_eq!(s.member_address_by_delegate_key(alice()), Some(alice()));
    assert_eq!(s.get_current_period(0), 0);
    assert!(matches!(s.events.last(), Some(Event::SummonComplete(_))));
}

fn summon_err(
    summoner: AccountId,
    tokens: Vec<AccountId>,
    period: u128,
    voting: u128,
    grace: u128,
    deposit: u128,
    dilution: u128,
    reward: u128,
) -> Error {
    match Submoloch::new(summoner, tokens, period, voting, grace, deposit, dilution, reward, 0) {
        Ok(_) => panic!("summoning should fail"),
        Err(e) => e,
    }
}

#[test]
fn require_fail_summoner_can_not_be_zero_address() {
    assert_eq!(summon_err(AccountId::zero(), vec![t0()], 17280, 35, 35, 10, 3, 1), Error::ZeroAddress);
}

#[test]
fn require_fail_period_duration_can_not_be_zero() {
    assert_eq!(summon_err(alice(), vec![t0()], 0, 35, 35, 10, 3, 1), Error::InvalidConfig);
}

#[test]
fn require_fail_voting_period_can_not_be_zero() {
    assert_eq!(summon_err(alice(), vec![t0()], 17280, 0, 35, 10, 3, 1), Error::InvalidConfig);
}

#[test]
fn require_fail_voting_period_exceeds_limit() {
    assert_eq!(summon_err(alice(), vec![t0()], 17280, 1_000_000_000_000_000_001, 35, 10, 3, 1), Error::InvalidConfig);
    assert!(Submoloch::new(alice(), vec![t0()], 17280, 1_000_000_000_000_000_000, 35, 10, 3, 1, 0).is_ok());
}

#[test]
fn require_fail_grace_period_exceeds_limit() {
    assert_eq!(summon_err(alice(), vec![t0()], 17280, 35, 1_000_000_000_000_000_001, 10, 3, 1), Error::InvalidConfig);
    assert!(Submoloch::new(alice(), vec![t0()], 17280, 35, 0, 10, 3, 1, 0).is_ok());
}

#[test]
fn require_fail_dilution_bound_can_not_be_zero() {
    assert_eq!(summon_err(alice(), vec![t0()], 17280, 35, 35, 10, 0, 1), Error::InvalidConfig);
}

#[test]
fn require_fail_dilution_bound_exceeds_limit() {
    assert_eq!(summon_err(alice(), vec![t0()], 17280, 35, 35, 10, 1_000_000_000_000_000_001, 1), Error::InvalidConfig);
}

#[test]
fn require_fail_need_at_least_one_approved_token() {
    assert_eq!(summon_err(alice(), vec![], 17280, 35, 35, 10, 3, 1), Error::InvalidConfig);
}

#[test]
fn require_fail_too_many_tokens() {
    let tokens: Vec<AccountId> = (0..401u128).map(|i| acct(1000 + i)).collect();
    assert_eq!(summon_err(alice(), tokens, 17280, 35, 35, 10, 3, 1), Error::InvalidConfig);
    let tokens: Vec<AccountId> = (0..400u128).map(|i| acct(1000 + i)).collect();
    assert!(Submoloch::new(alice(), tokens, 17280, 35, 35, 10, 3, 1, 0).is_ok());
}

#[test]
fn require_fail_deposit_cannot_be_smaller_than_processing_reward() {
    assert_eq!(summon_err(alice(), vec![t0()], 17280, 35, 35, 1, 3, 2), Error::DepositLessThanReward);
    assert!(Submoloch::new(alice(), vec![t0()], 17280, 35, 35, 2, 3, 2, 0).is_ok());
}

#[test]
fn require_fail_approved_token_cannot_be_zero() {
    assert_eq!(summon_err(alice(), vec![t0(), AccountId::zero()], 17280, 35, 35, 10, 3, 1), Error::ZeroAddress);
}

#[test]
fn require_fail_duplicate_approved_token() {
    assert_eq!(summon_err(alice(), vec![t0(), t1(), t0()], 17280, 35, 35, 10, 3, 1), Error::DuplicateToken);
}

#[test]
fn summoner_cannot_be_reserved() {
    assert_eq!(summon_err(guild(), vec![t0()], 17280, 35, 35, 10, 3, 1), Error::ReservedAccount);
}

#[test]
fn happy_case() {
    // submitting a standard proposal
    let mut s = summon();
    let id = s
        .submit_proposal(alice(), bob(), 5, 3, 100, t0(), 20, t1(), "details".to_string(), paid())
        .unwrap();
    assert_eq!(id, 0);
    let p = s.proposals(0).unwrap();
    assert_eq!(p.applicant, Some(bob()));
    assert_eq!(p.proposer, alice());
    assert_eq!(p.sponsor, None);
    assert_eq!(p.shares_requested, 5);
    assert_eq!(p.loot_requested, 3);
    assert_eq!(p.tribute_offered, Some(100));
    assert_eq!(p.tribute_token, Some(t0()));
    assert_eq!(p.payment_requested, Some(20));
    assert_eq!(p.payment_token, Some(t1()));
    assert_eq!(s.get_proposal_flags(0), Some([false; 6]));
    assert_eq!(s.user_token_balances(escrow(), t0()), 100);
    assert_eq!(s.user_token_balances(total(), t0()), 100);
    assert_eq!(s.proposal_count(), 1);
    assert_eq!(s.proposal_details(0).unwrap(), "details");
    assert!(matches!(s.events.last(), Some(Event::SubmitProposal(e)) if e.proposal_id == 0 && e.tribute_offered == Some(100)));

    // submitting a whitelist proposal
    let id = s.submit_whitelist_proposal(alice(), t2(), "new token".to_string()).unwrap();
    assert_eq!(id, 1);
    let p = s.proposals(1).unwrap();
    assert_eq!(p.tribute_token, Some(t2()));
    assert_eq!(p.applicant, None);
    assert_eq!(s.get_proposal_flags(1), Some([false, false, false, false, true, false]));

    // cancelling the standard proposal returns the tribute to the proposer
    s.cancel_proposal(alice(), 0).unwrap();
    assert_eq!(s.get_proposal_flags(0), Some([false, false, false, true, false, false]));
    assert_eq!(s.proposals(0).unwrap().tribute_offered, Some(0));
    assert_eq!(s.user_token_balances(escrow(), t0()), 0);
    assert_eq!(s.user_token_balances(alice(), t0()), 100);
}

#[test]
fn lib_happy_case() {
    // updating a delegate key
    let mut s = summon();
    s.update_delegate_key(alice(), dave()).unwrap();
    assert_eq!(s.members(alice()).unwrap().delegate_key, dave());
    assert_eq!(s.member_address_by_delegate_key(dave()), Some(alice()));
    assert_eq!(s.member_address_by_delegate_key(alice()), None);

    // a member may ragequit once its Yes vote has been processed, and its
    // vote can be read back
    let mut s = summon();
    let id = submit(&mut s, bob(), 1, 0, 0, 0);
    let (index, start) = sponsor(&mut s, alice(), id, 0);
    s.submit_vote(alice(), at(start), index, 1).unwrap();
    assert_eq!(s.get_member_proposal_vote(alice(), index), Ok(Vote::Yes));
    assert_eq!(s.can_ragequit(index), Ok(false));
    s.process_proposal(alice(), at(ready(start)), index).unwrap();
    assert_eq!(s.can_ragequit(index), Ok(true));
    assert_eq!(s.get_member_proposal_vote(bob(), index), Ok(Vote::Null));
}

#[test]
fn require_fail_insufficient_tribute_tokens() {
    let mut s = summon();
    let r = s.submit_proposal(bob(), bob(), 1, 0, 100, t0(), 0, t0(), String::new(), Err(TransferError::InsufficientBalance));
    assert_eq!(r, Err(Error::TransferFailed(TransferError::InsufficientBalance)));
    let r = s.submit_proposal(bob(), bob(), 1, 0, 100, t0(), 0, t0(), String::new(), Err(TransferError::InsufficientAllowance));
    assert_eq!(r, Err(Error::TransferFailed(TransferError::InsufficientAllowance)));
    assert_eq!(s.proposal_count(), 0);
    assert_eq!(s.user_token_balances(escrow(), t0()), 0);
}

#[test]
fn require_fail_tribute_token_is_not_whitelisted() {
    let mut s = summon();
    let r = s.submit_proposal(bob(), bob(), 1, 0, 100, t2(), 0, t0(), String::new(), paid());
    assert_eq!(r, Err(Error::TokenNotWhitelisted));
}

#[test]
fn require_fail_payment_token_is_not_whitelisted() {
    let mut s = summon();
    let r = s.submit_proposal(bob(), bob(), 1, 0, 100, t0(), 0, t2(), String::new(), paid());
    assert_eq!(r, Err(Error::TokenNotWhitelisted));
}

#[test]
fn require_fail_applicant_can_not_be_zero() {
    let mut s = summon();
    let r = s.submit_proposal(bob(), AccountId::zero(), 1, 0, 100, t0(), 0, t0(), String::new(), paid());
    assert_eq!(r, Err(Error::ZeroAddress));
    assert_eq!(s.proposal_count(), 0);
}

#[test]
fn lib_require_fail_applicant_can_not_be_zero() {
    let mut s = summon();
    assert_eq!(s.submit_whitelist_proposal(alice(), AccountId::zero(), String::new()), Err(Error::ZeroAddress));
    assert_eq!(s.proposal_count(), 0);
}

#[test]
fn require_fail_applicant_address_can_not_be_reserved() {
    let mut s = summon();
    for reserved in [guild(), escrow(), total()] {
        let r = s.submit_proposal(bob(), reserved, 1, 0, 100, t0(), 0, t0(), String::new(), paid());
        assert_eq!(r, Err(Error::ApplicantReserved));
    }
}

#[test]
fn failure_too_many_shares_requested() {
    let mut s = summon();
    let r = s.submit_proposal(bob(), bob(), 1_000_000_000_000_000_001, 0, 0, t0(), 0, t0(), String::new(), paid());
    assert_eq!(r, Err(Error::TooManyShares));
    let r = s.submit_proposal(bob(), bob(), 1_000_000_000_000_000_000, 0, 0, t0(), 0, t0(), String::new(), paid());
    assert_eq!(r, Ok(0));
}

#[test]
fn failure_too_many_shares_just_loot_requested() {
    let mut s = summon();
    let r = s.submit_proposal(bob(), bob(), 0, 1_000_000_000_000_000_001, 0, t0(), 0, t0(), String::new(), paid());
    assert_eq!(r, Err(Error::TooManyShares));
}

#[test]
fn failure_too_many_shares_plus_loot_requested() {
    let mut s = summon();
    let r = s.submit_proposal(bob(), bob(), 500_000_000_000_000_001, 500_000_000_000_000_000, 0, t0(), 0, t0(), String::new(), paid());
    assert_eq!(r, Err(Error::TooManyShares));
    let r = s.submit_proposal(bob(), bob(), u128::MAX, u128::MAX, 0, t0(), 0, t0(), String::new(), paid());
    assert_eq!(r, Err(Error::TooManyShares));
}

#[test]
fn happy_case_second_submitted_proposal_returns_incremented_proposalid() {
    let mut s = summon();
    assert_eq!(submit(&mut s, bob(), 1, 0, 10, 0), 0);
    assert_eq!(submit(&mut s, carol(), 1, 0, 10, 0), 1);
    assert_eq!(s.proposal_count(), 2);
    assert_eq!(s.user_token_balances(escrow(), t0()), 20);
}

#[test]
fn lib_happy_case_second_submitted_proposal_returns_incremented_proposalid() {
    let mut s = summon();
    assert_eq!(s.submit_whitelist_proposal(alice(), t2(), String::new()), Ok(0));
    assert_eq!(s.submit_whitelist_proposal(alice(), acct(103), String::new()), Ok(1));
    assert_eq!(s.proposal_count(), 2);
}

#[test]
fn require_fail_cannot_add_already_have_whitelisted_the_token() {
    let mut s = summon();
    assert_eq!(s.submit_whitelist_proposal(alice(), t0(), String::new()), Err(Error::DuplicateToken));
}

#[test]
fn happy_path_sponsor_add_token_to_whitelist() {
    let mut s = summon();
    let id = s.submit_whitelist_proposal(alice(), t2(), String::new()).unwrap();
    s.sponsor_proposal(alice(), at(0), id, paid()).unwrap();
    let p = s.proposals(id).unwrap();
    assert!(p.flags.sponsored);
    assert_eq!(p.sponsor, Some(alice()));
    assert_eq!(p.starting_period, 1);
    assert_eq!(s.get_proposal_queue_length(), 1);
    assert_eq!(s.user_token_balances(escrow(), t0()), 10);
    assert!(matches!(s.events.last(), Some(Event::SponsorProposal(e)) if e.proposal_index == 0 && e.starting_period == 1));
}

#[test]
fn with_a_second_member_besides_the_summoner() {
    let (mut s, period) = with_bob();
    let id = submit(&mut s, carol(), 1, 0, 5, 0);
    s.sponsor_proposal(bob(), at(period), id, paid()).unwrap();
    let p = s.proposals(id).unwrap();
    assert_eq!(p.sponsor, Some(bob()));
    assert_eq!(p.starting_period, period as u128 + 1);
}

#[test]
fn happy_path_sponsor_proposal() {
    let mut s = summon();
    let id = submit(&mut s, bob(), 1, 0, 100, 0);
    s.sponsor_proposal(alice(), at(5), id, paid()).unwrap();
    let p = s.proposals(id).unwrap();
    assert_eq!(s.get_proposal_flags(id), Some([true, false, false, false, false, false]));
    assert_eq!(p.starting_period, 6);
    assert_eq!(s.user_token_balances(escrow(), t0()), 110);
    // a later sponsorship in an earlier period still starts after the last one
    let id2 = submit(&mut s, carol(), 1, 0, 0, 0);
    s.sponsor_proposal(alice(), at(2), id2, paid()).unwrap();
    assert_eq!(s.proposals(id2).unwrap().starting_period, 7);
}

#[test]
fn failure_proposal_has_already_been_sponsored() {
    let mut s = summon();
    let id = submit(&mut s, bob(), 1, 0, 100, 0);
    s.sponsor_proposal(alice(), at(0), id, paid()).unwrap();
    assert_eq!(s.sponsor_proposal(alice(), at(0), id, paid()), Err(Error::AlreadySponsored));
}

#[test]
fn failure_proposal_has_been_cancelled() {
    let mut s = summon();
    let id = submit(&mut s, bob(), 1, 0, 100, 0);
    s.cancel_proposal(bob(), id).unwrap();
    assert_eq!(s.sponsor_proposal(alice(), at(0), id, paid()), Err(Error::AlreadyCancelled));
}

#[test]
fn failure_sponsor_whitelist_token_proposal_already_proposed() {
    let mut s = summon();
    let a = s.submit_whitelist_proposal(alice(), t2(), String::new()).unwrap();
    let b = s.submit_whitelist_proposal(alice(), t2(), String::new()).unwrap();
    s.sponsor_proposal(alice(), at(0), a, paid()).unwrap();
    assert_eq!(s.sponsor_proposal(alice(), at(0), b, paid()), Err(Error::AlreadyProposed));
}

#[test]
fn require_fail_insufficient_deposit_token() {
    let mut s = summon();
    let id = submit(&mut s, bob(), 1, 0, 100, 0);
    let r = s.sponsor_proposal(alice(), at(0), id, Err(TransferError::InsufficientBalance));
    assert_eq!(r, Err(Error::TransferFailed(TransferError::InsufficientBalance)));
    assert!(!s.proposals(id).unwrap().flags.sponsored);
    assert_eq!(s.get_proposal_queue_length(), 0);
}

#[test]
fn require_fail_sponsor_non_existant_proposal_fails() {
    let mut s = summon();
    assert_eq!(s.sponsor_proposal(alice(), at(0), 0, paid()), Err(Error::NoSuchProposal));
}

#[test]
fn when_the_first_whitelist_proposal_passes_the_second_can_no_longer_be_sponsored() {
    let mut s = summon();
    let a = s.submit_whitelist_proposal(alice(), t2(), String::new()).unwrap();
    let b = s.submit_whitelist_proposal(alice(), t2(), String::new()).unwrap();
    let (index, start) = sponsor(&mut s, alice(), a, 0);
    s.submit_vote(alice(), at(start), index, 1).unwrap();
    assert_eq!(s.process_whitelist_proposal(alice(), at(ready(start)), index), Ok(true));
    assert!(s.token_whitelist(t2()));
    assert_eq!(s.sponsor_proposal(alice(), at(ready(start)), b, paid()), Err(Error::DuplicateToken));
}

#[test]
fn when_the_first_whitelist_proposal_fails_the_second_can_still_be_sponsored() {
    let mut s = summon();
    let a = s.submit_whitelist_proposal(alice(), t2(), String::new()).unwrap();
    let b = s.submit_whitelist_proposal(alice(), t2(), String::new()).unwrap();
    let (index, start) = sponsor(&mut s, alice(), a, 0);
    s.submit_vote(alice(), at(start), index, 2).unwrap();
    assert_eq!(s.process_whitelist_proposal(alice(), at(ready(start)), index), Ok(false));
    assert!(!s.token_whitelist(t2()));
    assert_eq!(s.sponsor_proposal(alice(), at(ready(start)), b, paid()), Ok(()));
}

#[test]
fn happy_case_yes_vote() {
    let mut s = summon();
    let id = submit(&mut s, bob(), 1, 0, 0, 0);
    let (index, start) = sponsor(&mut s, alice(), id, 0);
    s.submit_vote(alice(), at(start), index, 1).unwrap();
    let p = s.proposals(id).unwrap();
    assert_eq!(p.yes_votes, 1);
    assert_eq!(p.no_votes, 0);
    assert_eq!(p.max_total_shares_and_loot_at_yes_vote, 1);
    assert_eq!(s.get_member_proposal_vote(alice(), index), Ok(Vote::Yes));
    assert!(matches!(s.events.last(), Some(Event::SubmitVote(e)) if e.uint_vote == 1 && e.member_address == alice()));
}

#[test]
fn happy_case_no_vote() {
    let mut s = summon();
    let id = submit(&mut s, bob(), 1, 0, 0, 0);
    let (index, start) = sponsor(&mut s, alice(), id, 0);
    s.submit_vote(alice(), at(start), index, 2).unwrap();
    let p = s.proposals(id).unwrap();
    assert_eq!(p.yes_votes, 0);
    assert_eq!(p.no_votes, 1);
    assert_eq!(p.max_total_shares_and_loot_at_yes_vote, 0);
    assert_eq!(s.get_member_proposal_vote(alice(), index), Ok(Vote::No));
}

#[test]
fn require_fail_proposal_does_not_exist() {
    let mut s = summon();
    assert_eq!(s.submit_vote(alice(), at(1), 0, 1), Err(Error::NoSuchProposal));
}

#[test]
fn lib_require_fail_proposal_does_not_exist() {
    let mut s = summon();
    assert_eq!(s.process_proposal(alice(), at(100), 0), Err(Error::NoSuchProposal));
    assert_eq!(s.process_whitelist_proposal(alice(), at(100), 0), Err(Error::NoSuchProposal));
}

#[test]
fn require_fail_vote_must_be_less_than_3() {
    let mut s = summon();
    let id = submit(&mut s, bob(), 1, 0, 0, 0);
    let (index, start) = sponsor(&mut s, alice(), id, 0);
    assert_eq!(s.submit_vote(alice(), at(start), index, 3), Err(Error::InvalidVote));
}

#[test]
fn require_fail_voting_period_has_not_started() {
    let mut s = summon();
    let id = submit(&mut s, bob(), 1, 0, 0, 0);
    let (index, start) = sponsor(&mut s, alice(), id, 0);
    assert_eq!(s.submit_vote(alice(), at(start - 1), index, 1), Err(Error::NotYetOpen));
}

#[test]
fn voting_period_boundary() {
    let mut s = summon();
    let id = submit(&mut s, bob(), 1, 0, 0, 0);
    let (index, start) = sponsor(&mut s, alice(), id, 0);
    assert!(!s.has_voting_period_expired(start, at(start + 34)));
    assert!(s.has_voting_period_expired(start, at(start + 35)));
    assert_eq!(s.submit_vote(alice(), at(start + 35), index, 1), Err(Error::VotingClosed));
    assert_eq!(s.submit_vote(alice(), at(start + 34), index, 1), Ok(()));
}

#[test]
fn require_fail_member_has_already_voted() {
    let mut s = summon();
    let id = submit(&mut s, bob(), 1, 0, 0, 0);
    let (index, start) = sponsor(&mut s, alice(), id, 0);
    s.submit_vote(alice(), at(start), index, 1).unwrap();
    assert_eq!(s.submit_vote(alice(), at(start), index, 2), Err(Error::AlreadyVoted));
}

#[test]
fn require_fail_vote_must_be_yes_or_no() {
    let mut s = summon();
    let id = submit(&mut s, bob(), 1, 0, 0, 0);
    let (index, start) = sponsor(&mut s, alice(), id, 0);
    assert_eq!(s.submit_vote(alice(), at(start), index, 0), Err(Error::InvalidVote));
}

#[test]
fn modifier_delegate() {
    let mut s = summon();
    let id = submit(&mut s, bob(), 1, 0, 0, 0);
    let (index, start) = sponsor(&mut s, alice(), id, 0);
    assert_eq!(s.submit_vote(carol(), at(start), index, 1), Err(Error::NoSuchMember));
    s.update_delegate_key(alice(), dave()).unwrap();
    assert_eq!(s.submit_vote(alice(), at(start), index, 1), Err(Error::NoSuchMember));
    assert_eq!(s.submit_vote(dave(), at(start), index, 1), Ok(()));
    assert_eq!(s.get_member_proposal_vote(alice(), index), Ok(Vote::Yes));
}

#[test]
fn modifying_member_highestindexyesvote() {
    let mut s = summon();
    let a = submit(&mut s, bob(), 1, 0, 0, 0);
    let b = submit(&mut s, carol(), 1, 0, 0, 0);
    let (first, _) = sponsor(&mut s, alice(), a, 0);
    let (second, start) = sponsor(&mut s, alice(), b, 0);
    s.submit_vote(alice(), at(start), second, 1).unwrap();
    assert_eq!(s.members(alice()).unwrap().highest_index_yes_vote, 1);
    s.submit_vote(alice(), at(start), first, 1).unwrap();
    assert_eq!(s.members(alice()).unwrap().highest_index_yes_vote, 1);
}

/// Kicks `target` through a guildkick proposal sponsored at `period`, with
/// Alice voting Yes; returns the queue index and the period after.
fn kick(s: &mut Submoloch, target: AccountId, period: u128) -> (u128, u128) {
    let id = s.submit_guildkick_proposal(alice(), target, String::new()).unwrap();
    let (index, start) = sponsor(s, alice(), id, period);
    s.submit_vote(alice(), at(start), index, 1).unwrap();
    assert_eq!(s.process_guildkick_proposal(alice(), at(ready(start)), index), Ok(true));
    (index, ready(start))
}

#[test]
fn happy_path_pass_yes_wins() {
    let mut s = summon();
    let (index, period, passed) = run(&mut s, bob(), 5, 0, 100, &[(alice(), 1)], 0);
    assert!(passed);
    let b = s.members(bob()).unwrap();
    assert_eq!(b.shares, 5);
    assert_eq!(b.delegate_key, bob());
    assert!(b.exists);
    assert_eq!(s.total_shares(), 6);
    assert_eq!(s.user_token_balances(guild(), t0()), 100);
    assert_eq!(s.user_token_balances(escrow(), t0()), 0);
    assert_eq!(s.total_guild_bank_tokens(), 1);
    assert_eq!(s.get_proposal_flags(0), Some([true, true, true, false, false, false]));
    assert_eq!(s.user_token_balances(alice(), t0()), 10);
    assert!(matches!(s.events.last(), Some(Event::ProcessProposal(e)) if e.did_pass && e.proposal_index == index));
    assert_eq!(period, 71);
}

#[test]
fn happy_path_fail_no_wins_proposer_gets_funds_back() {
    let mut s = summon();
    let (_, _, passed) = run(&mut s, bob(), 5, 0, 100, &[(alice(), 2)], 0);
    assert!(!passed);
    assert_eq!(s.members(bob()), None);
    assert_eq!(s.user_token_balances(bob(), t0()), 100);
    assert_eq!(s.user_token_balances(guild(), t0()), 0);
    assert_eq!(s.get_proposal_flags(0), Some([true, true, false, false, false, false]));
    s.withdraw_balance(bob(), t0(), 100).unwrap();
    assert_eq!(s.events.last(), Some(&Event::Withdraw(Withdraw { member_address: bob(), token: t0(), amount: 100 })));
    assert_eq!(s.user_token_balances(bob(), t0()), 0);
}

#[test]
fn happy_path_shares_added_to_existing_member() {
    let (mut s, period) = with_bob();
    let (_, _, passed) = run(&mut s, bob(), 2, 7, 50, &[(alice(), 1)], period);
    assert!(passed);
    let b = s.members(bob()).unwrap();
    assert_eq!(b.shares, 5);
    assert_eq!(b.loot, 7);
    assert_eq!(s.total_shares(), 6);
    assert_eq!(s.total_loot(), 7);
    assert_eq!(s.user_token_balances(guild(), t0()), 450);
}

#[test]
fn happy_path_applicant_is_used_as_a_delegate_key_so_delegate_key_is_reset() {
    let mut s = summon();
    s.update_delegate_key(alice(), carol()).unwrap();
    let id = submit(&mut s, carol(), 2, 0, 0, 0);
    let (index, start) = sponsor(&mut s, carol(), id, 0);
    s.submit_vote(carol(), at(start), index, 1).unwrap();
    assert_eq!(s.process_proposal(alice(), at(ready(start)), index), Ok(true));
    assert_eq!(s.members(alice()).unwrap().delegate_key, alice());
    assert_eq!(s.members(carol()).unwrap().delegate_key, carol());
    assert_eq!(s.member_address_by_delegate_key(carol()), Some(carol()));
    assert_eq!(s.member_address_by_delegate_key(alice()), Some(alice()));
}

#[test]
fn happy_path_auto_fail_if_shares_exceed_limit() {
    let mut s = summon();
    let (_, _, passed) = run(&mut s, bob(), 1_000_000_000_000_000_000, 0, 10, &[(alice(), 1)], 0);
    assert!(!passed);
    assert_eq!(s.members(bob()), None);
    assert_eq!(s.user_token_balances(bob(), t0()), 10);
}

#[test]
fn happy_path_auto_fail_if_loot_shares_exceed_limit() {
    let mut s = summon();
    let (_, _, passed) = run(&mut s, bob(), 0, 1_000_000_000_000_000_000, 10, &[(alice(), 1)], 0);
    assert!(!passed);
    assert_eq!(s.total_loot(), 0);
}

#[test]
fn happy_path_token_whitelist() {
    let mut s = summon_with(vec![t0()], 3);
    let id = s.submit_whitelist_proposal(alice(), t1(), String::new()).unwrap();
    let (index, start) = sponsor(&mut s, alice(), id, 0);
    s.submit_vote(alice(), at(start), index, 1).unwrap();
    assert_eq!(s.process_whitelist_proposal(alice(), at(ready(start)), index), Ok(true));
    assert_eq!(s.approved_token_count(), 2);
    assert_eq!(s.approved_tokens(0), t0());
    assert_eq!(s.approved_tokens(1), t1());
    assert!(s.token_whitelist(t1()));
    assert_eq!(s.user_token_balances(alice(), t0()), 10);
    assert_eq!(s.user_token_balances(escrow(), t0()), 0);
}

#[test]
fn happy_path_guild_kick_member() {
    let (mut s, period) = with_bob();
    let (index, _) = kick(&mut s, bob(), period);
    let b = s.members(bob()).unwrap();
    assert_eq!(b.shares, 0);
    assert_eq!(b.loot, 3);
    assert_eq!(b.jailed, index);
    assert_eq!(s.total_shares(), 1);
    assert_eq!(s.total_loot(), 3);
    assert_eq!(s.get_proposal_flags(1), Some([true, true, true, false, false, true]));
}

#[test]
fn edge_case_paymentrequested_more_than_funds_in_the_bank() {
    let mut s = summon();
    let id = submit(&mut s, bob(), 1, 0, 0, 1000);
    let (index, start) = sponsor(&mut s, alice(), id, 0);
    s.submit_vote(alice(), at(start), index, 1).unwrap();
    assert_eq!(s.process_proposal(alice(), at(ready(start)), index), Ok(false));
    assert_eq!(s.members(bob()), None);
}

#[test]
fn edge_case_dilution_bound_is_exceeded() {
    let (mut s, period) = with_bob();
    let id = submit(&mut s, carol(), 1, 0, 10, 0);
    let (index, start) = sponsor(&mut s, alice(), id, period);
    s.submit_vote(alice(), at(start), index, 1).unwrap();
    assert_eq!(s.proposals(id).unwrap().max_total_shares_and_loot_at_yes_vote, 4);
    s.ragequit(bob(), 3, 0).unwrap();
    assert_eq!(s.total_shares() + s.total_loot(), 1);
    assert_eq!(s.process_proposal(alice(), at(ready(start)), index), Ok(false));
    assert_eq!(s.members(carol()), None);
    assert_eq!(s.user_token_balances(carol(), t0()), 10);
}

#[test]
fn require_fail_proposal_is_not_ready_to_be_processed() {
    let mut s = summon();
    let id = submit(&mut s, bob(), 1, 0, 0, 0);
    let (index, start) = sponsor(&mut s, alice(), id, 0);
    s.submit_vote(alice(), at(start), index, 1).unwrap();
    assert_eq!(s.process_proposal(alice(), at(ready(start) - 1), index), Err(Error::NotReady));
    assert_eq!(s.process_proposal(alice(), at(ready(start)), index), Ok(true));
}

#[test]
fn require_fail_proposal_has_already_been_processed() {
    let mut s = summon();
    let (index, period, _) = run(&mut s, bob(), 1, 0, 0, &[(alice(), 1)], 0);
    assert_eq!(s.process_proposal(alice(), at(period), index), Err(Error::AlreadyProcessed));
}

#[test]
fn require_fail_previous_proposal_must_be_processed() {
    let mut s = summon();
    let a = submit(&mut s, bob(), 1, 0, 0, 0);
    let b = submit(&mut s, carol(), 1, 0, 0, 0);
    sponsor(&mut s, alice(), a, 0);
    let (second, start) = sponsor(&mut s, alice(), b, 0);
    assert_eq!(s.process_proposal(alice(), at(ready(start)), second), Err(Error::NotReady));
    assert_eq!(s.process_proposal(alice(), at(ready(start)), 0), Ok(false));
    assert_eq!(s.process_proposal(alice(), at(ready(start)), second), Ok(false));
}

#[test]
fn require_fail_must_be_a_whitelist_proposal() {
    let mut s = summon();
    let id = submit(&mut s, bob(), 1, 0, 0, 0);
    let (index, start) = sponsor(&mut s, alice(), id, 0);
    assert_eq!(s.process_whitelist_proposal(alice(), at(ready(start)), index), Err(Error::WrongProposalKind));
}

#[test]
fn require_fail_must_be_a_guild_kick_proposal() {
    let mut s = summon();
    let id = submit(&mut s, bob(), 1, 0, 0, 0);
    let (index, start) = sponsor(&mut s, alice(), id, 0);
    assert_eq!(s.process_guildkick_proposal(alice(), at(ready(start)), index), Err(Error::WrongProposalKind));
}

#[test]
fn require_fail_must_be_a_standard_process_not_a_whitelist_proposal() {
    let mut s = summon();
    let id = s.submit_whitelist_proposal(alice(), t2(), String::new()).unwrap();
    let (index, start) = sponsor(&mut s, alice(), id, 0);
    assert_eq!(s.process_proposal(alice(), at(ready(start)), index), Err(Error::WrongProposalKind));
}

#[test]
fn require_fail_must_be_a_standard_process_not_a_guild_kick_proposal() {
    let mut s = summon();
    let id = s.submit_guildkick_proposal(alice(), alice(), String::new()).unwrap();
    let (index, start) = sponsor(&mut s, alice(), id, 0);
    assert_eq!(s.process_proposal(alice(), at(ready(start)), index), Err(Error::WrongProposalKind));
}

#[test]
fn full_ragequit() {
    let (mut s, _) = with_bob();
    s.ragequit(bob(), 3, 0).unwrap();
    assert_eq!(s.user_token_balances(bob(), t0()), 300);
    assert_eq!(s.user_token_balances(guild(), t0()), 100);
    assert_eq!(s.members(bob()).unwrap().shares, 0);
    assert!(s.members(bob()).unwrap().exists);
    assert_eq!(s.total_shares(), 1);
    // the sole member left takes the rest of the bank
    s.ragequit(alice(), 1, 0).unwrap();
    assert_eq!(s.user_token_balances(guild(), t0()), 0);
    assert_eq!(s.user_token_balances(alice(), t0()), 100 + 10);
    assert_eq!(s.total_guild_bank_tokens(), 0);
    assert_eq!(s.total_shares(), 0);
}

#[test]
fn partial_shares() {
    let (mut s, _) = with_bob();
    s.ragequit(bob(), 1, 0).unwrap();
    assert_eq!(s.user_token_balances(bob(), t0()), 100);
    assert_eq!(s.user_token_balances(guild(), t0()), 300);
    assert_eq!(s.members(bob()).unwrap().shares, 2);
    assert_eq!(s.total_shares(), 3);
    assert!(matches!(s.events.last(), Some(Event::Ragequit(e)) if e.shares_to_burn == 1));
}

#[test]
fn require_fail() {
    let (mut s, _) = with_bob();
    assert_eq!(s.ragequit(bob(), 4, 0), Err(Error::InsufficientShares));
    assert_eq!(s.ragequit(bob(), 0, 1), Err(Error::InsufficientShares));
    assert_eq!(s.ragequit(carol(), 1, 0), Err(Error::NoSuchMember));
    assert_eq!(s.members(bob()).unwrap().shares, 3);
}

#[test]
fn withdraw_balance() {
    let (mut s, _) = with_bob();
    s.ragequit(bob(), 3, 0).unwrap();
    assert_eq!(s.withdraw_balance(bob(), t0(), 301), Err(Error::InsufficientBalance));
    assert_eq!(s.withdraw_balance(bob(), t2(), 0), Err(Error::TokenNotWhitelisted));
    s.withdraw_balance(bob(), t0(), 200).unwrap();
    assert_eq!(s.user_token_balances(bob(), t0()), 100);
    assert_eq!(s.user_token_balances(total(), t0()), 410 - 200);
    assert_eq!(s.events.last(), Some(&Event::Withdraw(Withdraw { member_address: bob(), token: t0(), amount: 200 })));
}

#[test]
fn failure_already_sponsored() {
    let mut s = summon();
    let id = submit(&mut s, bob(), 1, 0, 10, 0);
    sponsor(&mut s, alice(), id, 0);
    assert_eq!(s.cancel_proposal(bob(), id), Err(Error::AlreadySponsored));
}

#[test]
fn failure_already_cancelled() {
    let mut s = summon();
    let id = submit(&mut s, bob(), 1, 0, 10, 0);
    s.cancel_proposal(bob(), id).unwrap();
    assert_eq!(s.cancel_proposal(bob(), id), Err(Error::AlreadyCancelled));
    assert_eq!(s.user_token_balances(bob(), t0()), 10);
}

#[test]
fn failure_solely_the_proposer_can_cancel() {
    let mut s = summon();
    let id = submit(&mut s, bob(), 1, 0, 10, 0);
    assert_eq!(s.cancel_proposal(alice(), id), Err(Error::NotProposer));
    assert_eq!(s.cancel_proposal(alice(), 9), Err(Error::NoSuchProposal));
}

#[test]
fn failure_can_not_be_zero_address() {
    let mut s = summon();
    assert_eq!(s.update_delegate_key(alice(), AccountId::zero()), Err(Error::ZeroAddress));
}

#[test]
fn failure_cant_overwrite_existing_members() {
    let (mut s, _) = with_bob();
    assert_eq!(s.update_delegate_key(alice(), bob()), Err(Error::DelegateKeyTaken));
    // a member may point its delegate key back at itself
    assert_eq!(s.update_delegate_key(alice(), alice()), Ok(()));
}

#[test]
fn failure_cant_overwrite_existing_delegate_keys() {
    let (mut s, _) = with_bob();
    s.update_delegate_key(bob(), carol()).unwrap();
    assert_eq!(s.update_delegate_key(alice(), carol()), Err(Error::DelegateKeyTaken));
}

#[test]
fn failure_proposal_does_not_exist() {
    let s = summon();
    assert_eq!(s.can_ragequit(0), Err(Error::NoSuchProposal));
}

#[test]
fn lib_failure_proposal_does_not_exist() {
    let s = summon();
    assert_eq!(s.get_member_proposal_vote(alice(), 5), Err(Error::NoSuchProposal));
}

#[test]
fn ragekick() {
    let (mut s, period) = with_bob();
    kick(&mut s, bob(), period);
    s.ragekick(bob()).unwrap();
    assert_eq!(s.user_token_balances(bob(), t0()), 300);
    assert_eq!(s.members(bob()).unwrap().loot, 0);
    assert_eq!(s.total_loot(), 0);
}

#[test]
fn failure_member_must_be_in_jail() {
    let (mut s, _) = with_bob();
    assert_eq!(s.ragekick(bob()), Err(Error::NotJailed));
    assert_eq!(s.ragekick(carol()), Err(Error::NoSuchMember));
}

#[test]
fn ragekick_happy_case_can_ragekick_immediately_after_guild_kick() {
    let (mut s, period) = with_bob();
    kick(&mut s, bob(), period);
    assert_eq!(s.ragekick(bob()), Ok(()));
}

#[test]
fn ragekick_failure_member_must_have_some_loot() {
    let (mut s, period) = with_bob();
    kick(&mut s, bob(), period);
    s.ragekick(bob()).unwrap();
    assert_eq!(s.ragekick(bob()), Err(Error::InsufficientShares));
}

/// Bob votes Yes on Carol's admission, which is queued after the guildkick
/// against him; returns the guild with Bob jailed and Carol's proposal
/// unprocessed, and the period at which it can be processed.
fn kicked_before_his_yes_vote() -> (Submoloch, u128, u128) {
    let (mut s, period) = with_bob();
    let kick_id = s.submit_guildkick_proposal(alice(), bob(), String::new()).unwrap();
    let carol_id = submit(&mut s, carol(), 1, 0, 0, 0);
    let (kick_index, kick_start) = sponsor(&mut s, alice(), kick_id, period);
    let (carol_index, carol_start) = sponsor(&mut s, alice(), carol_id, period);
    s.submit_vote(alice(), at(kick_start), kick_index, 1).unwrap();
    s.submit_vote(bob(), at(carol_start), carol_index, 1).unwrap();
    assert_eq!(s.members(bob()).unwrap().highest_index_yes_vote, carol_index);
    assert_eq!(s.process_guildkick_proposal(alice(), at(ready(kick_start)), kick_index), Ok(true));
    (s, carol_index, ready(carol_start))
}

#[test]
fn happy_case_can_ragekick_after_second_membership_proposal_is_processed() {
    let (mut s, carol_index, period) = kicked_before_his_yes_vote();
    assert_eq!(s.process_proposal(alice(), at(period), carol_index), Ok(true));
    assert_eq!(s.ragekick(bob()), Ok(()));
}

#[test]
fn ragekick_boundary_condition_must_wait_for_highestindexyesvote_propopsal_to_be_processed() {
    let (mut s, carol_index, period) = kicked_before_his_yes_vote();
    assert_eq!(s.ragekick(bob()), Err(Error::HighestYesVoteUnprocessed));
    assert_eq!(s.process_proposal(alice(), at(period - 1), carol_index), Err(Error::NotReady));
    assert_eq!(s.ragekick(bob()), Err(Error::HighestYesVoteUnprocessed));
    s.process_proposal(alice(), at(period), carol_index).unwrap();
    assert_eq!(s.ragekick(bob()), Ok(()));
}

#[test]
fn failure_member_does_not_exist() {
    let mut s = summon();
    let id = submit(&mut s, bob(), 1, 0, 0, 0);
    let (index, _) = sponsor(&mut s, alice(), id, 0);
    assert_eq!(s.get_member_proposal_vote(carol(), index), Err(Error::NoSuchMember));
}

/// A guild in which Carol holds loot and no shares.
fn with_loot_only_carol() -> (Submoloch, u128) {
    let mut s = summon();
    let (_, period, passed) = run(&mut s, carol(), 0, 5, 100, &[(alice(), 1)], 0);
    assert!(passed);
    (s, period)
}

#[test]
fn can_still_ragequit_justmember_modifier() {
    let (mut s, _) = with_loot_only_carol();
    assert_eq!(s.ragequit(carol(), 0, 5), Ok(()));
    assert_eq!(s.user_token_balances(carol(), t0()), 100 * 5 / 6);
}

#[test]
fn can_still_partial_ragequit_justmember_modifier() {
    let (mut s, _) = with_loot_only_carol();
    assert_eq!(s.ragequit(carol(), 0, 2), Ok(()));
    assert_eq!(s.members(carol()).unwrap().loot, 3);
    assert_eq!(s.user_token_balances(carol(), t0()), 100 * 2 / 6);
}

#[test]
fn unable_to_update_delegatekey_justshareholder_modifier() {
    let (mut s, _) = with_loot_only_carol();
    assert_eq!(s.update_delegate_key(carol(), dave()), Err(Error::InsufficientShares));
}

#[test]
fn unable_to_use_delegate_key_to_sponsor_justshareholder_modifier() {
    let (mut s, period) = with_loot_only_carol();
    let id = submit(&mut s, dave(), 1, 0, 0, 0);
    assert_eq!(s.sponsor_proposal(carol(), at(period), id, paid()), Err(Error::InsufficientShares));
}

#[test]
fn unable_to_use_delegate_key_to_vote_justdelegate_modifier() {
    let (mut s, period) = with_loot_only_carol();
    let id = submit(&mut s, dave(), 1, 0, 0, 0);
    let (index, start) = sponsor(&mut s, alice(), id, period);
    assert_eq!(s.submit_vote(carol(), at(start), index, 1), Err(Error::InsufficientShares));
}

#[test]
fn cant_process_proposals_for_a_jailed_applicant() {
    let (mut s, period) = with_bob();
    let kick_id = s.submit_guildkick_proposal(alice(), bob(), String::new()).unwrap();
    let bob_id = submit(&mut s, bob(), 1, 0, 0, 0);
    let (kick_index, kick_start) = sponsor(&mut s, alice(), kick_id, period);
    let (bob_index, bob_start) = sponsor(&mut s, alice(), bob_id, period);
    s.submit_vote(alice(), at(kick_start), kick_index, 1).unwrap();
    s.submit_vote(alice(), at(bob_start), bob_index, 1).unwrap();
    s.process_guildkick_proposal(alice(), at(ready(kick_start)), kick_index).unwrap();
    assert_eq!(s.process_proposal(alice(), at(ready(bob_start)), bob_index), Ok(false));
    assert_eq!(s.members(bob()).unwrap().shares, 0);
}

#[test]
fn cant_sponsor_proposals_for_a_jailed_applicant() {
    let (mut s, period) = with_bob();
    let bob_id = submit(&mut s, bob(), 1, 0, 0, 0);
    let (_, period) = kick(&mut s, bob(), period);
    assert_eq!(s.sponsor_proposal(alice(), at(period), bob_id, paid()), Err(Error::ApplicantJailed));
}

#[test]
fn cant_sponsor_guild_kick_proposals_for_a_jailed_applicant() {
    let (mut s, period) = with_bob();
    let second_kick = s.submit_guildkick_proposal(alice(), bob(), String::new()).unwrap();
    let (_, period) = kick(&mut s, bob(), period);
    assert_eq!(s.sponsor_proposal(alice(), at(period), second_kick, paid()), Err(Error::ApplicantJailed));
}

#[test]
fn cant_submit_proposals_for_a_jailed_applicant() {
    let (mut s, period) = with_bob();
    kick(&mut s, bob(), period);
    let r = s.submit_proposal(bob(), bob(), 1, 0, 0, t0(), 0, t0(), String::new(), paid());
    assert_eq!(r, Err(Error::ApplicantJailed));
}

#[test]
fn cant_submit_guild_kick_proposals_for_a_jailed_applicant() {
    let (mut s, period) = with_bob();
    kick(&mut s, bob(), period);
    assert_eq!(s.submit_guildkick_proposal(alice(), bob(), String::new()), Err(Error::ApplicantJailed));
}

#[test]
fn default_works() {
    let c = ConfigBuilder::default().build().unwrap();
    assert_eq!(
        c,
        submoloch::Config {
            approved_tokens: vec![],
            period_duration: 17280,
            voting_period_length: 35,
            grace_period_length: 35,
            proposal_deposit: 10,
            dilution_bound: 3,
            processing_reward: 1,
        }
    );
}

#[test]
fn overwrite_default_works() {
    let config = ConfigBuilder::default()
        .period_duration(80)
        .voting_period_length(40)
        .grace_period_length(55)
        .proposal_deposit(44)
        .dilution_bound(5)
        .processing_reward(4)
        .build()
        .unwrap();
    assert_eq!(
        config,
        submoloch::Config {
            approved_tokens: vec![],
            period_duration: 80,
            voting_period_length: 40,
            grace_period_length: 55,
            proposal_deposit: 44,
            dilution_bound: 5,
            processing_reward: 4,
        }
    );
}

#[test]
fn config_bounds_are_checked() {
    assert!(ConfigBuilder::default().period_duration(0).validate().is_err());
    assert!(ConfigBuilder::default().voting_period_length(0).validate().is_err());
    assert!(ConfigBuilder::default().grace_period_length(1_000_000_000_000_000_001).validate().is_err());
    assert!(ConfigBuilder::default().grace_period_length(0).validate().is_ok());
    assert!(ConfigBuilder::default().dilution_bound(0).validate().is_err());
    assert!(ConfigBuilder::default().approved_tokens(vec![]).validate().is_err());
    assert!(ConfigBuilder::default().proposal_deposit(0).validate().is_err());
    assert!(ConfigBuilder::default().proposal_deposit(1).validate().is_ok());
}

#[test]
fn member_new_holds_one_share() {
    let m = Member::new(bob());
    assert_eq!(m.shares, 1);
    assert_eq!(m.delegate_key, bob());
    assert_eq!(m.jailed, 0);
}

#[test]
fn lib_verify_deployment_parameters() {
    verify_deployment_parameters();
}

#[test]
fn lib_require_fail_summoner_can_not_be_zero_address() {
    require_fail_summoner_can_not_be_zero_address();
}

#[test]
fn lib_require_fail_period_duration_can_not_be_zero() {
    require_fail_period_duration_can_not_be_zero();
}

#[test]
fn lib_require_fail_voting_period_can_not_be_zero() {
    require_fail_voting_period_can_not_be_zero();
}

#[test]
fn lib_require_fail_voting_period_exceeds_limit() {
    require_fail_voting_period_exceeds_limit();
}

#[test]
fn lib_require_fail_grace_period_exceeds_limit() {
    require_fail_grace_period_exceeds_limit();
}

#[test]
fn lib_require_fail_dilution_bound_can_not_be_zero() {
    require_fail_dilution_bound_can_not_be_zero();
}

#[test]
fn lib_require_fail_dilution_bound_exceeds_limit() {
    require_fail_dilution_bound_exceeds_limit();
}

#[test]
fn lib_require_fail_need_at_least_one_approved_token() {
    require_fail_need_at_least_one_approved_token();
}

#[test]
fn lib_require_fail_too_many_tokens() {
    require_fail_too_many_tokens();
}

#[test]
fn lib_require_fail_deposit_cannot_be_smaller_than_processing_reward() {
    require_fail_deposit_cannot_be_smaller_than_processing_reward();
}

#[test]
fn lib_require_fail_approved_token_cannot_be_zero() {
    require_fail_approved_token_cannot_be_zero();
}

#[test]
fn lib_require_fail_duplicate_approved_token() {
    require_fail_duplicate_approved_token();
}

#[test]
fn lib_require_fail_insufficient_tribute_tokens() {
    require_fail_insufficient_tribute_tokens();
}

#[test]
fn lib_require_fail_tribute_token_is_not_whitelisted() {
    require_fail_tribute_token_is_not_whitelisted();
}

#[test]
fn lib_require_fail_payment_token_is_not_whitelisted() {
    require_fail_payment_token_is_not_whitelisted();
}

#[test]
fn lib_require_fail_applicant_address_can_not_be_reserved() {
    require_fail_applicant_address_can_not_be_reserved();
}

#[test]
fn lib_failure_too_many_shares_requested() {
    failure_too_many_shares_requested();
}

#[test]
fn lib_failure_too_many_shares_just_loot_requested() {
    failure_too_many_shares_just_loot_requested();
}

#[test]
fn lib_failure_too_many_shares_plus_loot_requested() {
    failure_too_many_shares_plus_loot_requested();
}

#[test]
fn lib_require_fail_cannot_add_already_have_whitelisted_the_token() {
    require_fail_cannot_add_already_have_whitelisted_the_token();
}

#[test]
fn lib_happy_path_sponsor_add_token_to_whitelist() {
    happy_path_sponsor_add_token_to_whitelist();
}

#[test]
fn lib_with_a_second_member_besides_the_summoner() {
    with_a_second_member_besides_the_summoner();
}

#[test]
fn lib_happy_path_sponsor_proposal() {
    happy_path_sponsor_proposal();
}

#[test]
fn lib_failure_proposal_has_already_been_sponsored() {
    failure_proposal_has_already_been_sponsored();
}

#[test]
fn lib_failure_proposal_has_been_cancelled() {
    failure_proposal_has_been_cancelled();
}

#[test]
fn lib_failure_sponsor_whitelist_token_proposal_already_proposed() {
    failure_sponsor_whitelist_token_proposal_already_proposed();
}

#[test]
fn lib_require_fail_insufficient_deposit_token() {
    require_fail_insufficient_deposit_token();
}

#[test]
fn lib_require_fail_sponsor_non_existant_proposal_fails() {
    require_fail_sponsor_non_existant_proposal_fails();
}

#[test]
fn lib_when_the_first_whitelist_proposal_passes_the_second_can_no_longer_be_sponsored() {
    when_the_first_whitelist_proposal_passes_the_second_can_no_longer_be_sponsored();
}

#[test]
fn lib_when_the_first_whitelist_proposal_fails_the_second_can_still_be_sponsored() {
    when_the_first_whitelist_proposal_fails_the_second_can_still_be_sponsored();
}

#[test]
fn lib_happy_case_yes_vote() {
    happy_case_yes_vote();
}

#[test]
fn lib_happy_case_no_vote() {
    happy_case_no_vote();
}

#[test]
fn lib_require_fail_vote_must_be_less_than_3() {
    require_fail_vote_must_be_less_than_3();
}

#[test]
fn lib_require_fail_voting_period_has_not_started() {
    require_fail_voting_period_has_not_started();
}

#[test]
fn lib_voting_period_boundary() {
    voting_period_boundary();
}

#[test]
fn lib_require_fail_member_has_already_voted() {
    require_fail_member_has_already_voted();
}

#[test]
fn lib_require_fail_vote_must_be_yes_or_no() {
    require_fail_vote_must_be_yes_or_no();
}

#[test]
fn lib_modifier_delegate() {
    modifier_delegate();
}

#[test]
fn lib_modifying_member_highestindexyesvote() {
    modifying_member_highestindexyesvote();
}

#[test]
fn lib_happy_path_pass_yes_wins() {
    happy_path_pass_yes_wins();
}

#[test]
fn lib_happy_path_fail_no_wins_proposer_gets_funds_back() {
    happy_path_fail_no_wins_proposer_gets_funds_back();
}

#[test]
fn lib_happy_path_shares_added_to_existing_member() {
    happy_path_shares_added_to_existing_member();
}

#[test]
fn lib_happy_path_applicant_is_used_as_a_delegate_key_so_delegate_key_is_reset() {
    happy_path_applicant_is_used_as_a_delegate_key_so_delegate_key_is_reset();
}

#[test]
fn lib_happy_path_auto_fail_if_shares_exceed_limit() {
    happy_path_auto_fail_if_shares_exceed_limit();
}

#[test]
fn lib_happy_path_auto_fail_if_loot_shares_exceed_limit() {
    happy_path_auto_fail_if_loot_shares_exceed_limit();
}

#[test]
fn lib_happy_path_token_whitelist() {
    happy_path_token_whitelist();
}

#[test]
fn lib_happy_path_guild_kick_member() {
    happy_path_guild_kick_member();
}

#[test]
fn lib_edge_case_paymentrequested_more_than_funds_in_the_bank() {
    edge_case_paymentrequested_more_than_funds_in_the_bank();
}

#[test]
fn lib_edge_case_dilution_bound_is_exceeded() {
    edge_case_dilution_bound_is_exceeded();
}

#[test]
fn lib_require_fail_proposal_is_not_ready_to_be_processed() {
    require_fail_proposal_is_not_ready_to_be_processed();
}

#[test]
fn lib_require_fail_proposal_has_already_been_processed() {
    require_fail_proposal_has_already_been_processed();
}

#[test]
fn lib_require_fail_previous_proposal_must_be_processed() {
    require_fail_previous_proposal_must_be_processed();
}

#[test]
fn lib_require_fail_must_be_a_whitelist_proposal() {
    require_fail_must_be_a_whitelist_proposal();
}

#[test]
fn lib_require_fail_must_be_a_guild_kick_proposal() {
    require_fail_must_be_a_guild_kick_proposal();
}

#[test]
fn lib_require_fail_must_be_a_standard_process_not_a_whitelist_proposal() {
    require_fail_must_be_a_standard_process_not_a_whitelist_proposal();
}

#[test]
fn lib_require_fail_must_be_a_standard_process_not_a_guild_kick_proposal() {
    require_fail_must_be_a_standard_process_not_a_guild_kick_proposal();
}

#[test]
fn lib_full_ragequit() {
    full_ragequit();
}

#[test]
fn lib_partial_shares() {
    partial_shares();
}

#[test]
fn lib_require_fail() {
    require_fail();
}

#[test]
fn lib_withdraw_balance() {
    withdraw_balance();
}

#[test]
fn lib_failure_already_sponsored() {
    failure_already_sponsored();
}

#[test]
fn lib_failure_already_cancelled() {
    failure_already_cancelled();
}

#[test]
fn lib_failure_solely_the_proposer_can_cancel() {
    failure_solely_the_proposer_can_cancel();
}

#[test]
fn lib_failure_can_not_be_zero_address() {
    failure_can_not_be_zero_address();
}

#[test]
fn lib_failure_cant_overwrite_existing_members() {
    failure_cant_overwrite_existing_members();
}

#[test]
fn lib_failure_cant_overwrite_existing_delegate_keys() {
    failure_cant_overwrite_existing_delegate_keys();
}

#[test]
fn lib_ragekick() {
    ragekick();
}

#[test]
fn lib_failure_member_must_be_in_jail() {
    failure_member_must_be_in_jail();
}

#[test]
fn lib_ragekick_happy_case_can_ragekick_immediately_after_guild_kick() {
    ragekick_happy_case_can_ragekick_immediately_after_guild_kick();
}

#[test]
fn lib_ragekick_failure_member_must_have_some_loot() {
    ragekick_failure_member_must_have_some_loot();
}

#[test]
fn lib_happy_case_can_ragekick_after_second_membership_proposal_is_processed() {
    happy_case_can_ragekick_after_second_membership_proposal_is_processed();
}

#[test]
fn lib_ragekick_boundary_condition_must_wait_for_highestindexyesvote_propopsal_to_be_processed() {
    ragekick_boundary_condition_must_wait_for_highestindexyesvote_propopsal_to_be_processed();
}

#[test]
fn lib_failure_member_does_not_exist() {
    failure_member_does_not_exist();
}

#[test]
fn lib_can_still_ragequit_justmember_modifier() {
    can_still_ragequit_justmember_modifier();
}

#[test]
fn lib_can_still_partial_ragequit_justmember_modifier() {
    can_still_partial_ragequit_justmember_modifier();
}

#[test]
fn lib_unable_to_update_delegatekey_justshareholder_modifier() {
    unable_to_update_delegatekey_justshareholder_modifier();
}

#[test]
fn lib_unable_to_use_delegate_key_to_sponsor_justshareholder_modifier() {
    unable_to_use_delegate_key_to_sponsor_justshareholder_modifier();
}

#[test]
fn lib_unable_to_use_delegate_key_to_vote_justdelegate_modifier() {
    unable_to_use_delegate_key_to_vote_justdelegate_modifier();
}

#[test]
fn lib_cant_process_proposals_for_a_jailed_applicant() {
    cant_process_proposals_for_a_jailed_applicant();
}

#[test]
fn lib_cant_sponsor_proposals_for_a_jailed_applicant() {
    cant_sponsor_proposals_for_a_jailed_applicant();
}

#[test]
fn lib_cant_sponsor_guild_kick_proposals_for_a_jailed_applicant() {
    cant_sponsor_guild_kick_proposals_for_a_jailed_applicant();
}

#[test]
fn lib_cant_submit_proposals_for_a_jailed_applicant() {
    cant_submit_proposals_for_a_jailed_applicant();
}

#[test]
fn lib_cant_submit_guild_kick_proposals_for_a_jailed_applicant() {
    cant_submit_guild_kick_proposals_for_a_jailed_applicant();
}
