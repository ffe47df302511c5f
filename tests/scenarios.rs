use submoloch::account::{escrow, guild, total};
use submoloch::fund::Error as FundError;
use submoloch::{AccountId, Error, Event, Fund, Submoloch, TokenWhitelist, TransferError, Vote, Withdraw};

const PERIOD: u64 = 17280;

fn acct(n: u128) -> AccountId {
    AccountId::new(0, n)
}

fn a() -> AccountId {
    acct(1)
}

fn b() -> AccountId {
    acct(2)
}

fn c() -> AccountId {
    acct(3)
}

fn t0() -> AccountId {
    acct(100)
}

fn t1() -> AccountId {
    acct(101)
}

fn at(period: u128) -> u64 {
    period as u64 * PERIOD
}

fn ok() -> Result<(), TransferError> {
    Ok(())
}

fn guild_of(tokens: Vec<AccountId>, dilution_bound: u128) -> Submoloch {
    Submoloch::new(a(), tokens, PERIOD as u128, 35, 35, 10, dilution_bound, 1, 0).unwrap()
}

/// Sponsors `id` by A at `period`, lets each voter vote at the start, and
/// returns the queue index and the first period in which it can be processed.
fn queue(s: &mut Submoloch, id: u128, period: u128, votes: &[(AccountId, u8)]) -> (u128, u128) {
    s.sponsor_proposal(a(), at(period), id, ok()).unwrap();
    let index = s.get_proposal_queue_length() - 1;
    let start = s.proposals(id).unwrap().starting_period;
    for (voter, v) in votes {
        s.submit_vote(*voter, at(start), index, *v).unwrap();
    }
    (index, start + 70)
}

/// Lets `applicant` join with `shares`, paying `tribute` of `token`; returns the
/// period after processing.
fn join(s: &mut Submoloch, applicant: AccountId, shares: u128, tribute: u128, token: AccountId, period: u128) -> u128 {
    let id = s.submit_proposal(applicant, applicant, shares, 0, tribute, token, 0, token, String::new(), ok()).unwrap();
    let (index, ready) = queue(s, id, period, &[(a(), 1)]);
    assert_eq!(s.process_proposal(a(), at(ready), index), Ok(true));
    ready
}

/// Checks the invariants that can be read from outside: the total account
/// holds the sum of the given accounts, shares and loot add up, and the
/// guild bank count matches the tokens the guild holds.
fn check_books(s: &Submoloch, accounts: &[AccountId], members: &[AccountId]) {
    let count = s.approved_token_count();
    let mut held = 0u128;
    for i in 0..count {
        let t = s.approved_tokens(i as u32);
        let sum: u128 = accounts.iter().chain([guild(), escrow()].iter()).map(|u| s.user_token_balances(*u, t)).sum();
        assert_eq!(s.user_token_balances(total(), t), sum);
        if s.user_token_balances(guild(), t) > 0 {
            held += 1;
        }
    }
    assert_eq!(s.total_guild_bank_tokens(), held);
    let shares: u128 = members.iter().filter_map(|m| s.members(*m)).map(|m| m.shares).sum();
    let loot: u128 = members.iter().filter_map(|m| s.members(*m)).map(|m| m.loot).sum();
    assert_eq!(s.total_shares(), shares);
    assert_eq!(s.total_loot(), loot);
    assert!(s.total_shares() + s.total_loot() <= 1_000_000_000_000_000_000);
    for x in members {
        for y in members {
            if x != y {
                if let (Some(mx), Some(my)) = (s.members(*x), s.members(*y)) {
                    assert_ne!(mx.delegate_key, my.delegate_key);
                    assert_ne!(mx.delegate_key, *y);
                }
            }
        }
    }
}

#[test]
fn scenario_summon_whitelist_vote_process() {
    let mut s = guild_of(vec![t0()], 3);
    let id = s.submit_whitelist_proposal(a(), t1(), String::new()).unwrap();
    let (index, ready) = queue(&mut s, id, 0, &[(a(), 1)]);
    assert_eq!(ready, 1 + 35 + 35);
    assert_eq!(s.process_whitelist_proposal(a(), at(ready), index), Ok(true));
    assert!(s.token_whitelist(t1()));
    assert_eq!(s.approved_token_count(), 2);
    assert_eq!(s.approved_tokens(0), t0());
    assert_eq!(s.approved_tokens(1), t1());
    // 10 - 1 back to the sponsor and 1 to the processor, both A
    assert_eq!(s.user_token_balances(a(), t0()), 9 + 1);
    assert!(matches!(s.events.last(), Some(Event::ProcessWhitelistProposal(e)) if e.did_pass));
    check_books(&s, &[a()], &[a()]);
}

#[test]
fn scenario_standard_proposal_pass_admits_applicant() {
    let mut s = guild_of(vec![t0()], 3);
    join(&mut s, b(), 5, 100, t0(), 0);
    assert_eq!(s.members(b()).unwrap().shares, 5);
    assert_eq!(s.total_shares(), 6);
    assert_eq!(s.user_token_balances(guild(), t0()), 100);
    assert_eq!(s.user_token_balances(escrow(), t0()), 0);
    check_books(&s, &[a(), b()], &[a(), b()]);
}

#[test]
fn scenario_standard_proposal_fail_returns_tribute() {
    let mut s = guild_of(vec![t0()], 3);
    let id = s.submit_proposal(b(), b(), 5, 0, 100, t0(), 0, t0(), String::new(), ok()).unwrap();
    let (index, ready) = queue(&mut s, id, 0, &[(a(), 2)]);
    assert_eq!(s.process_proposal(a(), at(ready), index), Ok(false));
    assert_eq!(s.members(b()), None);
    assert_eq!(s.user_token_balances(guild(), t0()), 0);
    // B takes its tribute back out: the token pays B the 100 it paid in
    s.withdraw_balance(b(), t0(), 100).unwrap();
    assert_eq!(s.events.last(), Some(&Event::Withdraw(Withdraw { member_address: b(), token: t0(), amount: 100 })));
    assert_eq!(s.user_token_balances(b(), t0()), 0);
    check_books(&s, &[a(), b()], &[a()]);
}

#[test]
fn scenario_ragequit_dividend() {
    let mut s = guild_of(vec![t0()], 3);
    join(&mut s, b(), 3, 400, t0(), 0);
    s.ragequit(a(), 1, 0).unwrap();
    assert_eq!(s.user_token_balances(a(), t0()), 10 + 400 * 1 / 4);
    s.ragequit(b(), 3, 0).unwrap();
    assert_eq!(s.user_token_balances(b(), t0()), 300);
    assert_eq!(s.user_token_balances(guild(), t0()), 0);
    assert_eq!(s.total_guild_bank_tokens(), 0);
    check_books(&s, &[a(), b()], &[a(), b()]);
}

#[test]
fn scenario_guildkick_then_ragekick() {
    let mut s = guild_of(vec![t0()], 3);
    let period = join(&mut s, b(), 3, 400, t0(), 0);
    let id = s.submit_guildkick_proposal(a(), b(), String::new()).unwrap();
    let (index, ready) = queue(&mut s, id, period, &[(a(), 1)]);
    assert_eq!(s.process_guildkick_proposal(a(), at(ready), index), Ok(true));
    let kicked = s.members(b()).unwrap();
    assert_eq!((kicked.shares, kicked.loot, kicked.jailed), (0, 3, index));
    assert_eq!(s.total_shares(), 1);
    // anyone may ragekick; B receives its share of the bank
    s.ragekick(b()).unwrap();
    assert_eq!(s.user_token_balances(b(), t0()), 400 * 3 / 4);
    assert_eq!(s.members(b()).unwrap().loot, 0);
    check_books(&s, &[a(), b()], &[a(), b()]);
}

#[test]
fn scenario_dilution_guard_fails_passing_vote() {
    let mut s = guild_of(vec![t0()], 3);
    let period = join(&mut s, b(), 3, 0, t0(), 0);
    let id = s.submit_proposal(c(), c(), 1, 0, 50, t0(), 0, t0(), String::new(), ok()).unwrap();
    let (index, ready) = queue(&mut s, id, period, &[(a(), 1)]);
    assert_eq!(s.proposals(id).unwrap().max_total_shares_and_loot_at_yes_vote, 4);
    s.ragequit(b(), 3, 0).unwrap();
    assert_eq!(s.process_proposal(a(), at(ready), index), Ok(false));
    assert_eq!(s.user_token_balances(c(), t0()), 50);
    assert_eq!(s.members(c()), None);
}

#[test]
fn dilution_guard_holds_at_the_bound() {
    // 3 * 2 >= 4: the guard lets the vote stand
    let mut s = guild_of(vec![t0()], 3);
    let period = join(&mut s, b(), 3, 0, t0(), 0);
    let id = s.submit_proposal(c(), c(), 1, 0, 0, t0(), 0, t0(), String::new(), ok()).unwrap();
    let (index, ready) = queue(&mut s, id, period, &[(a(), 1)]);
    s.ragequit(b(), 2, 0).unwrap();
    assert_eq!(s.process_proposal(a(), at(ready), index), Ok(true));
}

#[test]
fn vote_at_last_voting_period_boundary() {
    let mut s = guild_of(vec![t0()], 3);
    let id = s.submit_proposal(b(), b(), 1, 0, 0, t0(), 0, t0(), String::new(), ok()).unwrap();
    let (index, _) = queue(&mut s, id, 0, &[]);
    let start = s.proposals(id).unwrap().starting_period;
    assert_eq!(s.submit_vote(a(), at(start + 35), index, 1), Err(Error::VotingClosed));
    assert_eq!(s.submit_vote(a(), at(start + 35 - 1), index, 1), Ok(()));
}

#[test]
fn processing_boundary() {
    let mut s = guild_of(vec![t0()], 3);
    let id = s.submit_proposal(b(), b(), 1, 0, 0, t0(), 0, t0(), String::new(), ok()).unwrap();
    let (index, ready) = queue(&mut s, id, 0, &[(a(), 1)]);
    assert_eq!(s.process_proposal(a(), at(ready - 1), index), Err(Error::NotReady));
    assert_eq!(s.process_proposal(a(), at(ready), index), Ok(true));
}

#[test]
fn whitelist_fills_to_its_maximum() {
    let tokens: Vec<AccountId> = (0..399u128).map(|i| acct(1000 + i)).collect();
    let mut s = guild_of(tokens, 3);
    let id = s.submit_whitelist_proposal(a(), t1(), String::new()).unwrap();
    let (index, ready) = queue(&mut s, id, 0, &[(a(), 1)]);
    assert_eq!(s.process_whitelist_proposal(a(), at(ready), index), Ok(true));
    assert_eq!(s.approved_token_count(), 400);
    assert_eq!(s.submit_whitelist_proposal(a(), acct(5000), String::new()), Err(Error::WhitelistFull));
}

#[test]
fn sole_member_full_ragequit_takes_the_bank() {
    let mut s = guild_of(vec![t0(), t1()], 3);
    s.collect_tokens(a(), t0(), 0).unwrap_err();
    let period = join(&mut s, b(), 1, 70, t0(), 0);
    join(&mut s, c(), 1, 30, t1(), period);
    s.ragequit(b(), 1, 0).unwrap();
    s.ragequit(c(), 1, 0).unwrap();
    let left = [s.user_token_balances(guild(), t0()), s.user_token_balances(guild(), t1())];
    let before = s.user_token_balances(a(), t0());
    s.ragequit(a(), 1, 0).unwrap();
    assert_eq!(s.user_token_balances(guild(), t0()), 0);
    assert_eq!(s.user_token_balances(guild(), t1()), 0);
    assert_eq!(s.user_token_balances(a(), t0()), before + left[0]);
    assert_eq!(s.user_token_balances(a(), t1()), left[1]);
    assert_eq!(s.total_guild_bank_tokens(), 0);
    check_books(&s, &[a(), b(), c()], &[a(), b(), c()]);
}

#[test]
fn flags_stay_set_once_processed_or_cancelled() {
    let mut s = guild_of(vec![t0()], 3);
    let cancelled = s.submit_proposal(b(), b(), 1, 0, 5, t0(), 0, t0(), String::new(), ok()).unwrap();
    s.cancel_proposal(b(), cancelled).unwrap();
    let id = s.submit_proposal(c(), c(), 1, 0, 0, t0(), 0, t0(), String::new(), ok()).unwrap();
    let (index, ready) = queue(&mut s, id, 0, &[(a(), 1)]);
    s.process_proposal(a(), at(ready), index).unwrap();
    assert_eq!(s.cancel_proposal(b(), cancelled), Err(Error::AlreadyCancelled));
    assert_eq!(s.process_proposal(a(), at(ready), index), Err(Error::AlreadyProcessed));
    assert_eq!(s.sponsor_proposal(a(), at(ready), cancelled, ok()), Err(Error::AlreadyCancelled));
    assert!(s.get_proposal_flags(cancelled).unwrap()[3]);
    assert!(s.get_proposal_flags(id).unwrap()[1]);
}

#[test]
fn starting_periods_follow_the_queue() {
    let mut s = guild_of(vec![t0()], 3);
    let mut last = 0;
    for (i, period) in [4u128, 2, 9, 9].iter().enumerate() {
        let id = s.submit_proposal(b(), b(), 1, 0, 0, t0(), 0, t0(), String::new(), ok()).unwrap();
        s.sponsor_proposal(a(), at(*period), id, ok()).unwrap();
        let start = s.proposals(id).unwrap().starting_period;
        assert!(start >= period + 1);
        assert!(start > last || i == 0);
        last = start;
    }
    assert_eq!(last, 11);
}

#[test]
fn withdraw_balances_is_all_or_nothing() {
    let mut s = guild_of(vec![t0(), t1()], 3);
    join(&mut s, b(), 1, 0, t0(), 0);
    // A holds 10 T0 from the returned deposit
    assert_eq!(s.user_token_balances(a(), t0()), 10);
    assert_eq!(s.withdraw_balances(a(), vec![t0()], vec![1, 2]), Err(Error::LengthMismatch));
    assert_eq!(s.withdraw_balances(a(), vec![t0(), t0()], vec![6, 5]), Err(Error::InsufficientBalance));
    assert_eq!(s.withdraw_balances(a(), vec![t0(), acct(7)], vec![1, 0]), Err(Error::TokenNotWhitelisted));
    assert_eq!(s.user_token_balances(a(), t0()), 10);
    assert_eq!(s.withdraw_balances(a(), vec![t0(), t1(), t0()], vec![6, 0, 4]), Ok(()));
    assert_eq!(s.user_token_balances(a(), t0()), 0);
    assert_eq!(s.user_token_balances(total(), t0()), 0);
    let n = s.events.len();
    assert_eq!(s.events[n - 3], Event::Withdraw(Withdraw { member_address: a(), token: t0(), amount: 6 }));
    assert_eq!(s.events[n - 1], Event::Withdraw(Withdraw { member_address: a(), token: t0(), amount: 4 }));
}

#[test]
fn collect_tokens_credits_the_guild() {
    let mut s = guild_of(vec![t0()], 3);
    assert_eq!(s.collect_tokens(a(), t0(), 50), Err(Error::NothingToCollect));
    join(&mut s, b(), 1, 100, t0(), 0);
    // the token reports 150 held for the guild, of which 110 are accounted for
    assert_eq!(s.collect_tokens(a(), t0(), 110), Err(Error::NothingToCollect));
    assert_eq!(s.collect_tokens(c(), t0(), 150), Err(Error::NoSuchMember));
    assert_eq!(s.collect_tokens(a(), t1(), 150), Err(Error::TokenNotWhitelisted));
    s.collect_tokens(a(), t0(), 150).unwrap();
    assert_eq!(s.user_token_balances(guild(), t0()), 140);
    assert_eq!(s.user_token_balances(total(), t0()), 150);
}

#[test]
fn guild_bank_full_blocks_new_tribute_tokens() {
    let tokens: Vec<AccountId> = (0..201u128).map(|i| acct(1000 + i)).collect();
    let mut s = guild_of(tokens.clone(), 3);
    let mut period = 0;
    for t in tokens.iter().take(200) {
        period = join(&mut s, b(), 1, 1, *t, period);
    }
    assert_eq!(s.total_guild_bank_tokens(), 200);
    let r = s.submit_proposal(c(), c(), 1, 0, 1, tokens[200], 0, tokens[200], String::new(), ok());
    assert_eq!(r, Err(Error::GuildBankFull));
    // a tribute in a token the guild already holds is still welcome
    let r = s.submit_proposal(c(), c(), 1, 0, 1, tokens[0], 0, tokens[0], String::new(), ok());
    assert!(r.is_ok());
}

#[test]
fn vote_decoding() {
    assert_eq!(Vote::from_uint(1), Vote::Yes);
    assert_eq!(Vote::from_uint(2), Vote::No);
    assert_eq!(Vote::from_uint(0), Vote::Null);
}

#[test]
fn fund_keeps_an_ordered_whitelist() {
    let mut f = Fund::new(vec![t0(), t1()], 3);
    assert_eq!(f.get_deposit_token(), t0());
    assert_eq!(f.get_approved_token(1), t1());
    assert_eq!(f.total_approved_tokens(), 2);
    assert_eq!(f.whitelist_token(t0()), Err(FundError::DuplicateTokenError));
    assert_eq!(f.whitelist_token(acct(7)), Ok(()));
    assert_eq!(f.whitelist_token(acct(8)), Err(FundError::TooManyTokensError));
    assert_eq!(f.unwhitelist_token(acct(9)), Err(FundError::TokenIsntWhitelistError));
    assert_eq!(f.unwhitelist_token(t1()), Ok(()));
    assert!(!f.is_token_whitelisted(t1()));
    assert_eq!(f.get_approved_token(1), acct(7));
    assert_eq!(f.total_approved_tokens(), 2);
    assert_eq!(f.events.len(), 4);
}
