//! The state of the guild, its invariants, summoning, and the views on it.
use vstd::prelude::*;

use crate::account::{escrow_account, is_reserved, total_account, zero_account, AccountId};
use crate::bank::Bank;
use crate::constant::{
    MAX_DILUTION_BOUND, MAX_GRACE_PERIOD_LENGTH, MAX_NUMBER_OF_SHARES_AND_LOOT, MAX_TOKEN_WHITELIST_COUNT,
    MAX_VOTING_PERIOD_LENGTH,
};
use crate::error::Error;
use crate::event::{Event, SummonComplete};
use crate::member::{Member, Members};
use crate::proposal::{Proposal, ProposalId, ProposalIndex, Vote, VoteRecord};
use crate::utils::{all_nonneg, lemma_sum_ge_elem, lemma_sum_push, lemma_sum_update, sum};

verus! {

/// Whether summoning parameters are within their bounds, the token list
/// aside.
pub open spec fn config_in_range(
    period_duration: u128,
    voting_period_length: u128,
    grace_period_length: u128,
    dilution_bound: u128,
    token_count: int,
) -> bool {
    &&& period_duration > 0
    &&& 1 <= voting_period_length <= MAX_VOTING_PERIOD_LENGTH
    &&& grace_period_length <= MAX_GRACE_PERIOD_LENGTH
    &&& 1 <= dilution_bound <= MAX_DILUTION_BOUND
    &&& 1 <= token_count <= MAX_TOKEN_WHITELIST_COUNT
}

/// The error with which summoning fails, if it does.
pub open spec fn summon_error(
    summoner: AccountId,
    tokens: Seq<AccountId>,
    period_duration: u128,
    voting_period_length: u128,
    grace_period_length: u128,
    proposal_deposit: u128,
    dilution_bound: u128,
    processing_reward: u128,
) -> Option<Error> {
    if summoner == zero_account() {
        Some(Error::ZeroAddress)
    } else if is_reserved(summoner) {
        Some(Error::ReservedAccount)
    } else if !config_in_range(period_duration, voting_period_length, grace_period_length, dilution_bound, tokens.len() as int) {
        Some(Error::InvalidConfig)
    } else if proposal_deposit < processing_reward {
        Some(Error::DepositLessThanReward)
    } else if tokens.contains(zero_account()) {
        Some(Error::ZeroAddress)
    } else if !tokens.no_duplicates() {
        Some(Error::DuplicateToken)
    } else {
        None
    }
}

/// The state of the guild.
pub struct Submoloch {
    pub members: Members,
    pub bank: Bank,
    /// Seconds per period.
    pub period_duration: u128,
    /// Periods during which a proposal can be voted on.
    pub voting_period_length: u128,
    /// Periods between the end of voting and processing.
    pub grace_period_length: u128,
    /// Deposit a sponsor posts, in the deposit token.
    pub proposal_deposit: u128,
    /// Largest growth of shares and loot tolerated between a Yes vote and processing.
    pub dilution_bound: u128,
    /// Paid out of the deposit to whoever processes a proposal.
    pub processing_reward: u128,
    /// All proposals, at the position of their id.
    pub proposals: Vec<Proposal>,
    /// The details text of each proposal, at the position of its id.
    pub proposal_details: Vec<String>,
    /// The ids of sponsored proposals, in the order they were sponsored.
    pub proposal_queue: Vec<ProposalId>,
    /// The votes cast so far.
    pub votes: Vec<VoteRecord>,
    pub proposal_count: u128,
    pub total_shares: u128,
    pub total_loot: u128,
    pub summoning_time: u64,
    /// The events emitted so far, oldest first.
    pub events: Vec<Event>,
}

/// The last vote of `m` on the queued proposal at `index` in `s`, or no vote.
pub open spec fn vote_in(s: Seq<VoteRecord>, index: int, m: AccountId) -> Vote
    decreases s.len(),
{
    if s.len() == 0 {
        Vote::Null
    } else if s.last().proposal_index == index && s.last().member == m {
        s.last().vote
    } else {
        vote_in(s.drop_last(), index, m)
    }
}

/// The proposal at position `k` of `queue`.
pub open spec fn queued_in(proposals: Seq<Proposal>, queue: Seq<ProposalId>, k: int) -> Proposal {
    proposals[queue[k] as int]
}

/// What holds of every proposal, given the approved tokens.
pub open spec fn proposal_ok(tokens: Seq<AccountId>, p: Proposal) -> bool {
    &&& p.shares_requested + p.loot_requested <= MAX_NUMBER_OF_SHARES_AND_LOOT
    &&& p.max_total_shares_and_loot_at_yes_vote <= MAX_NUMBER_OF_SHARES_AND_LOOT
    &&& !is_reserved(p.proposer)
    &&& !(p.flags.whitelist && p.flags.guildkick)
    &&& p.is_standard() ==> {
        &&& p.applicant is Some
        &&& !is_reserved(p.applicant.unwrap())
        &&& p.applicant.unwrap() != zero_account()
        &&& p.tribute_offered is Some
        &&& p.payment_requested is Some
        &&& (p.tribute_token matches Some(t) && tokens.contains(t))
        &&& (p.payment_token matches Some(t) && tokens.contains(t))
    }
    &&& p.flags.whitelist ==> (p.tribute_token matches Some(t) && t != zero_account())
    &&& p.flags.guildkick ==> p.applicant is Some
    &&& p.flags.sponsored ==> (p.sponsor matches Some(s) && !is_reserved(s))
    &&& p.flags.sponsored ==> !p.flags.cancelled
    &&& p.flags.processed ==> p.flags.sponsored
}

/// What holds of a proposal under some approved tokens holds under more.
pub proof fn lemma_proposal_ok_grow(tokens: Seq<AccountId>, t: AccountId, p: Proposal)
    requires
        proposal_ok(tokens, p),
    ensures
        proposal_ok(tokens.push(t), p),
{
    if p.is_standard() {
        let a = p.tribute_token.unwrap();
        let b = p.payment_token.unwrap();
        assert(tokens.push(t)[tokens.index_of(a)] == a);
        assert(tokens.push(t)[tokens.index_of(b)] == b);
    }
}

/// What proposal `p` keeps in escrow of token `t`: its tribute while it is an
/// open standard proposal, and the deposit, in the deposit token `dt`, while
/// it is sponsored and not processed.
pub open spec fn escrowed(p: Proposal, t: AccountId, dt: AccountId, deposit: u128) -> int {
    (if p.is_standard() && !p.flags.processed && !p.flags.cancelled && p.tribute_token == Some(t) {
        p.tribute_offered.unwrap() as int
    } else {
        0
    }) + (if p.flags.sponsored && !p.flags.processed && t == dt {
        deposit as int
    } else {
        0
    })
}

/// What all proposals keep in escrow of token `t`.
pub open spec fn escrow_owed(proposals: Seq<Proposal>, t: AccountId, dt: AccountId, deposit: u128) -> int {
    sum(proposals.map_values(|p: Proposal| escrowed(p, t, dt, deposit)))
}

pub proof fn lemma_owed_push(proposals: Seq<Proposal>, p: Proposal, dt: AccountId, deposit: u128)
    ensures
        forall|t: AccountId|
            #[trigger] escrow_owed(proposals.push(p), t, dt, deposit) == escrow_owed(proposals, t, dt, deposit) + escrowed(
                p,
                t,
                dt,
                deposit,
            ),
{
    assert forall|t: AccountId|
        #[trigger] escrow_owed(proposals.push(p), t, dt, deposit) == escrow_owed(proposals, t, dt, deposit) + escrowed(
            p,
            t,
            dt,
            deposit,
        ) by {
        let f = |q: Proposal| escrowed(q, t, dt, deposit);
        lemma_sum_push(proposals.map_values(f), escrowed(p, t, dt, deposit));
        assert(proposals.push(p).map_values(f) =~= proposals.map_values(f).push(escrowed(p, t, dt, deposit)));
    }
}

pub proof fn lemma_owed_nonneg(proposals: Seq<Proposal>, t: AccountId, dt: AccountId, deposit: u128)
    ensures
        escrow_owed(proposals, t, dt, deposit) >= 0,
{
    let f = |x: Proposal| escrowed(x, t, dt, deposit);
    assert(all_nonneg(proposals.map_values(f)));
    crate::utils::lemma_sum_nonneg(proposals.map_values(f));
}

pub proof fn lemma_owed_update(proposals: Seq<Proposal>, i: int, q: Proposal, dt: AccountId, deposit: u128)
    requires
        0 <= i < proposals.len(),
    ensures
        forall|t: AccountId|
            #[trigger] escrow_owed(proposals.update(i, q), t, dt, deposit) == escrow_owed(proposals, t, dt, deposit)
                - escrowed(proposals[i], t, dt, deposit) + escrowed(q, t, dt, deposit),
        forall|t: AccountId| escrowed(proposals[i], t, dt, deposit) <= #[trigger] escrow_owed(proposals, t, dt, deposit),
{
    assert forall|t: AccountId|
        #[trigger] escrow_owed(proposals.update(i, q), t, dt, deposit) == escrow_owed(proposals, t, dt, deposit)
            - escrowed(proposals[i], t, dt, deposit) + escrowed(q, t, dt, deposit) by {
        let f = |x: Proposal| escrowed(x, t, dt, deposit);
        lemma_sum_update(proposals.map_values(f), i, escrowed(q, t, dt, deposit));
        assert(proposals.update(i, q).map_values(f) =~= proposals.map_values(f).update(i, escrowed(q, t, dt, deposit)));
    }
    assert forall|t: AccountId| escrowed(proposals[i], t, dt, deposit) <= #[trigger] escrow_owed(proposals, t, dt, deposit) by {
        let f = |x: Proposal| escrowed(x, t, dt, deposit);
        assert(all_nonneg(proposals.map_values(f)));
        lemma_sum_ge_elem(proposals.map_values(f), i);
    }
}

impl Submoloch {
    /// Escrow holds, in every token, at least what the proposals keep there.
    pub open spec fn escrow_wf(&self) -> bool {
        forall|t: AccountId|
            #[trigger] self.bank.balance(escrow_account(), t) >= escrow_owed(
                self.proposals@,
                t,
                self.bank.approved_tokens@[0],
                self.proposal_deposit,
            )
    }

    pub open spec fn config_wf(&self) -> bool {
        &&& config_in_range(
            self.period_duration,
            self.voting_period_length,
            self.grace_period_length,
            self.dilution_bound,
            self.bank.approved_tokens@.len() as int,
        )
        &&& self.proposal_deposit >= self.processing_reward
    }

    /// Shares and loot are summed correctly, bounded, and members are real
    /// accounts with distinct delegate keys.
    pub open spec fn members_wf(&self) -> bool {
        &&& self.members.wf()
        &&& self.total_shares == self.members.share_sum()
        &&& self.total_loot == self.members.loot_sum()
        &&& self.total_shares + self.total_loot <= MAX_NUMBER_OF_SHARES_AND_LOOT
        &&& self.members.delegates_unique()
        &&& forall|a: AccountId| #[trigger] self.members.contains(a) ==> !is_reserved(a) && a != zero_account()
    }

    pub open spec fn proposal_wf(&self, p: Proposal) -> bool {
        proposal_ok(self.bank.approved_tokens@, p)
    }

    /// The sponsored proposal at position `k` of the queue.
    pub open spec fn queued(&self, k: int) -> Proposal {
        queued_in(self.proposals@, self.proposal_queue@, k)
    }

    pub open spec fn proposals_wf(&self) -> bool {
        &&& self.proposal_count == self.proposals@.len()
        &&& self.proposal_details@.len() == self.proposals@.len()
        &&& forall|i: int| 0 <= i < self.proposals@.len() ==> #[trigger] proposal_ok(self.bank.approved_tokens@, self.proposals@[i])
        &&& forall|k: int|
            0 <= k < self.proposal_queue@.len() ==> #[trigger] self.proposal_queue@[k] < self.proposals@.len()
                && queued_in(self.proposals@, self.proposal_queue@, k).flags.sponsored
        &&& forall|j: int, k: int|
            0 <= j < k < self.proposal_queue@.len() ==> #[trigger] queued_in(self.proposals@, self.proposal_queue@, j).starting_period
                <= #[trigger] queued_in(self.proposals@, self.proposal_queue@, k).starting_period
        &&& forall|k: int|
            0 <= k < self.votes@.len() ==> (#[trigger] self.votes@[k]).proposal_index < self.proposal_queue@.len()
                && self.votes@[k].vote != Vote::Null
        &&& forall|i: int|
            0 <= i < self.proposals@.len() && (#[trigger] self.proposals@[i]).flags.guildkick ==> self.members.contains(
                self.proposals@[i].applicant.unwrap(),
            )
        &&& forall|k: int|
            0 <= k < self.proposal_queue@.len() && (#[trigger] queued_in(self.proposals@, self.proposal_queue@, k)).flags.whitelist
                && !queued_in(self.proposals@, self.proposal_queue@, k).flags.processed
                ==> !self.bank.approved_tokens@.contains(queued_in(self.proposals@, self.proposal_queue@, k).tribute_token.unwrap())
        &&& forall|j: int, k: int|
            0 <= j < k < self.proposal_queue@.len() && (#[trigger] queued_in(self.proposals@, self.proposal_queue@, j)).flags.whitelist
                && !queued_in(self.proposals@, self.proposal_queue@, j).flags.processed && (#[trigger] queued_in(
                self.proposals@,
                self.proposal_queue@,
                k,
            )).flags.whitelist && !queued_in(self.proposals@, self.proposal_queue@, k).flags.processed ==> queued_in(
                self.proposals@,
                self.proposal_queue@,
                j,
            ).tribute_token != queued_in(self.proposals@, self.proposal_queue@, k).tribute_token
    }

    /// The invariant of the guild, kept by every operation.
    pub open spec fn wf(&self) -> bool {
        &&& self.config_wf()
        &&& self.bank.wf()
        &&& self.members_wf()
        &&& self.proposals_wf()
        &&& self.escrow_wf()
    }

    /// The member at address `a`, if any.
    pub open spec fn member(&self, a: AccountId) -> Option<Member> {
        self.members.get(a)
    }

    /// The internal balance of `u` in token `t`.
    pub open spec fn balance(&self, u: AccountId, t: AccountId) -> int {
        self.bank.balance(u, t)
    }

    /// The deposit token: the first approved token.
    pub open spec fn deposit_token_spec(&self) -> AccountId {
        self.bank.approved_tokens@[0]
    }

    /// The period at time `now`: whole periods since summoning.
    pub open spec fn period_at(&self, now: u64) -> int {
        if now >= self.summoning_time {
            (now - self.summoning_time) as int / self.period_duration as int
        } else {
            0
        }
    }

    /// The member that `key` is the delegate key of, if any.
    pub open spec fn delegate_member(&self, key: AccountId) -> Option<AccountId> {
        if exists|a: AccountId| #[trigger] self.members.contains(a) && self.members.get(a).unwrap().delegate_key == key {
            Some(choose|a: AccountId| #[trigger] self.members.contains(a) && self.members.get(a).unwrap().delegate_key == key)
        } else {
            None
        }
    }

    /// Whether a sponsored, unprocessed whitelist proposal names token `t`.
    pub open spec fn whitelist_reserved(&self, t: AccountId) -> bool {
        exists|k: int|
            0 <= k < self.proposal_queue@.len() && #[trigger] self.queued(k).flags.whitelist && !self.queued(k).flags.processed
                && self.queued(k).tribute_token == Some(t)
    }

    /// Whether a sponsored, unprocessed guildkick proposal names member `a`.
    pub open spec fn kick_reserved(&self, a: AccountId) -> bool {
        exists|k: int|
            0 <= k < self.proposal_queue@.len() && #[trigger] self.queued(k).flags.guildkick && !self.queued(k).flags.processed
                && self.queued(k).applicant == Some(a)
    }

    /// The starting period of the last queued proposal; 0 if the queue is empty.
    pub open spec fn last_starting_period(&self) -> int {
        if self.proposal_queue@.len() == 0 {
            0
        } else {
            self.queued(self.proposal_queue@.len() - 1).starting_period as int
        }
    }

    /// The vote of `m` on the queued proposal at `index`.
    pub open spec fn vote_of(&self, index: int, m: AccountId) -> Vote {
        vote_in(self.votes@, index, m)
    }

    /// Summons a guild with `summoner` as its one member, holding one share,
    /// and `approved_tokens` as its whitelist; the first token is the
    /// deposit token.
    pub fn new(
        summoner: AccountId,
        approved_tokens: Vec<AccountId>,
        period_duration: u128,
        voting_period_length: u128,
        grace_period_length: u128,
        proposal_deposit: u128,
        dilution_bound: u128,
        processing_reward: u128,
        now: u64,
    ) -> (r: Result<Submoloch, Error>)
        ensures
            summon_error(
                summoner,
                approved_tokens@,
                period_duration,
                voting_period_length,
                grace_period_length,
                proposal_deposit,
                dilution_bound,
                processing_reward,
            ) matches Some(e) ==> r == Err::<Submoloch, Error>(e),
            summon_error(
                summoner,
                approved_tokens@,
                period_duration,
                voting_period_length,
                grace_period_length,
                proposal_deposit,
                dilution_bound,
                processing_reward,
            ) is None ==> r is Ok,
            r matches Ok(s) ==> {
                &&& s.wf()
                &&& s.member(summoner) == Some(Member::spec_new(summoner))
                &&& forall|a: AccountId| a != summoner ==> #[trigger] s.member(a) is None
                &&& s.total_shares == 1
                &&& s.total_loot == 0
                &&& s.bank.approved_tokens@ == approved_tokens@
                &&& forall|u: AccountId, t: AccountId| #[trigger] s.balance(u, t) == 0
                &&& s.bank.total_guild_bank_tokens == 0
                &&& s.period_duration == period_duration
                &&& s.voting_period_length == voting_period_length
                &&& s.grace_period_length == grace_period_length
                &&& s.proposal_deposit == proposal_deposit
                &&& s.dilution_bound == dilution_bound
                &&& s.processing_reward == processing_reward
                &&& s.summoning_time == now
                &&& s.proposals@.len() == 0
                &&& s.proposal_queue@.len() == 0
                &&& s.votes@.len() == 0
                &&& s.events@.len() == 1
            },
    {
        if summoner.is_zero() {
            return Err(Error::ZeroAddress);
        }
        if crate::account::reserved(summoner) {
            return Err(Error::ReservedAccount);
        }
        if period_duration == 0 || voting_period_length == 0 || voting_period_length > MAX_VOTING_PERIOD_LENGTH
            || grace_period_length > MAX_GRACE_PERIOD_LENGTH || dilution_bound == 0 || dilution_bound
            > MAX_DILUTION_BOUND || approved_tokens.len() == 0 || approved_tokens.len() as u128
            > MAX_TOKEN_WHITELIST_COUNT {
            return Err(Error::InvalidConfig);
        }
        if proposal_deposit < processing_reward {
            return Err(Error::DepositLessThanReward);
        }
        let mut i: usize = 0;
        while i < approved_tokens.len()
            invariant
                summoner != zero_account(),
                !is_reserved(summoner),
                config_in_range(period_duration, voting_period_length, grace_period_length, dilution_bound, approved_tokens@.len() as int),
                proposal_deposit >= processing_reward,
                i <= approved_tokens@.len(),
                forall|j: int| 0 <= j < i ==> #[trigger] approved_tokens@[j] != zero_account(),
            decreases approved_tokens@.len() - i,
        {
            if approved_tokens[i].is_zero() {
                proof {
                    assert(approved_tokens@[i as int] == zero_account());
                    assert(approved_tokens@.contains(zero_account()));
                }
                return Err(Error::ZeroAddress);
            }
            i = i + 1;
        }
        proof {
            assert(!approved_tokens@.contains(zero_account()));
        }
        let mut bank = Bank::new();
        let mut i: usize = 0;
        while i < approved_tokens.len()
            invariant
                summoner != zero_account(),
                !is_reserved(summoner),
                config_in_range(period_duration, voting_period_length, grace_period_length, dilution_bound, approved_tokens@.len() as int),
                proposal_deposit >= processing_reward,
                i <= approved_tokens@.len(),
                approved_tokens@.len() <= MAX_TOKEN_WHITELIST_COUNT,
                !approved_tokens@.contains(zero_account()),
                bank.wf(),
                bank.approved_tokens@ == approved_tokens@.subrange(0, i as int),
                bank.total_guild_bank_tokens == 0,
                forall|u: AccountId, t: AccountId| #[trigger] bank.balance(u, t) == 0,
            decreases approved_tokens@.len() - i,
        {
            let t = approved_tokens[i];
            if bank.whitelisted(t) {
                proof {
                    let j = bank.approved_tokens@.index_of(t);
                    assert(bank.approved_tokens@.contains(t));
                    assert(bank.approved_tokens@[j] == t);
                    assert(approved_tokens@[j] == t);
                    assert(approved_tokens@[i as int] == t);
                    assert(j < i);
                    assert(!approved_tokens@.no_duplicates());
                }
                return Err(Error::DuplicateToken);
            }
            proof {
                assert(approved_tokens@.contains(t));
            }
            bank.whitelist(t);
            proof {
                assert(bank.approved_tokens@ =~= approved_tokens@.subrange(0, i + 1));
            }
            i = i + 1;
        }
        proof {
            assert(bank.approved_tokens@ =~= approved_tokens@);
        }
        let mut members = Members::new();
        let first = Member::new(summoner);
        members.insert(summoner, first);
        let event = SummonComplete {
            summoner,
            tokens: approved_tokens,
            summoning_time: now,
            period_duration,
            voting_period_length,
            grace_period_length,
            proposal_deposit,
            dilution_bound,
            processing_reward,
        };
        let mut events = Vec::new();
        events.push(Event::SummonComplete(event));
        let s = Submoloch {
            members,
            bank,
            period_duration,
            voting_period_length,
            grace_period_length,
            proposal_deposit,
            dilution_bound,
            processing_reward,
            proposals: Vec::new(),
            proposal_details: Vec::new(),
            proposal_queue: Vec::new(),
            votes: Vec::new(),
            proposal_count: 0,
            total_shares: 1,
            total_loot: 0,
            summoning_time: now,
            events,
        };
        proof {
            assert forall|a: AccountId, b: AccountId|
                #![trigger s.members.get(a), s.members.get(b)]
                s.members.contains(a) && s.members.contains(b) && a != b implies s.members.get(a).unwrap().delegate_key
                != s.members.get(b).unwrap().delegate_key && s.members.get(a).unwrap().delegate_key != b by {}
        }
        Ok(s)
    }
}

impl Submoloch {
    /// The configuration and summoning time are those of `o`.
    pub open spec fn same_config(&self, o: &Submoloch) -> bool {
        &&& self.period_duration == o.period_duration
        &&& self.voting_period_length == o.voting_period_length
        &&& self.grace_period_length == o.grace_period_length
        &&& self.proposal_deposit == o.proposal_deposit
        &&& self.dilution_bound == o.dilution_bound
        &&& self.processing_reward == o.processing_reward
        &&& self.summoning_time == o.summoning_time
    }

    /// The members and their totals are those of `o`.
    pub open spec fn same_members(&self, o: &Submoloch) -> bool {
        &&& self.members == o.members
        &&& self.total_shares == o.total_shares
        &&& self.total_loot == o.total_loot
    }

    /// The proposals, the queue and the votes are those of `o`.
    pub open spec fn same_proposals(&self, o: &Submoloch) -> bool {
        &&& self.proposals == o.proposals
        &&& self.proposal_details == o.proposal_details
        &&& self.proposal_count == o.proposal_count
        &&& self.proposal_queue == o.proposal_queue
        &&& self.votes == o.votes
    }

    /// Whether `n` keeps the history of `self`: proposals are only ever
    /// added, a proposal once processed or cancelled stays so, and members
    /// are never removed.
    pub open spec fn keeps_history(&self, n: &Submoloch) -> bool {
        &&& self.proposals@.len() <= n.proposals@.len()
        &&& forall|i: int|
            0 <= i < self.proposals@.len() ==> (#[trigger] self.proposals@[i].flags.processed ==> n.proposals@[i].flags.processed)
                && (self.proposals@[i].flags.cancelled ==> n.proposals@[i].flags.cancelled)
        &&& forall|a: AccountId| #[trigger] self.members.contains(a) ==> n.members.contains(a)
    }

    /// If `a` is a member, it is the one member that its delegate key resolves to.
    pub proof fn lemma_delegate_member(&self, a: AccountId)
        requires
            self.members_wf(),
            self.members.contains(a),
        ensures
            self.delegate_member(self.members.get(a).unwrap().delegate_key) == Some(a),
    {
        let key = self.members.get(a).unwrap().delegate_key;
        assert(self.members.contains(a) && self.members.get(a).unwrap().delegate_key == key);
        let b = choose|b: AccountId| #[trigger] self.members.contains(b) && self.members.get(b).unwrap().delegate_key == key;
        if b != a {
            assert(self.members.get(a).unwrap().delegate_key != self.members.get(b).unwrap().delegate_key);
        }
    }

    /// The member that `key` is the delegate key of, with its record.
    pub fn resolve_delegate(&self, key: AccountId) -> (r: Option<(AccountId, Member)>)
        requires
            self.members_wf(),
        ensures
            r matches Some((a, m)) ==> self.delegate_member(key) == Some(a) && self.member(a) == Some(m)
                && m.delegate_key == key,
            r is None ==> self.delegate_member(key) is None,
    {
        match self.members.address_by_delegate_key(key) {
            Some(a) => {
                proof {
                    self.lemma_delegate_member(a);
                }
                let m = self.members.get_member(a).unwrap();
                Some((a, m))
            },
            None => None,
        }
    }

    /// The current period at time `now`.
    pub fn get_current_period(&self, now: u64) -> (r: u128)
        requires
            self.config_wf(),
        ensures
            r == self.period_at(now),
    {
        if now >= self.summoning_time {
            ((now - self.summoning_time) as u128) / self.period_duration
        } else {
            0
        }
    }
}

impl Member {
    pub open spec fn spec_new(delegate_key: AccountId) -> Member {
        Member { delegate_key, shares: 1, loot: 0, exists: true, highest_index_yes_vote: 0, jailed: 0 }
    }
}

} // verus!
