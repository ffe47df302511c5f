//! Construction parameters of the guild, and a builder that fills in
//! defaults and checks them.
use vstd::prelude::*;

use crate::account::AccountId;
use crate::constant::{MAX_DILUTION_BOUND, MAX_GRACE_PERIOD_LENGTH, MAX_TOKEN_WHITELIST_COUNT, MAX_VOTING_PERIOD_LENGTH};

verus! {

/// Default seconds per period: 4.8 hours, five periods a day.
pub const DEFAULT_PERIOD_DURATION: u16 = 17280;

/// Default voting period: 35 periods, seven days.
pub const DEFAULT_VOTING_PERIOD_LENGTH: u128 = 35;

/// Default grace period: 35 periods, seven days.
pub const DEFAULT_GRACE_PERIOD_LENGTH: u128 = 35;

/// Default proposal deposit.
pub const DEFAULT_PROPOSAL_DEPOSIT: u128 = 10;

/// Default dilution bound.
pub const DEFAULT_DILUTION_BOUND: u128 = 3;

/// Default processing reward.
pub const DEFAULT_PROCESSING_REWARD: u128 = 1;

/// The construction parameters of a guild.
#[derive(Clone, Debug, PartialEq, Eq)]
pub struct Config {
    pub approved_tokens: Vec<AccountId>,
    pub period_duration: u16,
    pub voting_period_length: u128,
    pub grace_period_length: u128,
    pub proposal_deposit: u128,
    pub dilution_bound: u128,
    pub processing_reward: u128,
}

/// Collects construction parameters; those left unset take their defaults.
pub struct ConfigBuilder {
    pub approved_tokens: Option<Vec<AccountId>>,
    pub period_duration: Option<u16>,
    pub voting_period_length: Option<u128>,
    pub grace_period_length: Option<u128>,
    pub proposal_deposit: Option<u128>,
    pub dilution_bound: Option<u128>,
    pub processing_reward: Option<u128>,
}

impl Default for ConfigBuilder {
    fn default() -> (r: ConfigBuilder)
        ensures
            r.approved_tokens is None,
            r.period_duration is None,
            r.voting_period_length is None,
            r.grace_period_length is None,
            r.proposal_deposit is None,
            r.dilution_bound is None,
            r.processing_reward is None,
    {
        ConfigBuilder {
            approved_tokens: None,
            period_duration: None,
            voting_period_length: None,
            grace_period_length: None,
            proposal_deposit: None,
            dilution_bound: None,
            processing_reward: None,
        }
    }
}

/// A set value, or the default.
pub open spec fn or_default<T>(v: Option<T>, d: T) -> T {
    match v {
        Some(x) => x,
        None => d,
    }
}

impl ConfigBuilder {
    /// The proposal deposit that will be built.
    pub open spec fn deposit_spec(&self) -> u128 {
        or_default(self.proposal_deposit, DEFAULT_PROPOSAL_DEPOSIT)
    }

    /// The processing reward that will be built.
    pub open spec fn reward_spec(&self) -> u128 {
        or_default(self.processing_reward, DEFAULT_PROCESSING_REWARD)
    }

    /// Whether the parameters that will be built are within their bounds:
    /// a token list that is set holds 1 to 400 tokens, the period duration
    /// and voting period are positive, voting and grace periods and the
    /// dilution bound do not exceed their limits, the dilution bound is
    /// positive, and the deposit covers the processing reward.
    pub open spec fn in_bounds(&self) -> bool {
        &&& self.approved_tokens matches Some(v) ==> 1 <= v@.len() <= MAX_TOKEN_WHITELIST_COUNT
        &&& self.period_duration != Some(0u16)
        &&& self.voting_period_length matches Some(n) ==> 1 <= n <= MAX_VOTING_PERIOD_LENGTH
        &&& self.grace_period_length matches Some(n) ==> n <= MAX_GRACE_PERIOD_LENGTH
        &&& self.dilution_bound matches Some(n) ==> 1 <= n <= MAX_DILUTION_BOUND
        &&& self.deposit_spec() >= self.reward_spec()
    }

    pub fn approved_tokens(self, v: Vec<AccountId>) -> (r: ConfigBuilder)
        ensures
            r == (ConfigBuilder { approved_tokens: Some(v), ..self }),
    {
        ConfigBuilder { approved_tokens: Some(v), ..self }
    }

    pub fn period_duration(self, v: u16) -> (r: ConfigBuilder)
        ensures
            r == (ConfigBuilder { period_duration: Some(v), ..self }),
    {
        ConfigBuilder { period_duration: Some(v), ..self }
    }

    pub fn voting_period_length(self, v: u128) -> (r: ConfigBuilder)
        ensures
            r == (ConfigBuilder { voting_period_length: Some(v), ..self }),
    {
        ConfigBuilder { voting_period_length: Some(v), ..self }
    }

    pub fn grace_period_length(self, v: u128) -> (r: ConfigBuilder)
        ensures
            r == (ConfigBuilder { grace_period_length: Some(v), ..self }),
    {
        ConfigBuilder { grace_period_length: Some(v), ..self }
    }

    pub fn proposal_deposit(self, v: u128) -> (r: ConfigBuilder)
        ensures
            r == (ConfigBuilder { proposal_deposit: Some(v), ..self }),
    {
        ConfigBuilder { proposal_deposit: Some(v), ..self }
    }

    pub fn dilution_bound(self, v: u128) -> (r: ConfigBuilder)
        ensures
            r == (ConfigBuilder { dilution_bound: Some(v), ..self }),
    {
        ConfigBuilder { dilution_bound: Some(v), ..self }
    }

    pub fn processing_reward(self, v: u128) -> (r: ConfigBuilder)
        ensures
            r == (ConfigBuilder { processing_reward: Some(v), ..self }),
    {
        ConfigBuilder { processing_reward: Some(v), ..self }
    }

    /// A token list that is set holds 1 to 400 tokens.
    fn validate_approved_tokens(&self) -> (r: Result<(), String>)
        ensures
            r is Ok <==> (self.approved_tokens matches Some(v) ==> 1 <= v@.len() <= MAX_TOKEN_WHITELIST_COUNT),
    {
        if let Some(tokens) = &self.approved_tokens {
            if tokens.len() == 0 {
                return Err("need at least one approved token".to_owned());
            }
            if tokens.len() as u128 > MAX_TOKEN_WHITELIST_COUNT {
                return Err("too many tokens".to_owned());
            }
        }
        Ok(())
    }

    /// A period duration that is set is positive.
    fn validate_period_duration(&self) -> (r: Result<(), String>)
        ensures
            r is Ok <==> self.period_duration != Some(0u16),
    {
        match self.period_duration {
            Some(0) => Err("period_duration can not be zero".to_owned()),
            _ => Ok(()),
        }
    }

    /// A voting period that is set is positive and within its limit.
    fn validate_voting_period_length(&self) -> (r: Result<(), String>)
        ensures
            r is Ok <==> (self.voting_period_length matches Some(n) ==> 1 <= n <= MAX_VOTING_PERIOD_LENGTH),
    {
        match self.voting_period_length {
            Some(0) => Err("voting_period_length can not be zero".to_owned()),
            Some(n) if n > MAX_VOTING_PERIOD_LENGTH => Err("voting_period_length exceeds limit".to_owned()),
            _ => Ok(()),
        }
    }

    /// A grace period that is set is within its limit.
    fn validate_grace_period_length(&self) -> (r: Result<(), String>)
        ensures
            r is Ok <==> (self.grace_period_length matches Some(n) ==> n <= MAX_GRACE_PERIOD_LENGTH),
    {
        match self.grace_period_length {
            Some(n) if n > MAX_GRACE_PERIOD_LENGTH => Err("grace_period_length exceeds limit".to_owned()),
            _ => Ok(()),
        }
    }

    /// The deposit that will be built covers the processing reward.
    fn validate_proposal_deposit(&self) -> (r: Result<(), String>)
        ensures
            r is Ok <==> self.deposit_spec() >= self.reward_spec(),
    {
        let deposit = match self.proposal_deposit {
            Some(n) => n,
            None => DEFAULT_PROPOSAL_DEPOSIT,
        };
        let reward = match self.processing_reward {
            Some(n) => n,
            None => DEFAULT_PROCESSING_REWARD,
        };
        if deposit < reward {
            Err("proposal_deposit cannot be smaller than processing_reward".to_owned())
        } else {
            Ok(())
        }
    }

    /// A dilution bound that is set is positive and within its limit.
    fn validate_dilution_bound(&self) -> (r: Result<(), String>)
        ensures
            r is Ok <==> (self.dilution_bound matches Some(n) ==> 1 <= n <= MAX_DILUTION_BOUND),
    {
        match self.dilution_bound {
            Some(0) => Err("dilution_bound cannot be 0".to_owned()),
            Some(n) if n > MAX_DILUTION_BOUND => Err("dilution bound exceeds limit".to_owned()),
            _ => Ok(()),
        }
    }

    /// Checks the parameters that will be built; the error says which is wrong.
    pub fn validate(&self) -> (r: Result<(), String>)
        ensures
            r is Ok <==> self.in_bounds(),
    {
        self.validate_approved_tokens()?;
        self.validate_period_duration()?;
        self.validate_voting_period_length()?;
        self.validate_grace_period_length()?;
        self.validate_proposal_deposit()?;
        self.validate_dilution_bound()
    }

    /// Builds the configuration, with defaults for what was not set, if
    /// it is within its bounds.
    pub fn build(self) -> (r: Result<Config, String>)
        ensures
            r is Ok <==> self.in_bounds(),
            r matches Ok(c) ==> {
                &&& c.approved_tokens@ == match self.approved_tokens {
                    Some(v) => v@,
                    None => Seq::<AccountId>::empty(),
                }
                &&& c.period_duration == or_default(self.period_duration, DEFAULT_PERIOD_DURATION)
                &&& c.voting_period_length == or_default(self.voting_period_length, DEFAULT_VOTING_PERIOD_LENGTH)
                &&& c.grace_period_length == or_default(self.grace_period_length, DEFAULT_GRACE_PERIOD_LENGTH)
                &&& c.proposal_deposit == self.deposit_spec()
                &&& c.dilution_bound == or_default(self.dilution_bound, DEFAULT_DILUTION_BOUND)
                &&& c.processing_reward == self.reward_spec()
            },
    {
        match self.validate() {
            Err(e) => Err(e),
            Ok(()) => {
                let approved_tokens = match self.approved_tokens {
                    Some(v) => v,
                    None => Vec::new(),
                };
                Ok(
                    Config {
                        approved_tokens,
                        period_duration: match self.period_duration {
                            Some(n) => n,
                            None => DEFAULT_PERIOD_DURATION,
                        },
                        voting_period_length: match self.voting_period_length {
                            Some(n) => n,
                            None => DEFAULT_VOTING_PERIOD_LENGTH,
                        },
                        grace_period_length: match self.grace_period_length {
                            Some(n) => n,
                            None => DEFAULT_GRACE_PERIOD_LENGTH,
                        },
                        proposal_deposit: match self.proposal_deposit {
                            Some(n) => n,
                            None => DEFAULT_PROPOSAL_DEPOSIT,
                        },
                        dilution_bound: match self.dilution_bound {
                            Some(n) => n,
                            None => DEFAULT_DILUTION_BOUND,
                        },
                        processing_reward: match self.processing_reward {
                            Some(n) => n,
                            None => DEFAULT_PROCESSING_REWARD,
                        },
                    },
                )
            },
        }
    }
}

} // verus!
