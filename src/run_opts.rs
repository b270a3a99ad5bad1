use vstd::prelude::*;
use crate::error::ConfigError;

verus! {

/// How many transactions a run submits per period, for how many periods.
#[derive(Debug, Clone)]
pub struct RunOpts {
    pub txs_per_period: u64,
    pub periods: u64,
    pub name: Option<String>,
}

impl RunOpts {
    /// Options of one period of one transaction, with no name.
    pub fn new() -> (r: RunOpts)
        ensures
            r.txs_per_period == 1,
            r.periods == 1,
            r.name.is_none(),
    {
        RunOpts { txs_per_period: 1, periods: 1, name: None }
    }

    pub fn txs_per_period(self, n: u64) -> (r: RunOpts)
        ensures
            r.txs_per_period == n,
            r.periods == self.periods,
            r.name == self.name,
    {
        RunOpts { txs_per_period: n, ..self }
    }

    pub fn periods(self, n: u64) -> (r: RunOpts)
        ensures
            r.periods == n,
            r.txs_per_period == self.txs_per_period,
            r.name == self.name,
    {
        RunOpts { periods: n, ..self }
    }

    pub fn name(self, label: &str) -> (r: RunOpts)
        ensures
            r.name is Some,
            r.name.unwrap()@ == label@,
            r.txs_per_period == self.txs_per_period,
            r.periods == self.periods,
    {
        RunOpts { name: Some(label.to_string()), ..self }
    }

    /// The options that a scheduler accepts: both counts positive, and the
    /// whole schedule countable in a `u64`.
    pub open spec fn valid(&self) -> bool {
        self.txs_per_period >= 1 && self.periods >= 1
            && self.periods * self.txs_per_period <= u64::MAX
    }

    /// What `validate` returns.
    pub open spec fn validate_spec(&self) -> Result<(), ConfigError> {
        if self.periods == 0 {
            Err(ConfigError::ZeroPeriods)
        } else if self.txs_per_period == 0 {
            Err(ConfigError::ZeroTxsPerPeriod)
        } else if !self.valid() {
            Err(ConfigError::TooLarge)
        } else {
            Ok(())
        }
    }

    /// The number of submissions a complete run makes.
    pub open spec fn total_spec(&self) -> int {
        self.periods * self.txs_per_period
    }

    /// Checks the options; a zero period count is reported before a zero
    /// transaction count.
    pub fn validate(&self) -> (r: Result<(), ConfigError>)
        ensures
            r == self.validate_spec(),
            r is Ok <==> self.valid(),
    {
        if self.periods == 0 {
            Err(ConfigError::ZeroPeriods)
        } else if self.txs_per_period == 0 {
            Err(ConfigError::ZeroTxsPerPeriod)
        } else if self.periods.checked_mul(self.txs_per_period).is_none() {
            Err(ConfigError::TooLarge)
        } else {
            Ok(())
        }
    }

    /// The number of submissions a complete run makes.
    pub fn total_txs(&self) -> (r: u64)
        requires
            self.valid(),
        ensures
            r == self.total_spec(),
    {
        self.periods * self.txs_per_period
    }
}

} // verus!
