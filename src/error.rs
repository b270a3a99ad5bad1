use vstd::prelude::*;

verus! {

/// A structural misconfiguration, found before any network activity.
#[derive(Debug, Clone, Copy, PartialEq, Eq, Structural)]
pub enum ConfigError {
    /// The test definition holds no transaction template.
    EmptyDefinition,
    /// Two agent pools carry the same name.
    DuplicatePool,
    /// A transaction template names a pool that was not allocated.
    MissingPool,
    /// The run was asked for zero periods.
    ZeroPeriods,
    /// The run was asked for zero transactions per period.
    ZeroTxsPerPeriod,
    /// The requested counts do not fit the machine's integers.
    TooLarge,
}

/// Why a scenario could not be bound to its endpoint.
#[derive(Debug, Clone, Copy, PartialEq, Eq, Structural)]
pub enum ConnectivityError {
    /// The endpoint did not answer the liveness check in time.
    Unreachable,
    /// The endpoint answered with a network identity other than the expected one.
    IdentityMismatch,
    /// The persistence backend could not be opened.
    BackendUnavailable,
}

} // verus!
