use vstd::prelude::*;
use crate::error::{ConfigError, ConnectivityError};
use crate::pools::{Agent, AgentPools, Seed, Transfer};

verus! {

/// A transaction template: a destination, which may be a placeholder, and
/// the pool its senders are drawn from.
#[derive(Debug, Clone)]
pub struct FunctionCallDefinition {
    pub to: String,
    pub from_pool: Option<String>,
}

/// One kind of transaction that a test submits.
#[derive(Debug, Clone)]
pub enum SpamRequest {
    Tx(FunctionCallDefinition),
}

/// A parsed test definition.
#[derive(Debug, Clone)]
pub struct TestConfig {
    pub spam: Vec<SpamRequest>,
}

/// Where run records are kept.
#[derive(Debug, Clone)]
pub enum Backend {
    /// No store: only a collector that records nothing can run.
    Absent,
    /// An in-memory store that lives as long as the process.
    Ephemeral,
    /// A durable store in the file at this path.
    File(String),
}

/// Everything a run is built from, checked for structural consistency.
#[derive(Debug, Clone)]
pub struct ContenderCtx {
    pub config: TestConfig,
    pub pools: AgentPools,
    pub seed: Seed,
    pub rpc_url: String,
    pub backend: Backend,
    pub funding: Option<u128>,
}

/// What the endpoint's liveness check found.
#[derive(Debug, Clone, Copy, PartialEq, Eq, Structural)]
pub enum Liveness {
    Reachable { chain_id: u64 },
    Unreachable,
}

/// A context bound to a live endpoint, with the funding that must be sent
/// before the first run.
#[derive(Debug, Clone)]
pub struct ScenarioPlan {
    pub chain_id: u64,
    pub funding: Vec<Transfer>,
}

/// Where a submission goes.
#[derive(Debug, Clone)]
pub enum Target {
    /// Back to the agent that sends it.
    Sender(Agent),
    /// To the destination as written.
    Literal(String),
}

/// A template bound to a concrete sender.
#[derive(Debug, Clone)]
pub struct Submission {
    pub from: Agent,
    pub to: Target,
}

/// The placeholder that stands for the sending agent.
pub open spec fn sender_placeholder() -> Seq<char> {
    seq!['{', '_', 's', 'e', 'n', 'd', 'e', 'r', '}']
}

impl FunctionCallDefinition {
    pub fn new(to: &str) -> (r: FunctionCallDefinition)
        ensures
            r.to@ == to@,
            r.from_pool is None,
    {
        FunctionCallDefinition { to: to.to_string(), from_pool: None }
    }

    pub fn with_from_pool(self, pool: &str) -> (r: FunctionCallDefinition)
        ensures
            r.to == self.to,
            r.from_pool is Some,
            r.from_pool.unwrap()@ == pool@,
    {
        FunctionCallDefinition { from_pool: Some(pool.to_string()), ..self }
    }

    /// Whether the destination is the sender placeholder.
    pub fn targets_sender(&self) -> (r: bool)
        ensures
            r == (self.to@ == sender_placeholder()),
    {
        let p: String = "{_sender}".to_string();
        proof {
            reveal_strlit("{_sender}");
            assert("{_sender}"@ =~= sender_placeholder());
        }
        self.to == p
    }
}

impl SpamRequest {
    pub fn new_tx(def: &FunctionCallDefinition) -> (r: SpamRequest)
        ensures
            r == SpamRequest::Tx(*def),
    {
        SpamRequest::Tx(FunctionCallDefinition { to: def.to.clone(), from_pool: def.from_pool.clone() })
    }

    pub open spec fn def(&self) -> FunctionCallDefinition {
        match self {
            SpamRequest::Tx(d) => *d,
        }
    }
}

impl TestConfig {
    /// A definition with no templates.
    pub fn new() -> (r: TestConfig)
        ensures
            r.spam@.len() == 0,
    {
        TestConfig { spam: Vec::new() }
    }

    pub fn with_spam(self, spam: Vec<SpamRequest>) -> (r: TestConfig)
        ensures
            r.spam@ == spam@,
    {
        TestConfig { spam }
    }
}

/// Some pool is named `name`.
pub open spec fn has_pool(pools: AgentPools, name: Seq<char>) -> bool {
    exists|p: int| 0 <= p < pools.pools.len() && (#[trigger] pools.pools[p]).name@ == name
}

/// Every template that draws from a pool names one that exists.
pub open spec fn references_resolve(config: TestConfig, pools: AgentPools) -> bool {
    forall|k: int| 0 <= k < config.spam.len() ==>
        (#[trigger] config.spam[k]).def().from_pool is Some
            ==> has_pool(pools, config.spam[k].def().from_pool.unwrap()@)
}

/// No two pools share a name.
pub open spec fn pool_names_distinct(pools: AgentPools) -> bool {
    forall|p: int, q: int| 0 <= p < q < pools.pools.len() ==>
        (#[trigger] pools.pools[p]).name@ != (#[trigger] pools.pools[q]).name@
}

/// What building a context from `config` and `pools` yields: the first
/// structural fault found, in this order, or success.
pub open spec fn build_spec(config: TestConfig, pools: AgentPools) -> Result<(), ConfigError> {
    if config.spam.len() == 0 {
        Err(ConfigError::EmptyDefinition)
    } else if !pool_names_distinct(pools) {
        Err(ConfigError::DuplicatePool)
    } else if !references_resolve(config, pools) {
        Err(ConfigError::MissingPool)
    } else {
        Ok(())
    }
}

fn pools_distinct(pools: &AgentPools) -> (r: bool)
    ensures
        r == pool_names_distinct(*pools),
{
    let n = pools.pools.len();
    let mut j: usize = 0;
    while j < n
        invariant
            n == pools.pools.len(),
            j <= n,
            forall|a: int, b: int| 0 <= a < b < j ==> (#[trigger] pools.pools[a]).name@ != (#[trigger] pools.pools[b]).name@,
        decreases n - j,
    {
        let mut i: usize = 0;
        while i < j
            invariant
                n == pools.pools.len(),
                i <= j < n,
                forall|a: int, b: int| 0 <= a < b < j ==> (#[trigger] pools.pools[a]).name@ != (#[trigger] pools.pools[b]).name@,
                forall|a: int| 0 <= a < i ==> (#[trigger] pools.pools[a]).name@ != pools.pools[j as int].name@,
            decreases j - i,
        {
            if pools.pools[i].name == pools.pools[j].name {
                return false;
            }
            i = i + 1;
        }
        j = j + 1;
    }
    true
}

fn references_ok(config: &TestConfig, pools: &AgentPools) -> (r: bool)
    ensures
        r == references_resolve(*config, *pools),
{
    let mut k: usize = 0;
    while k < config.spam.len()
        invariant
            k <= config.spam.len(),
            forall|m: int| 0 <= m < k ==>
                (#[trigger] config.spam[m]).def().from_pool is Some
                    ==> has_pool(*pools, config.spam[m].def().from_pool.unwrap()@),
        decreases config.spam.len() - k,
    {
        match &config.spam[k] {
            SpamRequest::Tx(def) => {
                match &def.from_pool {
                    Some(name) => {
                        let found = pools.find_pool(name);
                        if found.is_none() {
                            assert(!has_pool(*pools, name@));
                            return false;
                        }
                    },
                    None => {},
                }
            },
        }
        k = k + 1;
    }
    true
}

impl ContenderCtx {
    /// Aggregates a run's inputs; no network is touched. Fails on an empty
    /// definition, on two pools of one name, or on a template that names a
    /// pool that does not exist.
    pub fn build(
        config: TestConfig,
        pools: AgentPools,
        seed: Seed,
        rpc_url: String,
        backend: Backend,
        funding: Option<u128>,
    ) -> (r: Result<ContenderCtx, ConfigError>)
        ensures
            build_spec(config, pools) is Ok <==> r is Ok,
            r is Err ==> build_spec(config, pools) == Err::<(), ConfigError>(r->Err_0),
            r is Ok ==> (r == Ok::<ContenderCtx, ConfigError>(
                ContenderCtx { config, pools, seed, rpc_url, backend, funding },
            )),
    {
        if config.spam.len() == 0 {
            Err(ConfigError::EmptyDefinition)
        } else if !pools_distinct(&pools) {
            Err(ConfigError::DuplicatePool)
        } else if !references_ok(&config, &pools) {
            Err(ConfigError::MissingPool)
        } else {
            Ok(ContenderCtx { config, pools, seed, rpc_url, backend, funding })
        }
    }

    /// What binding to the endpoint yields, given what its liveness check
    /// found and whether the backend opened.
    pub open spec fn bind_spec(&self, expected_chain: Option<u64>, liveness: Liveness, backend_opened: bool)
        -> Result<u64, ConnectivityError>
    {
        match liveness {
            Liveness::Unreachable => Err(ConnectivityError::Unreachable),
            Liveness::Reachable { chain_id } =>
                if expected_chain is Some && expected_chain.unwrap() != chain_id {
                    Err(ConnectivityError::IdentityMismatch)
                } else if !(self.backend is Absent) && !backend_opened {
                    Err(ConnectivityError::BackendUnavailable)
                } else {
                    Ok(chain_id)
                },
        }
    }

    /// Binds the context to its endpoint. Nothing is funded unless the
    /// endpoint answered with the expected identity and the backend opened;
    /// then every unfunded agent is funded once, if an amount is set.
    pub fn build_scenario(&self, expected_chain: Option<u64>, liveness: Liveness, backend_opened: bool)
        -> (r: Result<ScenarioPlan, ConnectivityError>)
        ensures
            r is Ok <==> self.bind_spec(expected_chain, liveness, backend_opened) is Ok,
            r is Err ==> self.bind_spec(expected_chain, liveness, backend_opened)
                == Err::<u64, ConnectivityError>(r->Err_0),
            r is Ok ==> {
                &&& Ok::<u64, ConnectivityError>(r->Ok_0.chain_id) == self.bind_spec(expected_chain, liveness, backend_opened)
                &&& self.funding is None ==> r->Ok_0.funding@.len() == 0
                &&& self.funding is Some ==> self.pools.is_funding_plan(self.funding.unwrap(), r->Ok_0.funding@)
            },
    {
        let chain_id = match liveness {
            Liveness::Unreachable => {
                return Err(ConnectivityError::Unreachable);
            },
            Liveness::Reachable { chain_id } => chain_id,
        };
        match expected_chain {
            Some(c) => {
                if c != chain_id {
                    return Err(ConnectivityError::IdentityMismatch);
                }
            },
            None => {},
        }
        let needs_store = match self.backend {
            Backend::Absent => false,
            _ => true,
        };
        if needs_store && !backend_opened {
            return Err(ConnectivityError::BackendUnavailable);
        }
        let funding = match self.funding {
            Some(amount) => self.pools.funding_plan(amount),
            None => Vec::new(),
        };
        Ok(ScenarioPlan { chain_id, funding })
    }

    /// The `n`-th submission of template `k`: its sender is drawn in turn
    /// from the template's pool, and the sender placeholder resolves to it.
    /// None when the template names no pool, or an empty one.
    pub fn resolve(&self, k: usize, n: u64) -> (r: Option<Submission>)
        requires
            k < self.config.spam.len(),
            references_resolve(self.config, self.pools),
            pool_names_distinct(self.pools),
        ensures
            r is Some <==> (self.config.spam[k as int].def().from_pool is Some && exists|p: int|
                0 <= p < self.pools.pools.len()
                && (#[trigger] self.pools.pools[p]).name@ == self.config.spam[k as int].def().from_pool.unwrap()@
                && self.pools.pools[p].agents.len() > 0),
            r is Some ==> exists|p: int| {
                &&& 0 <= p < self.pools.pools.len()
                &&& (#[trigger] self.pools.pools[p]).name@ == self.config.spam[k as int].def().from_pool.unwrap()@
                &&& self.pools.pools[p].agents.len() > 0
                &&& r->Some_0.from == self.pools.pools[p].agents[(n as int) % (self.pools.pools[p].agents.len() as int)]
            },
            r is Some ==> match r->Some_0.to {
                Target::Sender(a) => self.config.spam[k as int].def().to@ == sender_placeholder()
                    && a == r->Some_0.from,
                Target::Literal(s) => self.config.spam[k as int].def().to@ != sender_placeholder()
                    && s@ == self.config.spam[k as int].def().to@,
            },
    {
        match &self.config.spam[k] {
            SpamRequest::Tx(def) => {
                let name = match &def.from_pool {
                    Some(name) => name,
                    None => {
                        return None;
                    },
                };
                let p = match self.pools.find_pool(name) {
                    Some(p) => p,
                    None => {
                        return None;
                    },
                };
                if self.pools.pools[p].agents.len() == 0 {
                    proof {
                        assert forall|q: int| 0 <= q < self.pools.pools.len()
                            && (#[trigger] self.pools.pools[q]).name@ == name@
                            implies self.pools.pools[q].agents.len() == 0 by {
                            if q != p as int {
                                if q < p as int {
                                    assert(self.pools.pools[q].name@ != self.pools.pools[p as int].name@);
                                } else {
                                    assert(self.pools.pools[p as int].name@ != self.pools.pools[q].name@);
                                }
                            }
                        }
                    }
                    return None;
                }
                let from = self.pools.round_robin_sender(p, n);
                let to = if def.targets_sender() {
                    Target::Sender(from)
                } else {
                    Target::Literal(def.to.clone())
                };
                Some(Submission { from, to })
            },
        }
    }
}

/// A context with no backend binds to a live endpoint of the expected
/// identity whether or not any store could be opened: a run that records
/// nothing needs none.
pub proof fn lemma_no_backend_needed(ctx: ContenderCtx, expected_chain: Option<u64>, chain_id: u64, backend_opened: bool)
    requires
        ctx.backend is Absent,
        expected_chain is None || expected_chain == Some(chain_id),
    ensures
        ctx.bind_spec(expected_chain, Liveness::Reachable { chain_id }, backend_opened)
            == Ok::<u64, ConnectivityError>(chain_id),
{
}

} // verus!
