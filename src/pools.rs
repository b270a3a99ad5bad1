use vstd::prelude::*;
use crate::error::ConfigError;

verus! {

/// The deterministic value from which every agent of a store is derived.
#[derive(Debug, Clone, Copy, PartialEq, Eq, Structural)]
pub struct Seed {
    pub value: u64,
}

impl Seed {
    pub fn from_value(value: u64) -> (r: Seed)
        ensures
            r.value == value,
    {
        Seed { value }
    }
}

/// A signing identity: the key is derived from the seed, the name of the pool
/// at position `pool`, and `index`.
#[derive(Debug, Clone, Copy, PartialEq, Eq, Structural)]
pub struct Agent {
    pub seed: u64,
    pub pool: usize,
    pub index: usize,
    pub funded: bool,
}

/// The name and size of one pool that is asked for.
#[derive(Debug, Clone)]
pub struct PoolSpec {
    pub name: String,
    pub size: usize,
}

/// A named, ordered group of agents.
#[derive(Debug, Clone)]
pub struct AgentPool {
    pub name: String,
    pub agents: Vec<Agent>,
}

/// Every pool of a context, in the order they were asked for.
#[derive(Debug, Clone)]
pub struct AgentPools {
    pub pools: Vec<AgentPool>,
}

/// A funding transfer to the agent at `index` of the pool at `pool`.
#[derive(Debug, Clone, Copy, PartialEq, Eq, Structural)]
pub struct Transfer {
    pub pool: usize,
    pub index: usize,
    pub amount: u128,
}

/// The unfunded agent that the allocator derives for position `index` of the
/// pool at `pool`. The agent refers to its pool by position; the key it signs
/// with is derived from the pool's name (see `AgentPools::identity`).
pub open spec fn derived_agent(seed: u64, pool: int, index: int) -> Agent {
    Agent { seed, pool: pool as usize, index: index as usize, funded: false }
}

/// The agents of a freshly allocated pool.
pub open spec fn derived_pool(seed: u64, pool: int, size: usize) -> Seq<Agent> {
    Seq::new(size as nat, |i: int| derived_agent(seed, pool, i))
}

/// No two pools that are asked for share a name.
pub open spec fn names_distinct(specs: Seq<PoolSpec>) -> bool {
    forall|i: int, j: int| 0 <= i < j < specs.len() ==> specs[i].name@ != specs[j].name@
}

/// Transfers are ordered by pool, then by position in the pool, with no
/// agent twice.
pub open spec fn transfer_before(a: Transfer, b: Transfer) -> bool {
    a.pool < b.pool || (a.pool == b.pool && a.index < b.index)
}

impl AgentPools {
    /// Every agent knows its own place, and no two pools share a name.
    pub open spec fn wf(&self) -> bool {
        &&& forall|p: int, i: int|
            0 <= p < self.pools.len() && 0 <= i < self.pools[p].agents.len() ==> {
                &&& (#[trigger] self.pools[p].agents[i]).pool == p
                &&& self.pools[p].agents[i].index == i
            }
        &&& forall|p: int, q: int|
            0 <= p < q < self.pools.len() ==> (#[trigger] self.pools[p]).name@ != (#[trigger] self.pools[q]).name@
    }

    /// The pools as the allocator derives them from `seed` and `specs`.
    pub open spec fn allocated(&self, seed: u64, specs: Seq<PoolSpec>) -> bool {
        &&& self.pools.len() == specs.len()
        &&& forall|p: int| 0 <= p < specs.len() ==> {
            &&& (#[trigger] self.pools[p]).name@ == specs[p].name@
            &&& self.pools[p].agents@ == derived_pool(seed, p, specs[p].size)
        }
    }

    /// The identity an agent signs with: seed, pool name and position.
    pub open spec fn identity(&self, a: Agent) -> (u64, Seq<char>, int) {
        (a.seed, self.pools[a.pool as int].name@, a.index as int)
    }

    pub open spec fn has_agent(&self, p: int, i: int) -> bool {
        0 <= p < self.pools.len() && 0 <= i < self.pools[p].agents.len()
    }

    /// Derives the pools that `specs` asks for from `seed`; fails when two of
    /// them share a name.
    pub fn allocate(seed: &Seed, specs: &Vec<PoolSpec>) -> (r: Result<AgentPools, ConfigError>)
        ensures
            r is Ok <==> names_distinct(specs@),
            r is Err ==> r->Err_0 == ConfigError::DuplicatePool,
            r is Ok ==> r->Ok_0.allocated(seed.value, specs@) && r->Ok_0.wf(),
            r is Ok ==> forall|p: int, i: int| 0 <= p < specs@.len() && 0 <= i < specs@[p].size ==>
                r->Ok_0.identity(#[trigger] r->Ok_0.pools[p].agents[i]) == (seed.value, specs@[p].name@, i),
    {
        if !distinct_names(specs) {
            return Err(ConfigError::DuplicatePool);
        }
        let mut pools: Vec<AgentPool> = Vec::new();
        let mut p: usize = 0;
        while p < specs.len()
            invariant
                p <= specs.len(),
                names_distinct(specs@),
                pools.len() == p,
                forall|q: int| 0 <= q < p ==> {
                    &&& (#[trigger] pools[q]).name@ == specs[q].name@
                    &&& pools[q].agents@ == derived_pool(seed.value, q, specs[q].size)
                },
            decreases specs.len() - p,
        {
            let size = specs[p].size;
            let mut agents: Vec<Agent> = Vec::new();
            let mut i: usize = 0;
            while i < size
                invariant
                    i <= size,
                    agents@ == derived_pool(seed.value, p as int, i),
                decreases size - i,
            {
                agents.push(Agent { seed: seed.value, pool: p, index: i, funded: false });
                i = i + 1;
                assert(agents@ =~= derived_pool(seed.value, p as int, i));
            }
            pools.push(AgentPool { name: specs[p].name.clone(), agents });
            p = p + 1;
        }
        Ok(AgentPools { pools })
    }

    /// `plan` funds, in pool order, every agent that is not funded yet, each
    /// exactly once, with `amount`, and no agent that is.
    pub open spec fn is_funding_plan(&self, amount: u128, plan: Seq<Transfer>) -> bool {
        &&& forall|k: int| 0 <= k < plan.len() ==> {
            &&& self.has_agent((#[trigger] plan[k]).pool as int, plan[k].index as int)
            &&& !self.pools[plan[k].pool as int].agents[plan[k].index as int].funded
            &&& plan[k].amount == amount
        }
        &&& forall|k: int, l: int| 0 <= k < l < plan.len() ==> transfer_before(plan[k], plan[l])
        &&& forall|p: int, i: int| self.has_agent(p, i) && !(#[trigger] self.pools[p].agents[i]).funded ==>
            exists|k: int| 0 <= k < plan.len() && (#[trigger] plan[k]).pool == p && plan[k].index == i
    }

    /// The transfers that fund every unfunded agent with `amount`.
    pub fn funding_plan(&self, amount: u128) -> (r: Vec<Transfer>)
        ensures
            self.is_funding_plan(amount, r@),
    {
        let mut plan: Vec<Transfer> = Vec::new();
        let mut p: usize = 0;
        while p < self.pools.len()
            invariant
                p <= self.pools.len(),
                forall|k: int| 0 <= k < plan.len() ==> {
                    &&& self.has_agent((#[trigger] plan[k]).pool as int, plan[k].index as int)
                    &&& plan[k].pool < p
                    &&& !self.pools[plan[k].pool as int].agents[plan[k].index as int].funded
                    &&& plan[k].amount == amount
                },
                forall|k: int, l: int| 0 <= k < l < plan.len() ==> transfer_before(plan[k], plan[l]),
                forall|q: int, i: int| 0 <= q < p && self.has_agent(q, i) && !(#[trigger] self.pools[q].agents[i]).funded ==>
                    exists|k: int| 0 <= k < plan.len() && (#[trigger] plan[k]).pool == q && plan[k].index == i,
            decreases self.pools.len() - p,
        {
            let n = self.pools[p].agents.len();
            let mut i: usize = 0;
            while i < n
                invariant
                    p < self.pools.len(),
                    n == self.pools[p as int].agents.len(),
                    i <= n,
                    forall|k: int| 0 <= k < plan.len() ==> {
                        &&& self.has_agent((#[trigger] plan[k]).pool as int, plan[k].index as int)
                        &&& (plan[k].pool < p || (plan[k].pool == p && plan[k].index < i))
                        &&& !self.pools[plan[k].pool as int].agents[plan[k].index as int].funded
                        &&& plan[k].amount == amount
                    },
                    forall|k: int, l: int| 0 <= k < l < plan.len() ==> transfer_before(plan[k], plan[l]),
                    forall|q: int, j: int|
                        (0 <= q < p || (q == p && 0 <= j < i)) && self.has_agent(q, j)
                            && !(#[trigger] self.pools[q].agents[j]).funded ==>
                        exists|k: int| 0 <= k < plan.len() && (#[trigger] plan[k]).pool == q && plan[k].index == j,
                decreases n - i,
            {
                let ghost before = plan@;
                if !self.pools[p].agents[i].funded {
                    let t = Transfer { pool: p, index: i, amount };
                    plan.push(t);
                    assert(plan[plan.len() - 1] == t);
                }
                proof {
                    assert forall|q: int, j: int|
                        (0 <= q < p || (q == p && 0 <= j < i + 1)) && self.has_agent(q, j)
                            && !(#[trigger] self.pools[q].agents[j]).funded implies
                        exists|k: int| 0 <= k < plan.len() && (#[trigger] plan[k]).pool == q && plan[k].index == j by {
                        if q == p && j == i {
                            assert(plan[plan.len() - 1].pool == q);
                        } else {
                            let k = choose|k: int| 0 <= k < before.len() && (#[trigger] before[k]).pool == q && before[k].index == j;
                            assert(plan[k] == before[k]);
                        }
                    }
                }
                i = i + 1;
            }
            p = p + 1;
        }
        plan
    }

    /// Records that the agent at `index` of the pool at `pool` was funded.
    pub fn mark_funded(&mut self, pool: usize, index: usize)
        requires
            old(self).wf(),
            old(self).has_agent(pool as int, index as int),
        ensures
            final(self).wf(),
            final(self).pools.len() == old(self).pools.len(),
            forall|p: int| 0 <= p < old(self).pools.len() ==>
                (#[trigger] final(self).pools[p]).name@ == old(self).pools[p].name@,
            forall|p: int| 0 <= p < old(self).pools.len() && p != pool ==>
                (#[trigger] final(self).pools[p]).agents@ == old(self).pools[p].agents@,
            final(self).pools[pool as int].agents@ == old(self).pools[pool as int].agents@.update(
                index as int,
                Agent { funded: true, ..old(self).pools[pool as int].agents[index as int] },
            ),
    {
        let mut target = self.pools.remove(pool);
        let a = target.agents[index];
        target.agents.set(index, Agent { funded: true, ..a });
        self.pools.insert(pool, target);
        assert forall|p: int, q: int| 0 <= p < q < self.pools.len() implies
            (#[trigger] self.pools[p]).name@ != (#[trigger] self.pools[q]).name@ by {
            assert(old(self).pools[p].name@ != old(self).pools[q].name@);
        }
        assert forall|p: int, i: int|
            0 <= p < self.pools.len() && 0 <= i < self.pools[p].agents.len() implies
            (#[trigger] self.pools[p].agents[i]).pool == p && self.pools[p].agents[i].index == i by {
            assert(old(self).pools[p].agents[i].pool == p);
        }
    }

    /// The sender for the `n`-th submission drawn from the pool at `pool`:
    /// its agents in turn.
    pub fn round_robin_sender(&self, pool: usize, n: u64) -> (r: Agent)
        requires
            pool < self.pools.len(),
            self.pools[pool as int].agents.len() > 0,
        ensures
            r == self.pools[pool as int].agents[(n as int) % (self.pools[pool as int].agents.len() as int)],
    {
        let len = self.pools[pool].agents.len() as u64;
        let k = (n % len) as usize;
        self.pools[pool].agents[k]
    }

    /// The position of the pool named `name`, if there is one.
    pub fn find_pool(&self, name: &String) -> (r: Option<usize>)
        ensures
            r is Some ==> r->Some_0 < self.pools.len() && self.pools[r->Some_0 as int].name@ == name@,
            r is None ==> forall|p: int| 0 <= p < self.pools.len() ==> (#[trigger] self.pools[p]).name@ != name@,
    {
        let mut p: usize = 0;
        while p < self.pools.len()
            invariant
                p <= self.pools.len(),
                forall|q: int| 0 <= q < p ==> (#[trigger] self.pools[q]).name@ != name@,
            decreases self.pools.len() - p,
        {
            if self.pools[p].name == *name {
                return Some(p);
            }
            p = p + 1;
        }
        None
    }
}

/// A funding plan funds no agent twice, and no agent that is funded already:
/// each agent is paid the amount once, before it first sends.
pub proof fn lemma_funding_once(pools: AgentPools, amount: u128, plan: Seq<Transfer>, k: int, l: int)
    requires
        pools.is_funding_plan(amount, plan),
        0 <= k < plan.len(),
        0 <= l < plan.len(),
        k != l,
    ensures
        !(plan[k].pool == plan[l].pool && plan[k].index == plan[l].index),
        !pools.pools[plan[k].pool as int].agents[plan[k].index as int].funded,
        plan[k].amount == amount,
{
    if k < l {
        assert(transfer_before(plan[k], plan[l]));
    } else {
        assert(transfer_before(plan[l], plan[k]));
    }
}

/// Whether no two specs share a name.
fn distinct_names(specs: &Vec<PoolSpec>) -> (r: bool)
    ensures
        r == names_distinct(specs@),
{
    let mut j: usize = 0;
    while j < specs.len()
        invariant
            j <= specs.len(),
            forall|a: int, b: int| 0 <= a < b < j ==> specs[a].name@ != specs[b].name@,
        decreases specs.len() - j,
    {
        let mut i: usize = 0;
        while i < j
            invariant
                i <= j < specs.len(),
                forall|a: int, b: int| 0 <= a < b < j ==> specs[a].name@ != specs[b].name@,
                forall|a: int| 0 <= a < i ==> specs[a].name@ != specs[j as int].name@,
            decreases j - i,
        {
            if specs[i].name == specs[j].name {
                return false;
            }
            i = i + 1;
        }
        j = j + 1;
    }
    true
}

/// Two allocations from the same seed and the same pool sizes hold the same
/// pools: the same names, and the same agents in the same order.
pub proof fn lemma_allocation_is_deterministic(
    seed: u64,
    specs: Seq<PoolSpec>,
    a: AgentPools,
    b: AgentPools,
)
    requires
        a.allocated(seed, specs),
        b.allocated(seed, specs),
    ensures
        a.pools.len() == b.pools.len(),
        forall|p: int| 0 <= p < a.pools.len() ==>
            (#[trigger] a.pools[p]).name@ == b.pools[p].name@ && a.pools[p].agents@ == b.pools[p].agents@,
{
    assert forall|p: int| 0 <= p < a.pools.len() implies
        (#[trigger] a.pools[p]).name@ == b.pools[p].name@ && a.pools[p].agents@ == b.pools[p].agents@ by {
        assert(b.pools[p].name@ == specs[p].name@);
    }
}

/// No agent stands in two pools: agents of different pools sign with
/// different identities.
pub proof fn lemma_agent_in_one_pool(pools: AgentPools, p: int, i: int, q: int, j: int)
    requires
        pools.wf(),
        pools.has_agent(p, i),
        pools.has_agent(q, j),
        p != q,
    ensures
        pools.identity(pools.pools[p].agents[i]) != pools.identity(pools.pools[q].agents[j]),
{
    if p < q {
        assert(pools.pools[p].name@ != pools.pools[q].name@);
    } else {
        assert(pools.pools[q].name@ != pools.pools[p].name@);
    }
}

} // verus!
