//! The registry record: which pools the oracle reads, with which layout, and
//! which auxiliary accounts each pool depends on.
use vstd::prelude::*;
use crate::bytes::zeros;
use crate::error::OracleError;

verus! {

/// How many pool slots a registry has.
pub const MAX_POOLS: usize = 10;
/// How many dependency slots a pool has.
pub const MAX_DEPENDENCIES: usize = 5;

/// One pool slot of the registry.
#[derive(Debug)]
pub struct PoolData {
    /// The pool's state account.
    pub pool_account: [u8; 32],
    /// How many of `pool_dependencies` are in use.
    pub num_of_dependencies: u8,
    /// Auxiliary accounts of the pool; always five slots.
    pub pool_dependencies: Vec<[u8; 32]>,
}

/// The registry record.
#[derive(Debug)]
pub struct Config {
    /// Who created the registry.
    pub creator: [u8; 32],
    /// The token whose price the oracle reports.
    pub token_mint: [u8; 32],
    /// How many of `pool_data_list` are in use.
    pub num_of_pools: u8,
    /// The layout tag of each pool: 0 for layout A, 1 for layout B.
    pub protocol_list: [u8; 10],
    /// The pool slots; always ten.
    pub pool_data_list: Vec<PoolData>,
}

/// The number of account entries taken by the pools before slot `i`, each
/// pool taking its own account and its dependencies.
pub open spec fn slot_start(deps: Seq<u8>, i: int) -> int
    decreases i,
{
    if i <= 0 {
        0
    } else {
        slot_start(deps, i - 1) + 1 + deps[i - 1]
    }
}

/// Pool and dependency counts within the registry's capacity.
pub open spec fn counts_in_range(num_of_pools: u8, deps: Seq<u8>) -> bool {
    &&& num_of_pools <= MAX_POOLS
    &&& forall|i: int| 0 <= i < num_of_pools ==> deps[i] <= MAX_DEPENDENCIES
}

impl PoolData {
    /// The slot holds `accounts[start]` as its pool account and the `d`
    /// entries after it as its dependencies; unused slots are zero.
    pub open spec fn holds(&self, accounts: Seq<[u8; 32]>, start: int, d: u8) -> bool {
        &&& self.pool_account == accounts[start]
        &&& self.num_of_dependencies == d
        &&& self.pool_dependencies@.len() == MAX_DEPENDENCIES
        &&& forall|j: int|
            0 <= j < MAX_DEPENDENCIES ==> if j < d {
                self.pool_dependencies@[j] == accounts[start + 1 + j]
            } else {
                self.pool_dependencies@[j]@ == zeros(32)
            }
    }

    /// The slot is unused: all zero.
    pub open spec fn is_empty(&self) -> bool {
        &&& self.pool_account@ == zeros(32)
        &&& self.num_of_dependencies == 0
        &&& self.pool_dependencies@.len() == MAX_DEPENDENCIES
        &&& forall|j: int| 0 <= j < MAX_DEPENDENCIES ==> self.pool_dependencies@[j]@ == zeros(32)
    }
}

impl Config {
    /// The dependency count of each slot.
    pub open spec fn dependency_counts(&self) -> Seq<u8> {
        Seq::new(self.pool_data_list@.len(), |i: int| self.pool_data_list@[i].num_of_dependencies)
    }

    /// The record's invariant: ten pool slots of five dependency slots each,
    /// and counts within capacity.
    pub open spec fn wf(&self) -> bool {
        &&& self.pool_data_list@.len() == MAX_POOLS
        &&& forall|i: int|
            0 <= i < MAX_POOLS ==> (#[trigger] self.pool_data_list@[i]).pool_dependencies@.len()
                == MAX_DEPENDENCIES
        &&& counts_in_range(self.num_of_pools, self.dependency_counts())
    }

    /// Tests the record's invariant.
    pub fn is_well_formed(&self) -> (r: bool)
        ensures
            r == self.wf(),
    {
        if self.pool_data_list.len() != MAX_POOLS || self.num_of_pools as usize > MAX_POOLS {
            return false;
        }
        let mut i: usize = 0;
        while i < MAX_POOLS
            invariant
                i <= MAX_POOLS,
                self.pool_data_list@.len() == MAX_POOLS,
                self.num_of_pools <= MAX_POOLS,
                forall|k: int|
                    0 <= k < i ==> (#[trigger] self.pool_data_list@[k]).pool_dependencies@.len()
                        == MAX_DEPENDENCIES,
                forall|k: int|
                    0 <= k < i && k < self.num_of_pools ==> self.dependency_counts()[k]
                        <= MAX_DEPENDENCIES,
            decreases MAX_POOLS - i,
        {
            let pd = &self.pool_data_list[i];
            if pd.pool_dependencies.len() != MAX_DEPENDENCIES {
                return false;
            }
            if i < self.num_of_pools as usize && pd.num_of_dependencies as usize > MAX_DEPENDENCIES {
                assert(self.dependency_counts()[i as int] > MAX_DEPENDENCIES);
                return false;
            }
            i = i + 1;
        }
        true
    }
}

/// Each entry of `slot_start` adds one account and the pool's dependencies.
pub proof fn lemma_slot_start_grows(deps: Seq<u8>, i: int, j: int)
    requires
        0 <= i <= j,
    ensures
        slot_start(deps, i) + (j - i) <= slot_start(deps, j),
    decreases j,
{
    if i < j {
        lemma_slot_start_grows(deps, i, j - 1);
    }
}

/// With counts in range, the pools take at most six entries each.
pub proof fn lemma_slot_start_bound(deps: Seq<u8>, n: int, i: int)
    requires
        0 <= i <= n,
        forall|k: int| 0 <= k < n ==> deps[k] <= MAX_DEPENDENCIES,
    ensures
        slot_start(deps, i) <= 6 * i,
    decreases i,
{
    if i > 0 {
        lemma_slot_start_bound(deps, n, i - 1);
    }
}

fn zero_key() -> (r: [u8; 32])
    ensures
        r@ == zeros(32),
{
    let r: [u8; 32] = [0u8; 32];
    assert(r@ =~= zeros(32));
    r
}

fn empty_pool() -> (r: PoolData)
    ensures
        r.is_empty(),
{
    let mut deps: Vec<[u8; 32]> = Vec::new();
    let mut j: usize = 0;
    while j < MAX_DEPENDENCIES
        invariant
            j <= MAX_DEPENDENCIES,
            deps@.len() == j,
            forall|k: int| 0 <= k < j ==> deps@[k]@ == zeros(32),
        decreases MAX_DEPENDENCIES - j,
    {
        deps.push(zero_key());
        j = j + 1;
    }
    PoolData { pool_account: zero_key(), num_of_dependencies: 0, pool_dependencies: deps }
}

fn pool_from_accounts(accounts: &Vec<[u8; 32]>, start: usize, d: u8) -> (r: PoolData)
    requires
        d <= MAX_DEPENDENCIES,
        start + 1 + d <= accounts@.len(),
    ensures
        r.holds(accounts@, start as int, d),
{
    let len = accounts.len();
    let mut deps: Vec<[u8; 32]> = Vec::new();
    let mut j: usize = 0;
    while j < MAX_DEPENDENCIES
        invariant
            j <= MAX_DEPENDENCIES,
            d <= MAX_DEPENDENCIES,
            len == accounts@.len(),
            start + 1 + d <= accounts@.len(),
            deps@.len() == j,
            forall|k: int|
                0 <= k < j ==> if k < d {
                    deps@[k] == accounts@[start + 1 + k]
                } else {
                    deps@[k]@ == zeros(32)
                },
        decreases MAX_DEPENDENCIES - j,
    {
        if j < d as usize {
            deps.push(accounts[start + 1 + j]);
        } else {
            deps.push(zero_key());
        }
        j = j + 1;
    }
    PoolData { pool_account: accounts[start], num_of_dependencies: d, pool_dependencies: deps }
}

/// Builds a registry record from its creator, its token, the pool count, the
/// layout tag and dependency count of each pool, and the flat list of
/// accounts: each pool's account followed by its dependencies, in slot order.
///
/// Fails with `InvalidConfiguration` when a count exceeds the capacity or the
/// list does not hold exactly as many accounts as the counts call for.
pub fn initialize_config(
    creator: [u8; 32],
    token_mint: [u8; 32],
    num_of_pools: u8,
    protocol_list: [u8; 10],
    num_of_dependencies: [u8; 10],
    accounts: &Vec<[u8; 32]>,
) -> (r: Result<Config, OracleError>)
    ensures
        r is Err <==> !(counts_in_range(num_of_pools, num_of_dependencies@)
            && accounts@.len() == slot_start(num_of_dependencies@, num_of_pools as int)),
        r is Err ==> r == Err::<Config, OracleError>(OracleError::InvalidConfiguration),
        r matches Ok(c) ==> {
            &&& c.wf()
            &&& c.creator == creator
            &&& c.token_mint == token_mint
            &&& c.num_of_pools == num_of_pools
            &&& c.protocol_list == protocol_list
            &&& forall|i: int|
                0 <= i < MAX_POOLS ==> if i < num_of_pools {
                    (#[trigger] c.pool_data_list@[i]).holds(
                        accounts@,
                        slot_start(num_of_dependencies@, i),
                        num_of_dependencies@[i],
                    )
                } else {
                    c.pool_data_list@[i].is_empty()
                }
        },
{
    if num_of_pools as usize > MAX_POOLS {
        return Err(OracleError::InvalidConfiguration);
    }
    let n = num_of_pools as usize;
    let ghost deps = num_of_dependencies@;
    let mut total: usize = 0;
    let mut i: usize = 0;
    while i < n
        invariant
            i <= n <= MAX_POOLS,
            n == num_of_pools,
            deps == num_of_dependencies@,
            deps.len() == 10,
            total == slot_start(deps, i as int),
            total <= 6 * i,
            forall|k: int| 0 <= k < i ==> deps[k] <= MAX_DEPENDENCIES,
        decreases n - i,
    {
        if num_of_dependencies[i] as usize > MAX_DEPENDENCIES {
            assert(deps[i as int] > MAX_DEPENDENCIES);
            assert(!counts_in_range(num_of_pools, deps));
            return Err(OracleError::InvalidConfiguration);
        }
        total = total + 1 + num_of_dependencies[i] as usize;
        i = i + 1;
    }
    if accounts.len() != total {
        return Err(OracleError::InvalidConfiguration);
    }
    let mut list: Vec<PoolData> = Vec::new();
    let mut start: usize = 0;
    i = 0;
    while i < MAX_POOLS
        invariant
            i <= MAX_POOLS,
            n <= MAX_POOLS,
            n == num_of_pools,
            deps == num_of_dependencies@,
            deps.len() == 10,
            counts_in_range(num_of_pools, deps),
            accounts@.len() == slot_start(deps, n as int),
            i <= n ==> start == slot_start(deps, i as int),
            list@.len() == i,
            forall|k: int|
                0 <= k < i ==> if k < num_of_pools {
                    (#[trigger] list@[k]).holds(accounts@, slot_start(deps, k), deps[k])
                } else {
                    list@[k].is_empty()
                },
        decreases MAX_POOLS - i,
    {
        if i < n {
            let d = num_of_dependencies[i];
            proof {
                lemma_slot_start_grows(deps, i + 1, n as int);
                lemma_slot_start_bound(deps, n as int, n as int);
            }
            let pd = pool_from_accounts(accounts, start, d);
            list.push(pd);
            start = start + 1 + d as usize;
        } else {
            list.push(empty_pool());
        }
        i = i + 1;
    }
    let c = Config { creator, token_mint, num_of_pools, protocol_list, pool_data_list: list };
    assert forall|k: int| 0 <= k < num_of_pools implies c.dependency_counts()[k] <= MAX_DEPENDENCIES by {
        assert(c.pool_data_list@[k].holds(accounts@, slot_start(deps, k), deps[k]));
    }
    assert forall|k: int| 0 <= k < MAX_POOLS implies (#[trigger] c.pool_data_list@[k]).pool_dependencies@.len() == MAX_DEPENDENCIES by {
        if k < num_of_pools {
            assert(c.pool_data_list@[k].holds(accounts@, slot_start(deps, k), deps[k]));
        } else {
            assert(c.pool_data_list@[k].is_empty());
        }
    }
    Ok(c)
}

/// Admits destroying the registry only when `signer` is the administrator.
pub fn close_account(signer: &[u8; 32], admin: &[u8; 32]) -> (r: Result<(), OracleError>)
    ensures
        r is Ok <==> signer@ == admin@,
        r is Err ==> r == Err::<(), OracleError>(OracleError::UnauthorizedAccess),
{
    let mut i: usize = 0;
    while i < 32
        invariant
            i <= 32,
            signer@.len() == 32,
            admin@.len() == 32,
            signer@.subrange(0, i as int) =~= admin@.subrange(0, i as int),
        decreases 32 - i,
    {
        if signer[i] != admin[i] {
            assert(signer@[i as int] != admin@[i as int]);
            return Err(OracleError::UnauthorizedAccess);
        }
        i = i + 1;
    }
    assert(signer@ =~= signer@.subrange(0, 32));
    assert(admin@ =~= admin@.subrange(0, 32));
    Ok(())
}

} // verus!
