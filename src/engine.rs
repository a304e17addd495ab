//! The aggregate price: decode every configured pool, square its
//! square-root price, and average.
use vstd::prelude::*;
use crate::error::OracleError;
use crate::layouts::{clmm_sqrt_price, price_of, raydium_clmm_spot_price, whirlpool_sqrt_price};
use crate::whirlpools::whirlpools_spot_price;
use crate::registry::{lemma_slot_start_grows, slot_start, Config, MAX_DEPENDENCIES, MAX_POOLS};

verus! {

/// How the cursor over the state handles moves from one pool to the next.
#[derive(Debug, Clone, Copy, PartialEq, Eq, Structural)]
pub enum CursorMode {
    /// Every pool takes its own handle and one handle per dependency.
    Corrected,
    /// A layout A pool takes one handle and a layout B pool none, as the
    /// first deployed engine did; dependencies are not skipped.
    Legacy,
}

/// How far the cursor moves past pool `i`.
pub open spec fn step(cfg: Config, mode: CursorMode, i: int) -> int {
    match mode {
        CursorMode::Corrected => 1 + cfg.dependency_counts()[i],
        CursorMode::Legacy => if cfg.protocol_list@[i] == 0 {
            1
        } else {
            0
        },
    }
}

/// The index of the handle that pool `i` reads.
pub open spec fn cursor(cfg: Config, mode: CursorMode, i: int) -> int
    decreases i,
{
    if i <= 0 {
        0
    } else {
        cursor(cfg, mode, i - 1) + step(cfg, mode, i - 1)
    }
}

/// The price of pool `i`, or why it has none.
pub open spec fn pool_price(cfg: Config, handles: Seq<Vec<u8>>, mode: CursorMode, i: int) -> Result<
    u128,
    OracleError,
> {
    let k = cursor(cfg, mode, i);
    if k >= handles.len() {
        Err(OracleError::InvalidConfiguration)
    } else if cfg.protocol_list@[i] == 0 {
        price_of(whirlpool_sqrt_price(handles[k]@))
    } else if cfg.protocol_list@[i] == 1 {
        price_of(clmm_sqrt_price(handles[k]@))
    } else {
        Err(OracleError::InvalidConfiguration)
    }
}

/// The prices of the first `n` pools, or the error of the first pool that
/// has none.
pub open spec fn pool_prices(cfg: Config, handles: Seq<Vec<u8>>, mode: CursorMode, n: int) -> Result<
    Seq<u128>,
    OracleError,
>
    decreases n,
{
    if n <= 0 {
        Ok(Seq::empty())
    } else {
        match pool_prices(cfg, handles, mode, n - 1) {
            Err(e) => Err(e),
            Ok(ps) => match pool_price(cfg, handles, mode, n - 1) {
                Err(e) => Err(e),
                Ok(p) => Ok(ps.push(p)),
            },
        }
    }
}

/// The sum of a sequence of prices.
pub open spec fn sum_prices(ps: Seq<u128>) -> nat
    decreases ps.len(),
{
    if ps.len() == 0 {
        0
    } else {
        sum_prices(ps.drop_last()) + ps.last() as nat
    }
}

/// The truncated mean of `ps`, or why there is none.
pub open spec fn average(ps: Seq<u128>) -> Result<u128, OracleError> {
    if ps.len() == 0 {
        Err(OracleError::InvalidConfiguration)
    } else if sum_prices(ps) > u128::MAX {
        Err(OracleError::ArithmeticOverflow)
    } else {
        Ok((sum_prices(ps) / ps.len()) as u128)
    }
}

/// The aggregate price of the registry `cfg` over `handles`, or why there is
/// none.
pub open spec fn aggregate_price(cfg: Config, handles: Seq<Vec<u8>>, mode: CursorMode) -> Result<
    u128,
    OracleError,
> {
    let n = cfg.num_of_pools as int;
    if !cfg.wf() || n == 0 {
        Err(OracleError::InvalidConfiguration)
    } else if mode == CursorMode::Corrected && handles.len() != cursor(cfg, mode, n) {
        Err(OracleError::InvalidConfiguration)
    } else {
        match pool_prices(cfg, handles, mode, n) {
            Err(e) => Err(e),
            Ok(ps) => average(ps),
        }
    }
}

proof fn lemma_sum_prefix(ps: Seq<u128>, i: int)
    requires
        0 <= i <= ps.len(),
    ensures
        sum_prices(ps.subrange(0, i)) <= sum_prices(ps),
    decreases ps.len() - i,
{
    if i < ps.len() {
        lemma_sum_prefix(ps, i + 1);
        assert(ps.subrange(0, i + 1).drop_last() =~= ps.subrange(0, i));
    } else {
        assert(ps.subrange(0, i) =~= ps);
    }
}

/// The truncated mean of `prices`; fails when there are none or when their
/// sum does not fit in 128 bits.
pub fn average_prices(prices: &Vec<u128>) -> (r: Result<u128, OracleError>)
    ensures
        r == average(prices@),
{
    let n = prices.len();
    if n == 0 {
        return Err(OracleError::InvalidConfiguration);
    }
    let mut sum: u128 = 0;
    let mut i: usize = 0;
    while i < n
        invariant
            i <= n == prices@.len(),
            sum == sum_prices(prices@.subrange(0, i as int)),
        decreases n - i,
    {
        assert(prices@.subrange(0, i + 1).drop_last() =~= prices@.subrange(0, i as int));
        match sum.checked_add(prices[i]) {
            Some(s) => {
                sum = s;
            },
            None => {
                proof {
                    lemma_sum_prefix(prices@, i + 1);
                }
                return Err(OracleError::ArithmeticOverflow);
            },
        }
        i = i + 1;
    }
    assert(prices@.subrange(0, n as int) =~= prices@);
    Ok(sum / (n as u128))
}

proof fn lemma_cursor_bound(cfg: Config, mode: CursorMode, i: int)
    requires
        cfg.wf(),
        0 <= i <= cfg.num_of_pools,
    ensures
        0 <= cursor(cfg, mode, i) <= 6 * i,
        mode == CursorMode::Corrected ==> cursor(cfg, mode, i) == slot_start(cfg.dependency_counts(), i),
    decreases i,
{
    if i > 0 {
        lemma_cursor_bound(cfg, mode, i - 1);
    }
}

proof fn lemma_prices_stay_err(cfg: Config, handles: Seq<Vec<u8>>, mode: CursorMode, i: int, n: int)
    requires
        0 <= i <= n,
        pool_prices(cfg, handles, mode, i) is Err,
    ensures
        pool_prices(cfg, handles, mode, n) == pool_prices(cfg, handles, mode, i),
    decreases n - i,
{
    if i < n {
        lemma_prices_stay_err(cfg, handles, mode, i, n - 1);
    }
}

fn price_at(config: &Config, handles: &Vec<Vec<u8>>, mode: CursorMode, i: usize, k: usize) -> (r: Result<
    u128,
    OracleError,
>)
    requires
        i < MAX_POOLS,
        k == cursor(*config, mode, i as int),
    ensures
        r == pool_price(*config, handles@, mode, i as int),
{
    if k >= handles.len() {
        Err(OracleError::InvalidConfiguration)
    } else if config.protocol_list[i] == 0 {
        whirlpools_spot_price(handles[k].as_slice())
    } else if config.protocol_list[i] == 1 {
        raydium_clmm_spot_price(handles[k].as_slice())
    } else {
        Err(OracleError::InvalidConfiguration)
    }
}

/// The aggregate price of the registry over the state handles: the first
/// `num_of_pools` pools are read in order, each from the handle under the
/// cursor, and the truncated mean of their prices is returned.
///
/// Fails with `InvalidConfiguration` for a malformed registry, a registry
/// with no pool, a handle list of the wrong length (corrected cursor) or too
/// short (legacy cursor), or an unknown layout tag; with `DecodeError` for a
/// pool state that does not decode; with `ArithmeticOverflow` when the sum of
/// the prices does not fit in 128 bits. The first failing pool decides.
pub fn get_price(config: &Config, handles: &Vec<Vec<u8>>, mode: CursorMode) -> (r: Result<u128, OracleError>)
    ensures
        r == aggregate_price(*config, handles@, mode),
        config.num_of_pools == 0 ==> r == Err::<u128, OracleError>(OracleError::InvalidConfiguration),
{
    if !config.is_well_formed() || config.num_of_pools == 0 {
        return Err(OracleError::InvalidConfiguration);
    }
    let n = config.num_of_pools as usize;
    if mode == CursorMode::Corrected {
        let mut total: usize = 0;
        let mut i: usize = 0;
        while i < n
            invariant
                config.wf(),
                i <= n == config.num_of_pools,
                mode == CursorMode::Corrected,
                total == cursor(*config, mode, i as int),
            decreases n - i,
        {
            proof {
                lemma_cursor_bound(*config, mode, i as int);
            }
            assert(config.dependency_counts()[i as int] == config.pool_data_list@[i as int].num_of_dependencies);
            total = total + 1 + config.pool_data_list[i].num_of_dependencies as usize;
            i = i + 1;
        }
        if handles.len() != total {
            return Err(OracleError::InvalidConfiguration);
        }
    }
    let mut prices: Vec<u128> = Vec::new();
    let mut k: usize = 0;
    let mut i: usize = 0;
    while i < n
        invariant
            config.wf(),
            i <= n == config.num_of_pools,
            k == cursor(*config, mode, i as int),
            mode == CursorMode::Corrected ==> handles@.len() == cursor(*config, mode, n as int),
            pool_prices(*config, handles@, mode, i as int) == Ok::<Seq<u128>, OracleError>(prices@),
        decreases n - i,
    {
        let p = price_at(config, handles, mode, i, k);
        match p {
            Ok(v) => {
                prices.push(v);
            },
            Err(e) => {
                assert(pool_prices(*config, handles@, mode, i + 1) == Err::<Seq<u128>, OracleError>(e));
                proof {
                    lemma_prices_stay_err(*config, handles@, mode, i + 1, n as int);
                }
                return Err(e);
            },
        }
        proof {
            lemma_cursor_bound(*config, mode, i as int);
        }
        assert(config.dependency_counts()[i as int] == config.pool_data_list@[i as int].num_of_dependencies);
        k = match mode {
            CursorMode::Corrected => k + 1 + config.pool_data_list[i].num_of_dependencies as usize,
            CursorMode::Legacy => if config.protocol_list[i] == 0 {
                k + 1
            } else {
                k
            },
        };
        i = i + 1;
    }
    average_prices(&prices)
}

proof fn lemma_zero_prices(cfg: Config, handles: Seq<Vec<u8>>, mode: CursorMode, m: int)
    requires
        0 <= m,
        forall|i: int| 0 <= i < m ==> pool_price(cfg, handles, mode, i) == Ok::<u128, OracleError>(0),
    ensures
        pool_prices(cfg, handles, mode, m) == Ok::<Seq<u128>, OracleError>(Seq::new(m as nat, |i: int| 0u128)),
        sum_prices(Seq::new(m as nat, |i: int| 0u128)) == 0,
    decreases m,
{
    if m > 0 {
        assert(pool_price(cfg, handles, mode, m - 1) == Ok::<u128, OracleError>(0));
        lemma_zero_prices(cfg, handles, mode, m - 1);
        assert(Seq::new((m - 1) as nat, |i: int| 0u128).push(0u128) =~= Seq::new(m as nat, |i: int| 0u128));
        assert(Seq::new(m as nat, |i: int| 0u128).drop_last() =~= Seq::new((m - 1) as nat, |i: int| 0u128));
    } else {
        assert(Seq::new(0, |i: int| 0u128) =~= Seq::<u128>::empty());
    }
}

/// When every configured pool of a usable registry prices at zero, the
/// aggregate price is zero.
pub proof fn lemma_all_zero_prices_aggregate_to_zero(cfg: Config, handles: Seq<Vec<u8>>, mode: CursorMode)
    requires
        cfg.wf(),
        cfg.num_of_pools > 0,
        mode == CursorMode::Corrected ==> handles.len() == cursor(cfg, mode, cfg.num_of_pools as int),
        forall|i: int|
            0 <= i < cfg.num_of_pools ==> pool_price(cfg, handles, mode, i) == Ok::<u128, OracleError>(0),
    ensures
        aggregate_price(cfg, handles, mode) == Ok::<u128, OracleError>(0),
{
    lemma_zero_prices(cfg, handles, mode, cfg.num_of_pools as int);
}

/// The aggregate price depends on the registry, the handles' contents and
/// the cursor mode alone: two queries over the same values agree.
pub proof fn lemma_get_price_idempotent(
    cfg1: Config,
    handles1: Seq<Vec<u8>>,
    cfg2: Config,
    handles2: Seq<Vec<u8>>,
    mode: CursorMode,
)
    requires
        cfg1 == cfg2,
        handles1.len() == handles2.len(),
        forall|k: int| 0 <= k < handles1.len() ==> handles1[k]@ == handles2[k]@,
    ensures
        aggregate_price(cfg1, handles1, mode) == aggregate_price(cfg2, handles2, mode),
{
    let n = cfg1.num_of_pools as int;
    assert forall|i: int| 0 <= i < n implies pool_price(cfg1, handles1, mode, i) == pool_price(cfg2, handles2, mode, i) by {
        let k = cursor(cfg1, mode, i);
        lemma_cursor_nonneg(cfg1, mode, i);
        if k < handles1.len() {
            assert(handles1[k]@ == handles2[k]@);
        }
    }
    lemma_prices_agree(cfg1, handles1, handles2, mode, n);
}

proof fn lemma_cursor_nonneg(cfg: Config, mode: CursorMode, i: int)
    ensures
        0 <= cursor(cfg, mode, i),
    decreases i,
{
    if i > 0 {
        lemma_cursor_nonneg(cfg, mode, i - 1);
    }
}

proof fn lemma_prices_agree(cfg: Config, h1: Seq<Vec<u8>>, h2: Seq<Vec<u8>>, mode: CursorMode, m: int)
    requires
        forall|i: int| 0 <= i < m ==> pool_price(cfg, h1, mode, i) == pool_price(cfg, h2, mode, i),
    ensures
        pool_prices(cfg, h1, mode, m) == pool_prices(cfg, h2, mode, m),
    decreases m,
{
    if m > 0 {
        lemma_prices_agree(cfg, h1, h2, mode, m - 1);
    }
}

/// In a usable registry, with the corrected cursor, every pool's handle and
/// its dependencies' handles lie within the list that the counts call for,
/// and that list has at most sixty entries (ten pools of five dependencies).
pub proof fn lemma_handles_in_range(cfg: Config, i: int)
    requires
        cfg.wf(),
        0 <= i < cfg.num_of_pools,
    ensures
        0 <= cursor(cfg, CursorMode::Corrected, i),
        cursor(cfg, CursorMode::Corrected, i) + step(cfg, CursorMode::Corrected, i)
            <= cursor(cfg, CursorMode::Corrected, cfg.num_of_pools as int),
        cursor(cfg, CursorMode::Corrected, cfg.num_of_pools as int) <= MAX_POOLS * (1 + MAX_DEPENDENCIES),
{
    let n = cfg.num_of_pools as int;
    let deps = cfg.dependency_counts();
    lemma_cursor_bound(cfg, CursorMode::Corrected, i);
    lemma_cursor_bound(cfg, CursorMode::Corrected, i + 1);
    lemma_cursor_bound(cfg, CursorMode::Corrected, n);
    lemma_slot_start_grows(deps, i + 1, n);
}

} // verus!
