use oracle::codec::{price_from_sqrt_price, Q64};
use oracle::engine::{average_prices, get_price, CursorMode};
use oracle::error::OracleError;
use oracle::layouts::{
    create_raydium_clmm_and_whirlpool, decode_clmm_sqrt_price, decode_whirlpool_sqrt_price,
    raydium_clmm_spot_price, simulate_price_in_clmm_and_whirlpool,
    CLMM_POOL_LEN, CLMM_SQRT_PRICE_OFFSET, CLMM_TOKEN_MINT_0_OFFSET, CLMM_TOKEN_MINT_1_OFFSET,
    WHIRLPOOL_LEN, WHIRLPOOL_SQRT_PRICE_OFFSET, WHIRLPOOL_TOKEN_MINT_A_OFFSET,
    WHIRLPOOL_TOKEN_MINT_B_OFFSET,
};
use oracle::registry::{close_account, initialize_config, Config};
use oracle::whirlpools::{get_whirlpool_from_account_info, whirlpools_spot_price, NUM_REWARDS, REWARD_INFOS_OFFSET, REWARD_INFO_LEN};

fn key(b: u8) -> [u8; 32] {
    [b; 32]
}

/// A (clmm, whirlpool) pair of accounts holding the given square-root prices.
fn pools(sqrt_clmm: u128, sqrt_whirlpool: u128) -> (Vec<u8>, Vec<u8>) {
    let (mut clmm, mut whirlpool) = create_raydium_clmm_and_whirlpool(&key(1), &key(2));
    simulate_price_in_clmm_and_whirlpool(&mut clmm, &mut whirlpool, sqrt_clmm, sqrt_whirlpool)
        .unwrap();
    (clmm, whirlpool)
}

fn whirlpool_at(sqrt: u128) -> Vec<u8> {
    pools(0, sqrt).1
}

fn clmm_at(sqrt: u128) -> Vec<u8> {
    pools(sqrt, 0).0
}

fn registry(tags: &[u8], deps: &[u8]) -> Config {
    let mut protocol_list = [0u8; 10];
    let mut num_of_dependencies = [0u8; 10];
    let mut accounts = Vec::new();
    for i in 0..tags.len() {
        protocol_list[i] = tags[i];
        num_of_dependencies[i] = deps[i];
        accounts.push(key(100 + i as u8));
        for j in 0..deps[i] {
            accounts.push(key(200 + j));
        }
    }
    initialize_config(key(7), key(8), tags.len() as u8, protocol_list, num_of_dependencies, &accounts)
        .unwrap()
}

#[test]
fn codec_unit_sqrt_price_gives_one() {
    assert_eq!(price_from_sqrt_price(Q64), 1);
    assert_eq!(price_from_sqrt_price(2 * Q64), 4);
    assert_eq!(price_from_sqrt_price(3 * Q64), 9);
}

#[test]
fn codec_truncates_fraction_before_squaring() {
    assert_eq!(price_from_sqrt_price(Q64 + Q64 / 2), 1);
    assert_eq!(price_from_sqrt_price(Q64 - 1), 0);
    assert_eq!(price_from_sqrt_price(0), 0);
}

#[test]
fn codec_largest_input_does_not_overflow() {
    let whole: u128 = u64::MAX as u128;
    assert_eq!(price_from_sqrt_price(u128::MAX), whole * whole);
}

#[test]
fn whirlpool_round_trip() {
    for s in [0u128, 1, Q64, 3 * Q64 + 12345, u128::MAX] {
        let w = whirlpool_at(s);
        assert_eq!(decode_whirlpool_sqrt_price(&w), Ok(s));
    }
}

#[test]
fn clmm_round_trip() {
    for s in [0u128, 1, Q64, 7 * Q64 + 99, u128::MAX] {
        let c = clmm_at(s);
        assert_eq!(decode_clmm_sqrt_price(&c), Ok(s));
    }
}

#[test]
fn sqrt_price_is_little_endian_at_its_offset() {
    let w = whirlpool_at(0x0102);
    assert_eq!(w[WHIRLPOOL_SQRT_PRICE_OFFSET], 0x02);
    assert_eq!(w[WHIRLPOOL_SQRT_PRICE_OFFSET + 1], 0x01);
    let c = clmm_at(0x0304);
    assert_eq!(c[CLMM_SQRT_PRICE_OFFSET], 0x04);
    assert_eq!(c[CLMM_SQRT_PRICE_OFFSET + 1], 0x03);
}

#[test]
fn created_accounts_hold_tag_and_mints() {
    let (clmm, whirlpool) = create_raydium_clmm_and_whirlpool(&key(1), &key(2));
    assert_eq!(clmm.len(), CLMM_POOL_LEN);
    assert_eq!(whirlpool.len(), WHIRLPOOL_LEN);
    assert_eq!(&whirlpool[0..8], &[63, 149, 209, 12, 225, 128, 99, 9]);
    assert_eq!(&clmm[0..8], &[247, 237, 227, 245, 215, 195, 222, 70]);
    assert_eq!(&whirlpool[WHIRLPOOL_TOKEN_MINT_A_OFFSET..WHIRLPOOL_TOKEN_MINT_A_OFFSET + 32], &key(1));
    assert_eq!(&whirlpool[WHIRLPOOL_TOKEN_MINT_B_OFFSET..WHIRLPOOL_TOKEN_MINT_B_OFFSET + 32], &key(2));
    assert_eq!(&clmm[CLMM_TOKEN_MINT_0_OFFSET..CLMM_TOKEN_MINT_0_OFFSET + 32], &key(1));
    assert_eq!(&clmm[CLMM_TOKEN_MINT_1_OFFSET..CLMM_TOKEN_MINT_1_OFFSET + 32], &key(2));
    assert_eq!(decode_whirlpool_sqrt_price(&whirlpool), Ok(0));
    assert_eq!(decode_clmm_sqrt_price(&clmm), Ok(0));
}

#[test]
fn short_whirlpool_buffer_is_decode_error() {
    let w = whirlpool_at(Q64);
    let short = &w[..WHIRLPOOL_LEN - 1];
    assert_eq!(decode_whirlpool_sqrt_price(short), Err(OracleError::DecodeError));
    assert_eq!(whirlpools_spot_price(short), Err(OracleError::DecodeError));
    let cfg = registry(&[0], &[0]);
    assert_eq!(
        get_price(&cfg, &vec![short.to_vec()], CursorMode::Corrected),
        Err(OracleError::DecodeError)
    );
}

#[test]
fn wrong_whirlpool_tag_is_decode_error() {
    let mut w = whirlpool_at(Q64);
    w[3] ^= 0xff;
    assert_eq!(decode_whirlpool_sqrt_price(&w), Err(OracleError::DecodeError));
}

#[test]
fn clmm_tag_is_not_checked_but_size_is() {
    let mut c = clmm_at(2 * Q64);
    c[0] = 0;
    assert_eq!(raydium_clmm_spot_price(&c), Ok(4));
    assert_eq!(raydium_clmm_spot_price(&c[..CLMM_POOL_LEN - 1]), Err(OracleError::DecodeError));
}

#[test]
fn simulate_refuses_undecodable_accounts() {
    let (mut clmm, _) = create_raydium_clmm_and_whirlpool(&key(1), &key(2));
    let mut bad = vec![0u8; WHIRLPOOL_LEN];
    let before = clmm.clone();
    assert_eq!(
        simulate_price_in_clmm_and_whirlpool(&mut clmm, &mut bad, Q64, Q64),
        Err(OracleError::DecodeError)
    );
    assert_eq!(clmm, before);
    assert_eq!(bad, vec![0u8; WHIRLPOOL_LEN]);
}

#[test]
fn one_whirlpool_pool_at_unit_price() {
    let cfg = registry(&[0], &[0]);
    let handles = vec![whirlpool_at(Q64)];
    assert_eq!(whirlpools_spot_price(&handles[0]), Ok(1));
    assert_eq!(get_price(&cfg, &handles, CursorMode::Corrected), Ok(1));
    assert_eq!(get_price(&cfg, &handles, CursorMode::Legacy), Ok(1));
}

#[test]
fn whirlpool_and_clmm_pools_average() {
    let cfg = registry(&[0, 1], &[0, 0]);
    let handles = vec![whirlpool_at(2 * Q64), clmm_at(3 * Q64)];
    assert_eq!(whirlpools_spot_price(&handles[0]), Ok(4));
    assert_eq!(raydium_clmm_spot_price(&handles[1]), Ok(9));
    assert_eq!(get_price(&cfg, &handles, CursorMode::Corrected), Ok(6));
    assert_eq!(get_price(&cfg, &handles, CursorMode::Legacy), Ok(6));
}

#[test]
fn all_zero_prices_aggregate_to_zero() {
    let cfg = registry(&[0, 1, 0], &[0, 0, 0]);
    let handles = vec![whirlpool_at(Q64 - 1), clmm_at(0), whirlpool_at(0)];
    assert_eq!(get_price(&cfg, &handles, CursorMode::Corrected), Ok(0));
}

#[test]
fn no_pools_is_invalid_configuration() {
    let cfg = registry(&[], &[]);
    assert_eq!(cfg.num_of_pools, 0);
    assert_eq!(get_price(&cfg, &vec![], CursorMode::Corrected), Err(OracleError::InvalidConfiguration));
    assert_eq!(
        get_price(&cfg, &vec![whirlpool_at(Q64)], CursorMode::Legacy),
        Err(OracleError::InvalidConfiguration)
    );
}

#[test]
fn get_price_twice_gives_same_result() {
    let cfg = registry(&[1, 0], &[0, 0]);
    let handles = vec![clmm_at(5 * Q64), whirlpool_at(4 * Q64)];
    let first = get_price(&cfg, &handles, CursorMode::Corrected);
    let second = get_price(&cfg, &handles, CursorMode::Corrected);
    assert_eq!(first, Ok(20));
    assert_eq!(first, second);
}

#[test]
fn full_registry_with_all_dependencies() {
    let tags = [0u8, 1, 0, 1, 0, 1, 0, 1, 0, 1];
    let cfg = registry(&tags, &[5; 10]);
    for i in 0..10 {
        assert_eq!(cfg.pool_data_list[i].num_of_dependencies, 5);
        assert_eq!(cfg.pool_data_list[i].pool_dependencies.len(), 5);
    }
    let mut handles = Vec::new();
    for i in 0..10u128 {
        if tags[i as usize] == 0 {
            handles.push(whirlpool_at((i + 1) * Q64));
        } else {
            handles.push(clmm_at((i + 1) * Q64));
        }
        for _ in 0..5 {
            handles.push(vec![0u8; 3]);
        }
    }
    assert_eq!(handles.len(), 60);
    // 1 + 4 + ... + 100 = 385
    assert_eq!(get_price(&cfg, &handles, CursorMode::Corrected), Ok(38));
}

#[test]
fn corrected_cursor_needs_exact_handle_count() {
    let cfg = registry(&[0], &[1]);
    let handles = vec![whirlpool_at(Q64)];
    assert_eq!(get_price(&cfg, &handles, CursorMode::Corrected), Err(OracleError::InvalidConfiguration));
    let handles = vec![whirlpool_at(Q64), vec![], vec![]];
    assert_eq!(get_price(&cfg, &handles, CursorMode::Corrected), Err(OracleError::InvalidConfiguration));
}

#[test]
fn legacy_cursor_drifts_over_dependencies() {
    // A layout A pool with one dependency, then a layout B pool.
    let cfg = registry(&[0, 1], &[1, 0]);
    let handles = vec![whirlpool_at(2 * Q64), clmm_at(4 * Q64), clmm_at(6 * Q64)];
    // The corrected cursor skips the dependency: (4 + 36) / 2.
    assert_eq!(get_price(&cfg, &handles, CursorMode::Corrected), Ok(20));
    // The legacy cursor reads the dependency's handle as the second pool: (4 + 16) / 2.
    assert_eq!(get_price(&cfg, &handles, CursorMode::Legacy), Ok(10));
}

#[test]
fn legacy_cursor_stays_after_clmm_pool() {
    let cfg = registry(&[1, 1], &[0, 0]);
    let handles = vec![clmm_at(2 * Q64), clmm_at(8 * Q64)];
    assert_eq!(get_price(&cfg, &handles, CursorMode::Legacy), Ok(4));
    assert_eq!(get_price(&cfg, &handles, CursorMode::Corrected), Ok(34));
}

#[test]
fn legacy_cursor_past_end_is_invalid_configuration() {
    let cfg = registry(&[0, 0], &[0, 0]);
    let handles = vec![whirlpool_at(Q64)];
    assert_eq!(get_price(&cfg, &handles, CursorMode::Legacy), Err(OracleError::InvalidConfiguration));
}

#[test]
fn unknown_tag_is_invalid_configuration() {
    let cfg = registry(&[2], &[0]);
    let handles = vec![whirlpool_at(Q64)];
    assert_eq!(get_price(&cfg, &handles, CursorMode::Corrected), Err(OracleError::InvalidConfiguration));
}

#[test]
fn sum_overflow_is_arithmetic_overflow() {
    let cfg = registry(&[0, 0], &[0, 0]);
    let handles = vec![whirlpool_at(u128::MAX), whirlpool_at(u128::MAX)];
    assert_eq!(get_price(&cfg, &handles, CursorMode::Corrected), Err(OracleError::ArithmeticOverflow));
}

#[test]
fn first_failing_pool_decides() {
    let cfg = registry(&[0, 0], &[0, 0]);
    let handles = vec![vec![1u8; 4], whirlpool_at(Q64)];
    assert_eq!(get_price(&cfg, &handles, CursorMode::Corrected), Err(OracleError::DecodeError));
    let cfg = registry(&[3, 0], &[0, 0]);
    let handles = vec![whirlpool_at(Q64), vec![1u8; 4]];
    assert_eq!(get_price(&cfg, &handles, CursorMode::Corrected), Err(OracleError::InvalidConfiguration));
}

#[test]
fn malformed_registry_is_invalid_configuration() {
    let mut cfg = registry(&[0], &[0]);
    cfg.pool_data_list.pop();
    assert_eq!(
        get_price(&cfg, &vec![whirlpool_at(Q64)], CursorMode::Corrected),
        Err(OracleError::InvalidConfiguration)
    );
}

#[test]
fn average_of_prices() {
    assert_eq!(average_prices(&vec![4, 9]), Ok(6));
    assert_eq!(average_prices(&vec![]), Err(OracleError::InvalidConfiguration));
    assert_eq!(average_prices(&vec![u128::MAX, 1]), Err(OracleError::ArithmeticOverflow));
    assert_eq!(average_prices(&vec![u128::MAX - 1, 1]), Ok(u128::MAX / 2));
}

#[test]
fn initialize_config_places_accounts() {
    let accounts = vec![key(10), key(11), key(12), key(20)];
    let mut tags = [0u8; 10];
    tags[1] = 1;
    let mut deps = [0u8; 10];
    deps[0] = 2;
    let cfg = initialize_config(key(7), key(8), 2, tags, deps, &accounts).unwrap();
    assert_eq!(cfg.creator, key(7));
    assert_eq!(cfg.token_mint, key(8));
    assert_eq!(cfg.num_of_pools, 2);
    assert_eq!(cfg.protocol_list, tags);
    assert_eq!(cfg.pool_data_list.len(), 10);
    assert_eq!(cfg.pool_data_list[0].pool_account, key(10));
    assert_eq!(cfg.pool_data_list[0].num_of_dependencies, 2);
    assert_eq!(cfg.pool_data_list[0].pool_dependencies, vec![key(11), key(12), key(0), key(0), key(0)]);
    assert_eq!(cfg.pool_data_list[1].pool_account, key(20));
    assert_eq!(cfg.pool_data_list[1].num_of_dependencies, 0);
    assert_eq!(cfg.pool_data_list[1].pool_dependencies, vec![key(0); 5]);
    for i in 2..10 {
        assert_eq!(cfg.pool_data_list[i].pool_account, key(0));
        assert_eq!(cfg.pool_data_list[i].num_of_dependencies, 0);
    }
}

#[test]
fn initialize_config_rejects_bad_counts() {
    let accounts = vec![key(10); 11];
    assert_eq!(
        initialize_config(key(7), key(8), 11, [0; 10], [0; 10], &accounts).unwrap_err(),
        OracleError::InvalidConfiguration
    );
    let mut deps = [0u8; 10];
    deps[0] = 6;
    assert_eq!(
        initialize_config(key(7), key(8), 1, [0; 10], deps, &vec![key(1); 7]).unwrap_err(),
        OracleError::InvalidConfiguration
    );
    // A count beyond the configured pools is not read.
    let mut deps = [0u8; 10];
    deps[5] = 200;
    assert!(initialize_config(key(7), key(8), 1, [0; 10], deps, &vec![key(1)]).is_ok());
}

#[test]
fn initialize_config_rejects_wrong_account_count() {
    let mut deps = [0u8; 10];
    deps[0] = 1;
    assert_eq!(
        initialize_config(key(7), key(8), 1, [0; 10], deps, &vec![key(1)]).unwrap_err(),
        OracleError::InvalidConfiguration
    );
    assert_eq!(
        initialize_config(key(7), key(8), 1, [0; 10], deps, &vec![key(1); 3]).unwrap_err(),
        OracleError::InvalidConfiguration
    );
}

#[test]
fn close_account_checks_administrator() {
    assert_eq!(close_account(&key(9), &key(9)), Ok(()));
    let mut other = key(9);
    other[31] = 0;
    assert_eq!(close_account(&other, &key(9)), Err(OracleError::UnauthorizedAccess));
}

#[test]
fn whirlpool_fields_decode_at_their_offsets() {
    let mut w = whirlpool_at(5 * Q64 + 3);
    w[40] = 254;
    w[41] = 0x40;
    w[42] = 0x00;
    w[45] = 0x2c;
    w[46] = 0x01;
    for b in &mut w[81..85] {
        *b = 0xff;
    }
    w[85] = 7;
    w[261] = 9;
    let r = REWARD_INFOS_OFFSET + 2 * REWARD_INFO_LEN;
    for b in &mut w[r..r + 32] {
        *b = 5;
    }
    w[r + 96] = 1;
    w[r + 127] = 0x80;
    let pool = get_whirlpool_from_account_info(&w).unwrap();
    assert_eq!(pool.sqrt_price, 5 * Q64 + 3);
    assert_eq!(pool.whirlpool_bump, 254);
    assert_eq!(pool.tick_spacing, 64);
    assert_eq!(pool.fee_rate, 300);
    assert_eq!(pool.tick_current_index, -1);
    assert_eq!(pool.protocol_fee_owed_a, 7);
    assert_eq!(pool.reward_last_updated_timestamp, 9);
    assert_eq!(pool.token_mint_a, key(1));
    assert_eq!(pool.token_mint_b, key(2));
    assert_eq!(pool.token_vault_a, key(0));
    assert_eq!(pool.liquidity, 0);
    assert_eq!(pool.reward_infos.len(), NUM_REWARDS);
    assert_eq!(pool.reward_infos[2].mint, key(5));
    assert_eq!(pool.reward_infos[2].emissions_per_second_x64, 1);
    assert_eq!(pool.reward_infos[2].growth_global_x64, 1u128 << 127);
    assert_eq!(pool.reward_infos[0].mint, key(0));
    assert_eq!(whirlpools_spot_price(&w), Ok(25));
}

#[test]
fn whirlpool_record_needs_size_and_tag() {
    let w = whirlpool_at(Q64);
    assert_eq!(get_whirlpool_from_account_info(&w[..100]).unwrap_err(), OracleError::DecodeError);
    let mut bad = w.clone();
    bad[0] = 0;
    assert_eq!(get_whirlpool_from_account_info(&bad).unwrap_err(), OracleError::DecodeError);
}
