//! The layout A record, an Orca Whirlpool account, decoded field by field.
use vstd::prelude::*;
use crate::bytes::{le_value, pow256, read_key, read_le};
use crate::codec::price_from_sqrt_price;
use crate::error::OracleError;
use crate::layouts::{decode_whirlpool_sqrt_price, price_of, whirlpool_sqrt_price, WHIRLPOOL_SQRT_PRICE_OFFSET};

verus! {

/// How many reward slots a Whirlpool has.
pub const NUM_REWARDS: usize = 3;
/// Size in bytes of one reward slot.
pub const REWARD_INFO_LEN: usize = 128;
/// Offset of the first reward slot.
pub const REWARD_INFOS_OFFSET: usize = 269;

/// The number held in the `w` bytes at `off`, little-endian.
pub open spec fn field(b: Seq<u8>, off: int, w: int) -> nat {
    le_value(b.subrange(off, off + w))
}

/// The 32 bytes at `off`.
pub open spec fn key_at(b: Seq<u8>, off: int) -> Seq<u8> {
    b.subrange(off, off + 32)
}

/// One reward slot of a Whirlpool.
#[derive(Debug, PartialEq, Eq)]
pub struct WhirlpoolRewardInfo {
    /// Reward token mint.
    pub mint: [u8; 32],
    /// Reward vault token account.
    pub vault: [u8; 32],
    /// Account allowed to set up the reward and its emissions.
    pub authority: [u8; 32],
    /// Tokens earned per second per unit of liquidity, 64.64.
    pub emissions_per_second_x64: u128,
    /// Tokens earned per unit of liquidity since emissions began, 64.64.
    pub growth_global_x64: u128,
}

/// A Whirlpool account's fields.
#[derive(Debug, PartialEq, Eq)]
pub struct Whirlpool {
    pub whirlpools_config: [u8; 32],
    pub whirlpool_bump: u8,
    pub tick_spacing: u16,
    pub tick_spacing_seed: u16,
    /// Hundredths of a basis point.
    pub fee_rate: u16,
    /// Basis points of the fee rate taken by the protocol.
    pub protocol_fee_rate: u16,
    pub liquidity: u128,
    /// Square root of the price, 64.64.
    pub sqrt_price: u128,
    pub tick_current_index: i32,
    pub protocol_fee_owed_a: u64,
    pub protocol_fee_owed_b: u64,
    pub token_mint_a: [u8; 32],
    pub token_vault_a: [u8; 32],
    /// 64.64.
    pub fee_growth_global_a: u128,
    pub token_mint_b: [u8; 32],
    pub token_vault_b: [u8; 32],
    /// 64.64.
    pub fee_growth_global_b: u128,
    pub reward_last_updated_timestamp: u64,
    /// Always `NUM_REWARDS` slots.
    pub reward_infos: Vec<WhirlpoolRewardInfo>,
}

impl WhirlpoolRewardInfo {
    /// The slot holds the 128 bytes of `b` at `off`.
    pub open spec fn read_from(&self, b: Seq<u8>, off: int) -> bool {
        &&& self.mint@ == key_at(b, off)
        &&& self.vault@ == key_at(b, off + 32)
        &&& self.authority@ == key_at(b, off + 64)
        &&& self.emissions_per_second_x64 == field(b, off + 96, 16)
        &&& self.growth_global_x64 == field(b, off + 112, 16)
    }
}

impl Whirlpool {
    /// Each field holds the bytes of `b` at its offset.
    pub open spec fn read_from(&self, b: Seq<u8>) -> bool {
        &&& self.whirlpools_config@ == key_at(b, 8)
        &&& self.whirlpool_bump == b[40]
        &&& self.tick_spacing == field(b, 41, 2)
        &&& self.tick_spacing_seed == field(b, 43, 2)
        &&& self.fee_rate == field(b, 45, 2)
        &&& self.protocol_fee_rate == field(b, 47, 2)
        &&& self.liquidity == field(b, 49, 16)
        &&& self.sqrt_price == field(b, 65, 16)
        &&& self.tick_current_index == (field(b, 81, 4) as u32) as i32
        &&& self.protocol_fee_owed_a == field(b, 85, 8)
        &&& self.protocol_fee_owed_b == field(b, 93, 8)
        &&& self.token_mint_a@ == key_at(b, 101)
        &&& self.token_vault_a@ == key_at(b, 133)
        &&& self.fee_growth_global_a == field(b, 165, 16)
        &&& self.token_mint_b@ == key_at(b, 181)
        &&& self.token_vault_b@ == key_at(b, 213)
        &&& self.fee_growth_global_b == field(b, 245, 16)
        &&& self.reward_last_updated_timestamp == field(b, 261, 8)
        &&& self.reward_infos@.len() == NUM_REWARDS
        &&& forall|i: int|
            0 <= i < NUM_REWARDS ==> (#[trigger] self.reward_infos@[i]).read_from(
                b,
                REWARD_INFOS_OFFSET + i * REWARD_INFO_LEN,
            )
    }
}

proof fn lemma_small_powers()
    ensures
        pow256(2) == 0x1_0000,
        pow256(4) == 0x1_0000_0000,
        pow256(8) == 0x1_0000_0000_0000_0000,
{
    reveal_with_fuel(pow256, 9);
}

fn read_reward_info(data: &[u8], off: usize) -> (r: WhirlpoolRewardInfo)
    requires
        off + REWARD_INFO_LEN <= data@.len(),
    ensures
        r.read_from(data@, off as int),
{
    let len = data.len();
    assert(off + REWARD_INFO_LEN <= len);
    WhirlpoolRewardInfo {
        mint: read_key(data, off),
        vault: read_key(data, off + 32),
        authority: read_key(data, off + 64),
        emissions_per_second_x64: read_le(data, off + 96, 16),
        growth_global_x64: read_le(data, off + 112, 16),
    }
}

/// Decodes a layout A buffer into its fields, after checking its size and
/// its tag.
pub fn get_whirlpool_from_account_info(data: &[u8]) -> (r: Result<Whirlpool, OracleError>)
    ensures
        r is Err <==> whirlpool_sqrt_price(data@) is Err,
        r is Err ==> r == Err::<Whirlpool, OracleError>(OracleError::DecodeError),
        r matches Ok(w) ==> w.read_from(data@) && whirlpool_sqrt_price(data@) == Ok::<u128, OracleError>(
            w.sqrt_price,
        ),
{
    if decode_whirlpool_sqrt_price(data).is_err() {
        return Err(OracleError::DecodeError);
    }
    proof {
        lemma_small_powers();
    }
    let mut reward_infos: Vec<WhirlpoolRewardInfo> = Vec::new();
    let mut i: usize = 0;
    while i < NUM_REWARDS
        invariant
            i <= NUM_REWARDS,
            data@.len() >= 653,
            reward_infos@.len() == i,
            forall|k: int|
                0 <= k < i ==> (#[trigger] reward_infos@[k]).read_from(
                    data@,
                    REWARD_INFOS_OFFSET + k * REWARD_INFO_LEN,
                ),
        decreases NUM_REWARDS - i,
    {
        reward_infos.push(read_reward_info(data, REWARD_INFOS_OFFSET + i * REWARD_INFO_LEN));
        i = i + 1;
    }
    let tick = read_le(data, 81, 4) as u32;
    let w = Whirlpool {
        whirlpools_config: read_key(data, 8),
        whirlpool_bump: data[40],
        tick_spacing: read_le(data, 41, 2) as u16,
        tick_spacing_seed: read_le(data, 43, 2) as u16,
        fee_rate: read_le(data, 45, 2) as u16,
        protocol_fee_rate: read_le(data, 47, 2) as u16,
        liquidity: read_le(data, 49, 16),
        sqrt_price: read_le(data, WHIRLPOOL_SQRT_PRICE_OFFSET, 16),
        tick_current_index: tick as i32,
        protocol_fee_owed_a: read_le(data, 85, 8) as u64,
        protocol_fee_owed_b: read_le(data, 93, 8) as u64,
        token_mint_a: read_key(data, 101),
        token_vault_a: read_key(data, 133),
        fee_growth_global_a: read_le(data, 165, 16),
        token_mint_b: read_key(data, 181),
        token_vault_b: read_key(data, 213),
        fee_growth_global_b: read_le(data, 245, 16),
        reward_last_updated_timestamp: read_le(data, 261, 8) as u64,
        reward_infos,
    };
    Ok(w)
}

/// The spot price of a layout A pool: the squared integer part of its
/// decoded square-root price.
pub fn whirlpools_spot_price(data: &[u8]) -> (r: Result<u128, OracleError>)
    ensures
        r == price_of(whirlpool_sqrt_price(data@)),
{
    match get_whirlpool_from_account_info(data) {
        Ok(w) => Ok(price_from_sqrt_price(w.sqrt_price)),
        Err(e) => Err(e),
    }
}

} // verus!
