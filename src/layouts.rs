//! The two external pool-state layouts that the oracle reads.
//!
//! Layout A is an Orca Whirlpool account and layout B a Raydium CLMM pool
//! account. Both start with an eight-byte account tag and hold a 64.64
//! square-root price as a little-endian `u128` at a fixed offset. Only that
//! field is read; a layout A buffer is checked for its tag as well.
use vstd::prelude::*;
use crate::bytes::{le_bytes, le_value, lemma_le_value_zeros, lemma_read_after_write, lemma_splice_keeps, read_le, splice, write_bytes, write_u128_le, zeroed, zeros};
use crate::codec::{price_from_sqrt_price, spot_price};
use crate::error::OracleError;

verus! {

/// Size in bytes of a layout A (Whirlpool) account, tag included.
pub const WHIRLPOOL_LEN: usize = 653;
/// Offset of the layout A `sqrt_price` field.
pub const WHIRLPOOL_SQRT_PRICE_OFFSET: usize = 65;
/// Offset of the layout A `token_mint_a` field.
pub const WHIRLPOOL_TOKEN_MINT_A_OFFSET: usize = 101;
/// Offset of the layout A `token_mint_b` field.
pub const WHIRLPOOL_TOKEN_MINT_B_OFFSET: usize = 181;

/// Size in bytes of a layout B (CLMM pool) account, tag included.
pub const CLMM_POOL_LEN: usize = 1544;
/// Offset of the layout B `sqrt_price_x64` field.
pub const CLMM_SQRT_PRICE_OFFSET: usize = 253;
/// Offset of the layout B `token_mint_0` field.
pub const CLMM_TOKEN_MINT_0_OFFSET: usize = 73;
/// Offset of the layout B `token_mint_1` field.
pub const CLMM_TOKEN_MINT_1_OFFSET: usize = 105;

/// The account tag that starts every layout A buffer.
pub open spec fn whirlpool_tag() -> Seq<u8> {
    seq![63u8, 149u8, 209u8, 12u8, 225u8, 128u8, 99u8, 9u8]
}

/// The account tag that starts every layout B buffer.
pub open spec fn clmm_pool_tag() -> Seq<u8> {
    seq![247u8, 237u8, 227u8, 245u8, 215u8, 195u8, 222u8, 70u8]
}

/// The square-root price held by a layout A buffer, or why it has none.
pub open spec fn whirlpool_sqrt_price(b: Seq<u8>) -> Result<u128, OracleError> {
    if b.len() < WHIRLPOOL_LEN || b.subrange(0, 8) != whirlpool_tag() {
        Err(OracleError::DecodeError)
    } else {
        Ok(le_value(b.subrange(WHIRLPOOL_SQRT_PRICE_OFFSET as int, WHIRLPOOL_SQRT_PRICE_OFFSET + 16)) as u128)
    }
}

/// The square-root price held by a layout B buffer, or why it has none.
/// The tag of a layout B buffer is not checked.
pub open spec fn clmm_sqrt_price(b: Seq<u8>) -> Result<u128, OracleError> {
    if b.len() < CLMM_POOL_LEN {
        Err(OracleError::DecodeError)
    } else {
        Ok(le_value(b.subrange(CLMM_SQRT_PRICE_OFFSET as int, CLMM_SQRT_PRICE_OFFSET + 16)) as u128)
    }
}

/// The price for a decoded square-root price, the error passed on.
pub open spec fn price_of(s: Result<u128, OracleError>) -> Result<u128, OracleError> {
    match s {
        Ok(v) => Ok(spot_price(v as nat) as u128),
        Err(e) => Err(e),
    }
}

/// A fresh layout A account: the tag, then zeros.
pub open spec fn blank_whirlpool() -> Seq<u8> {
    whirlpool_tag() + zeros((WHIRLPOOL_LEN - 8) as nat)
}

/// A fresh layout B account: the tag, then zeros.
pub open spec fn blank_clmm_pool() -> Seq<u8> {
    clmm_pool_tag() + zeros((CLMM_POOL_LEN - 8) as nat)
}

fn whirlpool_tag_bytes() -> (r: [u8; 8])
    ensures
        r@ == whirlpool_tag(),
{
    let r: [u8; 8] = [63, 149, 209, 12, 225, 128, 99, 9];
    assert(r@ =~= whirlpool_tag());
    r
}

fn clmm_pool_tag_bytes() -> (r: [u8; 8])
    ensures
        r@ == clmm_pool_tag(),
{
    let r: [u8; 8] = [247, 237, 227, 245, 215, 195, 222, 70];
    assert(r@ =~= clmm_pool_tag());
    r
}

fn has_whirlpool_tag(data: &[u8]) -> (r: bool)
    requires
        data@.len() >= 8,
    ensures
        r == (data@.subrange(0, 8) == whirlpool_tag()),
{
    let tag = whirlpool_tag_bytes();
    let mut i: usize = 0;
    while i < 8
        invariant
            i <= 8,
            data@.len() >= 8,
            tag@ == whirlpool_tag(),
            data@.subrange(0, i as int) =~= whirlpool_tag().subrange(0, i as int),
        decreases 8 - i,
    {
        if data[i] != tag[i] {
            assert(data@.subrange(0, 8)[i as int] != whirlpool_tag()[i as int]);
            return false;
        }
        i = i + 1;
    }
    assert(data@.subrange(0, 8) =~= whirlpool_tag());
    true
}

/// Reads the square-root price of a layout A buffer, after checking its
/// size and its tag.
pub fn decode_whirlpool_sqrt_price(data: &[u8]) -> (r: Result<u128, OracleError>)
    ensures
        r == whirlpool_sqrt_price(data@),
{
    if data.len() < WHIRLPOOL_LEN || !has_whirlpool_tag(data) {
        Err(OracleError::DecodeError)
    } else {
        Ok(read_le(data, WHIRLPOOL_SQRT_PRICE_OFFSET, 16))
    }
}

/// Reads the square-root price of a layout B buffer, after checking its size.
pub fn decode_clmm_sqrt_price(data: &[u8]) -> (r: Result<u128, OracleError>)
    ensures
        r == clmm_sqrt_price(data@),
{
    if data.len() < CLMM_POOL_LEN {
        Err(OracleError::DecodeError)
    } else {
        Ok(read_le(data, CLMM_SQRT_PRICE_OFFSET, 16))
    }
}

/// The spot price of a layout B pool.
pub fn raydium_clmm_spot_price(data: &[u8]) -> (r: Result<u128, OracleError>)
    ensures
        r == price_of(clmm_sqrt_price(data@)),
{
    match decode_clmm_sqrt_price(data) {
        Ok(s) => Ok(price_from_sqrt_price(s)),
        Err(e) => Err(e),
    }
}

/// Writing a square-root price into a layout A record that decodes, and
/// decoding it again, gives back the price written.
pub proof fn lemma_whirlpool_round_trip(b: Seq<u8>, sqrt_price: u128)
    requires
        whirlpool_sqrt_price(b) is Ok,
    ensures
        whirlpool_sqrt_price(splice(b, WHIRLPOOL_SQRT_PRICE_OFFSET as int, le_bytes(sqrt_price as nat, 16)))
            == Ok::<u128, OracleError>(sqrt_price),
{
    let w = le_bytes(sqrt_price as nat, 16);
    crate::bytes::lemma_le_bytes_len(sqrt_price as nat, 16);
    lemma_read_after_write(b, WHIRLPOOL_SQRT_PRICE_OFFSET as int, sqrt_price);
    lemma_splice_keeps(b, WHIRLPOOL_SQRT_PRICE_OFFSET as int, w, 0, 8);
}

/// Writing a square-root price into a layout B record that decodes, and
/// decoding it again, gives back the price written.
pub proof fn lemma_clmm_round_trip(b: Seq<u8>, sqrt_price: u128)
    requires
        clmm_sqrt_price(b) is Ok,
    ensures
        clmm_sqrt_price(splice(b, CLMM_SQRT_PRICE_OFFSET as int, le_bytes(sqrt_price as nat, 16)))
            == Ok::<u128, OracleError>(sqrt_price),
{
    lemma_read_after_write(b, CLMM_SQRT_PRICE_OFFSET as int, sqrt_price);
}

/// New layout B and layout A accounts for a pool of the two given mints,
/// with a square-root price of zero.
pub fn create_raydium_clmm_and_whirlpool(token_mint_0: &[u8; 32], token_mint_1: &[u8; 32]) -> (r: (
    Vec<u8>,
    Vec<u8>,
))
    ensures
        r.0@ == splice(
            splice(blank_clmm_pool(), CLMM_TOKEN_MINT_0_OFFSET as int, token_mint_0@),
            CLMM_TOKEN_MINT_1_OFFSET as int,
            token_mint_1@,
        ),
        r.1@ == splice(
            splice(blank_whirlpool(), WHIRLPOOL_TOKEN_MINT_A_OFFSET as int, token_mint_0@),
            WHIRLPOOL_TOKEN_MINT_B_OFFSET as int,
            token_mint_1@,
        ),
        clmm_sqrt_price(r.0@) == Ok::<u128, OracleError>(0),
        whirlpool_sqrt_price(r.1@) == Ok::<u128, OracleError>(0),
{
    let ctag = clmm_pool_tag_bytes();
    let mut clmm = zeroed(CLMM_POOL_LEN);
    write_bytes(&mut clmm, 0, ctag.as_slice());
    assert(clmm@ =~= blank_clmm_pool());
    write_bytes(&mut clmm, CLMM_TOKEN_MINT_0_OFFSET, token_mint_0.as_slice());
    write_bytes(&mut clmm, CLMM_TOKEN_MINT_1_OFFSET, token_mint_1.as_slice());
    let wtag = whirlpool_tag_bytes();
    let mut whirlpool = zeroed(WHIRLPOOL_LEN);
    write_bytes(&mut whirlpool, 0, wtag.as_slice());
    assert(whirlpool@ =~= blank_whirlpool());
    write_bytes(&mut whirlpool, WHIRLPOOL_TOKEN_MINT_A_OFFSET, token_mint_0.as_slice());
    write_bytes(&mut whirlpool, WHIRLPOOL_TOKEN_MINT_B_OFFSET, token_mint_1.as_slice());
    proof {
        let c0 = blank_clmm_pool();
        let c1 = splice(c0, CLMM_TOKEN_MINT_0_OFFSET as int, token_mint_0@);
        lemma_splice_keeps(c0, CLMM_TOKEN_MINT_0_OFFSET as int, token_mint_0@, 253, 269);
        lemma_splice_keeps(c1, CLMM_TOKEN_MINT_1_OFFSET as int, token_mint_1@, 253, 269);
        assert(c0.subrange(253, 269) =~= zeros(16));
        lemma_le_value_zeros(16);
        let w0 = blank_whirlpool();
        let w1 = splice(w0, WHIRLPOOL_TOKEN_MINT_A_OFFSET as int, token_mint_0@);
        lemma_splice_keeps(w0, WHIRLPOOL_TOKEN_MINT_A_OFFSET as int, token_mint_0@, 65, 81);
        lemma_splice_keeps(w1, WHIRLPOOL_TOKEN_MINT_B_OFFSET as int, token_mint_1@, 65, 81);
        lemma_splice_keeps(w0, WHIRLPOOL_TOKEN_MINT_A_OFFSET as int, token_mint_0@, 0, 8);
        lemma_splice_keeps(w1, WHIRLPOOL_TOKEN_MINT_B_OFFSET as int, token_mint_1@, 0, 8);
        assert(w0.subrange(65, 81) =~= zeros(16));
        assert(w0.subrange(0, 8) =~= whirlpool_tag());
    }
    (clmm, whirlpool)
}

/// Sets the square-root prices held by a layout B and a layout A account.
/// Both must decode; otherwise neither is changed.
pub fn simulate_price_in_clmm_and_whirlpool(
    raydium_clmm: &mut Vec<u8>,
    whirlpool: &mut Vec<u8>,
    price_clmm: u128,
    price_whirlpool: u128,
) -> (r: Result<(), OracleError>)
    ensures
        r is Err <==> (clmm_sqrt_price(old(raydium_clmm)@) is Err || whirlpool_sqrt_price(old(whirlpool)@) is Err),
        r is Err ==> r == Err::<(), OracleError>(OracleError::DecodeError)
            && final(raydium_clmm)@ == old(raydium_clmm)@
            && final(whirlpool)@ == old(whirlpool)@,
        r is Ok ==> final(raydium_clmm)@ == splice(old(raydium_clmm)@, CLMM_SQRT_PRICE_OFFSET as int, le_bytes(price_clmm as nat, 16))
            && final(whirlpool)@ == splice(old(whirlpool)@, WHIRLPOOL_SQRT_PRICE_OFFSET as int, le_bytes(price_whirlpool as nat, 16))
            && clmm_sqrt_price(final(raydium_clmm)@) == Ok::<u128, OracleError>(price_clmm)
            && whirlpool_sqrt_price(final(whirlpool)@) == Ok::<u128, OracleError>(price_whirlpool),
{
    if decode_clmm_sqrt_price(raydium_clmm.as_slice()).is_err() {
        return Err(OracleError::DecodeError);
    }
    if decode_whirlpool_sqrt_price(whirlpool.as_slice()).is_err() {
        return Err(OracleError::DecodeError);
    }
    proof {
        lemma_clmm_round_trip(raydium_clmm@, price_clmm);
        lemma_whirlpool_round_trip(whirlpool@, price_whirlpool);
    }
    write_u128_le(raydium_clmm, CLMM_SQRT_PRICE_OFFSET, price_clmm);
    write_u128_le(whirlpool, WHIRLPOOL_SQRT_PRICE_OFFSET, price_whirlpool);
    Ok(())
}

} // verus!
