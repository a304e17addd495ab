//! Conversion of a 64.64 fixed-point square-root price into a price.
use vstd::prelude::*;

verus! {

/// One unit in 64.64 fixed point.
pub const Q64: u128 = 0x1_0000_0000_0000_0000;

/// The price for the raw 64.64 square-root price `s`: its integer part,
/// squared. The fractional part is dropped before squaring.
pub open spec fn spot_price(s: nat) -> nat {
    (s / (Q64 as nat)) * (s / (Q64 as nat))
}

/// Squares the integer part of a 64.64 square-root price. Never overflows:
/// the integer part of a `u128` in 64.64 is below `2^64`.
pub fn price_from_sqrt_price(sqrt_price: u128) -> (r: u128)
    ensures
        r as nat == spot_price(sqrt_price as nat),
{
    let whole = sqrt_price / Q64;
    assert(whole < Q64);
    assert(whole * whole < 0x1_0000_0000_0000_0000_0000_0000_0000_0000) by (nonlinear_arith)
        requires
            whole < 0x1_0000_0000_0000_0000,
    ;
    whole * whole
}

} // verus!
