//! Basis-point arithmetic shared by the instructions.
use vstd::prelude::*;

verus! {

/// `amount * bps / 10_000`, rounded down.
pub open spec fn bps_of(amount: u64, bps: u16) -> int {
    (amount as int * bps as int) / 10_000
}

/// `bps_of(amount, bps)` cut to its low 64 bits, as a cast to `u64` does.
pub open spec fn bps_of_wrapped(amount: u64, bps: u16) -> u64 {
    (bps_of(amount, bps) % 0x1_0000_0000_0000_0000) as u64
}

/// A basis-point part of `amount`, computed in 128 bits and cast back to 64 bits
/// (which wraps when `bps` exceeds 10_000 and the part exceeds `u64::MAX`).
pub fn bps_of_truncating(amount: u64, bps: u16) -> (r: u64)
    ensures
        r == bps_of_wrapped(amount, bps),
        bps_of(amount, bps) <= u64::MAX ==> r == bps_of(amount, bps),
{
    let a = amount as u128;
    let b = bps as u128;
    assert(a * b <= u64::MAX as int * 65535) by (nonlinear_arith)
        requires
            a <= u64::MAX,
            b <= 65535,
    ;
    let x = a * b / 10_000;
    let r = x as u64;
    assert(r == x % 0x1_0000_0000_0000_0000) by (bit_vector)
        requires
            r == x as u64,
    ;
    r
}

/// A basis-point part never exceeds the amount when the rate is at most 100%.
pub proof fn lemma_bps_of_le_amount(amount: u64, bps: u16)
    requires
        bps <= 10_000,
    ensures
        0 <= bps_of(amount, bps) <= amount,
{
    assert(0 <= (amount as int * bps as int) / 10_000 <= amount) by (nonlinear_arith)
        requires
            bps <= 10_000,
            amount >= 0,
    ;
}

} // verus!
