//! The bounds that the compiler puts on integers of a given width.

use vstd::prelude::*;
use vstd::arithmetic::power2::{lemma2_to64, lemma2_to64_rest, lemma_pow2_adds, lemma_pow2_strictly_increases, lemma_pow2_unfold, pow2};

verus! {

/// The bound above which a signed integer of `bits` bits does not go:
/// 2^(bits-1) - 1.
pub open spec fn spec_signed_highbound(bits: nat) -> int {
    pow2((bits - 1) as nat) - 1
}

/// The bound below which a signed integer of `bits` bits does not go:
/// -2^(bits-1), the least value of two's complement.
pub open spec fn spec_signed_lowbound(bits: nat) -> int {
    0 - pow2((bits - 1) as nat)
}

/// The bound above which an unsigned integer of `bits` bits does not go:
/// 2^bits - 1.
pub open spec fn spec_unsigned_highbound(bits: nat) -> int {
    pow2(bits) - 1
}

pub open spec fn spec_fits_signed(bits: nat, num: int) -> bool {
    spec_signed_lowbound(bits) <= num <= spec_signed_highbound(bits)
}

pub open spec fn spec_fits_unsigned(bits: nat, num: int) -> bool {
    0 <= num <= spec_unsigned_highbound(bits)
}

/// 2^126, the largest power of two that this module computes in an `i128`.
pub proof fn lemma_pow2_126()
    ensures
        pow2(126) == 0x4000_0000_0000_0000_0000_0000_0000_0000,
{
    lemma2_to64();
    lemma2_to64_rest();
    lemma_pow2_adds(63, 63);
    assert(pow2(63) == 0x8000_0000_0000_0000);
    assert(0x8000_0000_0000_0000int * 0x8000_0000_0000_0000int
        == 0x4000_0000_0000_0000_0000_0000_0000_0000int) by (nonlinear_arith);
}

/// Two to the power of `exp`.
fn power_of_two(exp: usize) -> (r: i128)
    requires
        exp <= 126,
    ensures
        r == pow2(exp as nat),
        1 <= r <= 0x4000_0000_0000_0000_0000_0000_0000_0000,
{
    let mut r: i128 = 1;
    let mut i: usize = 0;
    proof {
        lemma2_to64();
        lemma_pow2_126();
    }
    while i < exp
        invariant
            i <= exp <= 126,
            r == pow2(i as nat),
            1 <= r,
            pow2(126) == 0x4000_0000_0000_0000_0000_0000_0000_0000,
        decreases exp - i,
    {
        proof {
            lemma_pow2_unfold((i + 1) as nat);
            if i + 1 < 126 {
                lemma_pow2_strictly_increases((i + 1) as nat, 126);
            }
        }
        r = r * 2;
        i += 1;
    }
    proof {
        if exp < 126 {
            lemma_pow2_strictly_increases(exp as nat, 126);
        }
    }
    r
}

/// 2^127, one above the greatest value of an `i128`.
pub proof fn lemma_pow2_127()
    ensures
        pow2(127) == 0x8000_0000_0000_0000_0000_0000_0000_0000,
{
    lemma_pow2_126();
    lemma_pow2_unfold(127);
}

pub fn get_signed_highbound(bits: usize) -> (r: i128)
    requires
        1 <= bits <= 128,
    ensures
        r == spec_signed_highbound(bits as nat),
{
    if bits == 128 {
        proof {
            lemma_pow2_127();
        }
        return i128::MAX;
    }
    power_of_two(bits - 1) - 1
}

pub fn get_signed_lowbound(bits: usize) -> (r: i128)
    requires
        1 <= bits <= 128,
    ensures
        r == spec_signed_lowbound(bits as nat),
{
    if bits == 128 {
        proof {
            lemma_pow2_127();
        }
        return i128::MIN;
    }
    0 - power_of_two(bits - 1)
}

pub fn get_unsigned_highbound(bits: usize) -> (r: i128)
    requires
        bits <= 127,
    ensures
        r == spec_unsigned_highbound(bits as nat),
{
    if bits == 127 {
        proof {
            lemma_pow2_127();
        }
        return i128::MAX;
    }
    power_of_two(bits) - 1
}

pub fn can_num_fit_inbits_signed(bits: usize, num: i128) -> (r: bool)
    requires
        1 <= bits <= 128,
    ensures
        r == spec_fits_signed(bits as nat, num as int),
{
    num >= get_signed_lowbound(bits) && num <= get_signed_highbound(bits)
}

pub fn can_num_fit_inbits_unsigned(bits: usize, num: i128) -> (r: bool)
    requires
        bits <= 127,
    ensures
        r == spec_fits_unsigned(bits as nat, num as int),
{
    num >= 0 && num <= get_unsigned_highbound(bits)
}

} // verus!
