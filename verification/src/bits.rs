//! Powers of two, masks and alignment.

use vstd::arithmetic::{div_mod, power, power2};
use vstd::prelude::*;

verus! {

/// `value` is a multiple of `alignment`.
pub open spec fn multiple_of(value: int, alignment: int) -> bool {
    value % alignment == 0
}

/// `value` is a power of two.
pub open spec fn is_power_of_two(value: u64) -> bool {
    exists|exponent: nat| value == #[trigger] power2::pow2(exponent)
}

/// Tells whether `value` is a power of two.
pub fn power_of_two(value: u64) -> (result: bool)
    ensures
        result == is_power_of_two(value),
{
    let mut power: u64 = 1;
    let ghost mut exponent: nat = 0;
    proof {
        power2::lemma_pow2(0);
        power::lemma_pow0(2);
    }
    while power < value
        invariant
            power >= 1,
            power == power2::pow2(exponent),
            forall|smaller: nat| smaller < exponent ==> #[trigger] power2::pow2(smaller) < value,
        decreases u64::MAX - power,
    {
        if power > u64::MAX / 2 {
            proof {
                assert forall|other: nat| value != #[trigger] power2::pow2(other) by {
                    power2::lemma_pow2_unfold(exponent + 1);
                    if other > exponent + 1 {
                        power2::lemma_pow2_strictly_increases(exponent + 1, other);
                    }
                }
            }
            return false;
        }
        proof {
            power2::lemma_pow2_unfold(exponent + 1);
            exponent = exponent + 1;
        }
        power = power * 2;
    }
    proof {
        if power != value {
            assert forall|other: nat| value != #[trigger] power2::pow2(other) by {
                if other > exponent {
                    power2::lemma_pow2_strictly_increases(exponent, other);
                }
            }
        }
    }
    power == value
}

/// A power of two is at least one.
pub proof fn lemma_power_is_positive(value: u64)
    requires
        is_power_of_two(value),
    ensures
        value >= 1,
{
    let exponent = choose|exponent: nat| value == #[trigger] power2::pow2(exponent);
    power2::lemma_pow2_pos(exponent);
}

/// Masking with one less than a power of two is the remainder, and masking
/// with its complement drops the remainder.
pub proof fn lemma_masks(value: u64, power: u64)
    requires
        is_power_of_two(power),
    ensures
        power >= 1,
        value & (power - 1) as u64 == value % power,
        value & !((power - 1) as u64) == value - value % power,
{
    lemma_power_is_positive(power);
    let exponent = choose|exponent: nat| power == #[trigger] power2::pow2(exponent);
    if exponent >= 64 {
        power2::lemma2_to64();
        power2::lemma2_to64_rest();
        if exponent > 64 {
            power2::lemma_pow2_strictly_increases(64, exponent);
        }
        assert(false);
    }
    vstd::bits::lemma_u64_low_bits_mask_is_mod(value, exponent);
    let mask = (power - 1) as u64;
    assert(vstd::bits::low_bits_mask(exponent) == power - 1);
    assert(value & !mask == value - (value & mask)) by (bit_vector);
}

/// Rounds `value` up to the next multiple of the power of two `alignment`.
pub fn align_up(value: u64, alignment: u64) -> (aligned: Option<u64>)
    requires
        is_power_of_two(alignment),
    ensures
        match aligned {
            Some(aligned) => {
                &&& multiple_of(aligned as int, alignment as int)
                &&& value <= aligned
                &&& forall|other: int|
                    value <= other && #[trigger] multiple_of(other, alignment as int) ==> aligned
                        <= other
            },
            None => value + (alignment - 1) > u64::MAX,
        },
{
    proof {
        lemma_power_is_positive(alignment);
    }
    match value.checked_add(alignment - 1) {
        Some(sum) => {
            proof {
                lemma_masks(sum, alignment);
                let a = alignment as int;
                let s = sum as int;
                assert((s - s % a) % a == 0) by (nonlinear_arith)
                    requires
                        a >= 1,
                        s >= 0,
                ;
                assert forall|other: int| value <= other && #[trigger] multiple_of(other, a) implies s - s % a
                    <= other by {
                    lemma_next_multiple(s, other, a);
                }
            }
            Some(sum & !(alignment - 1))
        },
        None => None,
    }
}

proof fn lemma_next_multiple(sum: int, other: int, alignment: int)
    requires
        alignment >= 1,
        sum >= 0,
        sum <= other + alignment - 1,
        other % alignment == 0,
    ensures
        sum - sum % alignment <= other,
{
    let floor = sum - sum % alignment;
    if floor > other {
        div_mod::lemma_fundamental_div_mod(sum, alignment);
        div_mod::lemma_fundamental_div_mod(other, alignment);
        let q = sum / alignment;
        let p = other / alignment;
        assert(floor == alignment * q);
        assert(other == alignment * p);
        assert(q >= p + 1) by (nonlinear_arith)
            requires
                alignment * q > alignment * p,
                alignment >= 1,
        ;
        assert(alignment * q >= alignment * p + alignment) by (nonlinear_arith)
            requires
                q >= p + 1,
                alignment >= 1,
        ;
        div_mod::lemma_mod_bound(sum, alignment);
    }
}

/// One is a power of two, zero is none; the double of a power of two is one, and a
/// larger number is one exactly when it is even and its half is one.
pub proof fn law_powers_of_two_double(value: u64)
    ensures
        is_power_of_two(1),
        !is_power_of_two(0),
        value > 1 ==> (is_power_of_two(value) <==> value % 2 == 0 && is_power_of_two(
            (value / 2) as u64,
        )),
{
    power2::lemma2_to64();
    assert(power2::pow2(0) == 1);
    if is_power_of_two(0) {
        lemma_power_is_positive(0);
    }
    if value > 1 {
        if is_power_of_two(value) {
            let exponent = choose|exponent: nat| value == #[trigger] power2::pow2(exponent);
            assert(exponent > 0);
            power2::lemma_pow2_unfold(exponent);
            assert(value / 2 == power2::pow2((exponent - 1) as nat));
        }
        if value % 2 == 0 && is_power_of_two((value / 2) as u64) {
            let exponent = choose|exponent: nat| value / 2 == #[trigger] power2::pow2(exponent);
            power2::lemma_pow2_unfold(exponent + 1);
            assert(value == power2::pow2(exponent + 1));
        }
    }
}

} // verus!
