//! Fixed-point scalars. Every neuron value, weight and vital is an integer count of
//! thousandths: `UNIT` stands for 1.0.

use vstd::prelude::*;

verus! {

/// The fixed-point representation of 1.0.
pub const UNIT: i32 = 1000;

/// The largest magnitude of a gene's weight (4.0).
pub const MAX_WEIGHT: i32 = 4000;

/// `UNIT` squared: the scale of a product of two fixed-point scalars.
pub const UNIT_SQUARED: i128 = 1_000_000;

/// Whether `v` lies in the signed unit range `[-1.0, 1.0]`.
pub open spec fn in_signed_unit(v: int) -> bool {
    -(UNIT as int) <= v <= UNIT as int
}

/// Whether `v` lies in the unsigned unit range `[0.0, 1.0]`.
pub open spec fn in_unit(v: int) -> bool {
    0 <= v <= UNIT as int
}

/// The saturating activation of an accumulator. `raw` carries the scale of a product
/// (`UNIT` squared per 1.0); the result is `raw` brought back to the scale of a scalar,
/// rounded toward zero, and held to `[-1.0, 1.0]`.
pub open spec fn activation(raw: int) -> int {
    if raw >= UNIT_SQUARED as int {
        UNIT as int
    } else if raw <= -(UNIT_SQUARED as int) {
        -(UNIT as int)
    } else if raw >= 0 {
        raw / (UNIT as int)
    } else {
        -((-raw) / (UNIT as int))
    }
}

/// Activation never leaves the saturation range, whatever the accumulator holds.
pub proof fn lemma_activation_bounded(raw: int)
    ensures
        in_signed_unit(activation(raw)),
{
}

/// Activation of an accumulator.
pub fn activate(raw: i128) -> (r: i32)
    ensures
        r == activation(raw as int),
        in_signed_unit(r as int),
{
    if raw >= UNIT_SQUARED {
        UNIT
    } else if raw <= -UNIT_SQUARED {
        -UNIT
    } else if raw >= 0 {
        (raw / 1000) as i32
    } else {
        let magnitude: i128 = (-raw) / 1000;
        -(magnitude as i32)
    }
}

/// `part / whole` as a fixed-point scalar held to `[0.0, 1.0]`; 0.0 where `whole` is 0.
pub open spec fn proportion(part: int, whole: int) -> int {
    if whole <= 0 || part <= 0 {
        0
    } else if part >= whole {
        UNIT as int
    } else {
        (part * UNIT) / whole
    }
}

/// A proportion is a scalar of the unsigned unit range.
pub proof fn lemma_proportion_bounded(part: int, whole: int)
    ensures
        in_unit(proportion(part, whole)),
{
    if whole > 0 && 0 < part < whole {
        assert(0 <= (part * 1000) / whole <= 1000) by (nonlinear_arith)
            requires
                0 < part < whole,
        ;
    }
}

/// `part / whole` as a fixed-point scalar.
pub fn scaled_proportion(part: usize, whole: usize) -> (r: i32)
    ensures
        r == proportion(part as int, whole as int),
        in_unit(r as int),
{
    proof {
        lemma_proportion_bounded(part as int, whole as int);
    }
    if whole == 0 || part == 0 {
        0
    } else if part >= whole {
        UNIT
    } else {
        let wide: u128 = (part as u128) * 1000;
        (wide / (whole as u128)) as i32
    }
}

/// The product of a weight and a scalar, at the scale of `UNIT` squared.
pub fn weighted(weight: i32, value: i32) -> (r: i128)
    requires
        -(MAX_WEIGHT as int) <= weight <= MAX_WEIGHT as int,
        in_signed_unit(value as int),
    ensures
        r == weight * value,
        -4_000_000 <= r <= 4_000_000,
{
    assert(-4_000_000 <= weight * value <= 4_000_000) by (nonlinear_arith)
        requires
            -4000 <= weight <= 4000,
            -1000 <= value <= 1000,
    ;
    (weight as i128) * (value as i128)
}

} // verus!
