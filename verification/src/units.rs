//! Units of measurement, the fixed sizes and speeds of the game, and the
//! saturating arithmetic by which positions change.
//!
//! Positions are whole numbers of thousandths of a pixel, headings are whole
//! numbers of millionths, and time is counted in microseconds. Every step of the
//! simulation is therefore exact integer arithmetic.

use vstd::arithmetic::div_mod::lemma_fundamental_div_mod;
use vstd::prelude::*;

verus! {

/// Position units in one pixel.
pub const UNITS_PER_PIXEL: i64 = 1_000;

/// Width of the player's rectangle (20 pixels), in position units.
pub const PLAYER_SIZE_WIDTH: i64 = 20_000;

/// Height of the player's rectangle (70 pixels), in position units.
pub const PLAYER_SIZE_HEIGHT: i64 = 70_000;

/// Speed of the player (600 pixels per second), in position units per second.
pub const PLAYER_SPEED: u32 = 600_000;

/// How many balls are put into play.
pub const NUMBER_OF_BALLS: usize = 3;

/// Speed of a ball (600 pixels per second), in position units per second.
pub const BALL_SPEED: u32 = 600_000;

/// Diameter of a ball (32 pixels), in position units.
pub const BALL_SIZE: i64 = 32_000;

/// The length of a unit heading: a component of this size stands for 1.
pub const DIRECTION_ONE: i32 = 1_000_000;

/// Time units in one second.
pub const MICROS_PER_SECOND: u64 = 1_000_000;

/// `DIRECTION_ONE * MICROS_PER_SECOND`: what the product of a heading's
/// component, a speed and a time is divided by to give a distance.
pub const TRAVEL_DIVISOR: u128 = 1_000_000_000_000;

/// The mathematical integer `v` brought into the range of `i64`.
pub open spec fn saturate(v: int) -> int {
    if v < i64::MIN {
        i64::MIN as int
    } else if v > i64::MAX {
        i64::MAX as int
    } else {
        v
    }
}

/// One of `parts` equal parts of `extent`, rounded to the nearest whole
/// unit, a half upward.
pub open spec fn nearest_part(extent: int, parts: int) -> int {
    (2 * extent + parts) / (2 * parts)
}

/// Distance covered along one axis in `dt` microseconds at `speed` position
/// units per second, when the heading's component on that axis is `dir`
/// millionths. The magnitude is rounded toward zero, so opposite headings
/// cover opposite distances.
pub open spec fn travel(dir: int, speed: int, dt: int) -> int {
    if dir >= 0 {
        (dir * speed * dt) / (TRAVEL_DIVISOR as int)
    } else {
        -(((-dir) * speed * dt) / (TRAVEL_DIVISOR as int))
    }
}

/// The coordinate reached from `pos` after travelling for `dt` microseconds.
/// A coordinate that would leave the range of `i64` stops at its end.
pub open spec fn advanced(pos: int, dir: int, speed: int, dt: int) -> int {
    saturate(pos + travel(dir, speed, dt))
}

/// Narrows a wide intermediate result to `i64`, stopping at the ends of the range.
pub fn saturate_i128(v: i128) -> (r: i64)
    ensures
        r == saturate(v as int),
{
    if v < i64::MIN as i128 {
        i64::MIN
    } else if v > i64::MAX as i128 {
        i64::MAX
    } else {
        v as i64
    }
}

/// Moves one coordinate along one axis for `dt` microseconds.
pub fn advance(pos: i64, dir: i32, speed: u32, dt: u64) -> (r: i64)
    ensures
        r == advanced(pos as int, dir as int, speed as int, dt as int),
{
    let magnitude: u128 = if dir < 0 {
        (-(dir as i64)) as u128
    } else {
        dir as u128
    };
    assert(magnitude * speed <= 0x8000_0000 * 0xFFFF_FFFF) by (nonlinear_arith)
        requires
            magnitude <= 0x8000_0000,
            speed <= 0xFFFF_FFFF,
    ;
    let rate: u128 = magnitude * (speed as u128);
    assert(rate * dt <= 0x8000_0000 * 0xFFFF_FFFF * 0xFFFF_FFFF_FFFF_FFFF) by (nonlinear_arith)
        requires
            rate <= 0x8000_0000 * 0xFFFF_FFFF,
            dt <= 0xFFFF_FFFF_FFFF_FFFF,
    ;
    let product: u128 = rate * (dt as u128);
    let steps: u128 = product / TRAVEL_DIVISOR;
    let signed: i128 = if dir < 0 {
        -(steps as i128)
    } else {
        steps as i128
    };
    saturate_i128(pos as i128 + signed)
}

/// Computes one of `parts` equal parts of `extent`, rounded to the nearest
/// whole unit.
pub(crate) fn nearest_part_of(extent: u32, parts: u32) -> (r: i64)
    requires
        0 < parts,
    ensures
        r == nearest_part(extent as int, parts as int),
        0 <= r <= extent,
{
    let doubled: u64 = 2 * (extent as u64) + parts as u64;
    let divisor: u64 = 2 * (parts as u64);
    let r: u64 = doubled / divisor;
    proof {
        lemma_nearest_part_is_nearest(extent as int, parts as int);
    }
    r as i64
}

/// The rounded part differs from the exact one by at most half a unit, and
/// by less than that downward.
pub proof fn lemma_nearest_part_is_nearest(extent: int, parts: int)
    requires
        0 <= extent,
        0 < parts,
    ensures
        -parts < 2 * (parts * nearest_part(extent, parts) - extent) <= parts,
        0 <= nearest_part(extent, parts) <= extent,
{
    let q: int = nearest_part(extent, parts);
    lemma_fundamental_div_mod(2 * extent + parts, 2 * parts);
    assert((2 * parts) * q == 2 * (parts * q)) by (nonlinear_arith);
    assert(0 <= q <= extent) by (nonlinear_arith)
        requires
            0 <= extent,
            0 < parts,
            -parts < 2 * (parts * q - extent) <= parts,
    ;
}

} // verus!
