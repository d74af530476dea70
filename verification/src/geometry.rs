//! Positions and headings in the plane.

use crate::roots::{floor_sqrt, isqrt, lemma_floor_sqrt_exists};
use crate::units::DIRECTION_ONE;
use vstd::arithmetic::div_mod::lemma_fundamental_div_mod;
use vstd::prelude::*;

verus! {

/// A position in the plane, in position units.
#[derive(Clone, Copy, Debug, PartialEq, Eq, Structural)]
pub struct Point {
    pub x: i64,
    pub y: i64,
}

/// The mathematical point that a [`Point`] stands for.
pub struct PointView {
    pub x: int,
    pub y: int,
}

impl View for Point {
    type V = PointView;

    open spec fn view(&self) -> PointView {
        PointView { x: self.x as int, y: self.y as int }
    }
}

/// A heading: a vector whose components are counted in millionths and lie
/// between `-DIRECTION_ONE` and `DIRECTION_ONE`.
#[derive(Clone, Copy, Debug, PartialEq, Eq)]
pub struct Direction {
    x: i32,
    y: i32,
}

/// The mathematical vector that a [`Direction`] stands for.
pub struct DirectionView {
    pub x: int,
    pub y: int,
}

impl View for Direction {
    type V = DirectionView;

    closed spec fn view(&self) -> DirectionView {
        DirectionView { x: self.x as int, y: self.y as int }
    }
}

/// The absolute value of `v`.
pub open spec fn magnitude(v: int) -> int {
    if v < 0 {
        -v
    } else {
        v
    }
}

impl DirectionView {
    /// The square of the vector's length.
    pub open spec fn norm_sq(self) -> int {
        self.x * self.x + self.y * self.y
    }

    /// Both components can be held by a [`Direction`].
    pub open spec fn in_range(self) -> bool {
        &&& -DIRECTION_ONE <= self.x <= DIRECTION_ONE
        &&& -DIRECTION_ONE <= self.y <= DIRECTION_ONE
    }

    /// The vector has length 1 as nearly as whole millionths allow: it is no
    /// longer than 1, and lengthening both components by one millionth would
    /// make it longer than 1.
    pub open spec fn is_unit(self) -> bool {
        &&& self.norm_sq() <= DIRECTION_ONE * DIRECTION_ONE
        &&& DIRECTION_ONE * DIRECTION_ONE < (magnitude(self.x) + 1) * (magnitude(self.x) + 1) + (
        magnitude(self.y) + 1) * (magnitude(self.y) + 1)
    }

    /// The same vector with its horizontal component negated.
    pub open spec fn flipped_x(self) -> DirectionView {
        DirectionView { x: -self.x, y: self.y }
    }

    /// The same vector with its vertical component negated.
    pub open spec fn flipped_y(self) -> DirectionView {
        DirectionView { x: self.x, y: -self.y }
    }

    /// The opposite vector.
    pub open spec fn reversed(self) -> DirectionView {
        DirectionView { x: -self.x, y: -self.y }
    }
}

/// One component of the unit vector along `(a, b)`, where `a` and `b` are not
/// negative and not both zero: `DIRECTION_ONE * a / sqrt(a * a + b * b)`,
/// rounded down.
pub open spec fn unit_component(a: int, b: int) -> int {
    floor_sqrt((DIRECTION_ONE * DIRECTION_ONE * (a * a)) / (a * a + b * b))
}

/// The component along `v` of the unit vector that points the way of `(v, w)`.
pub open spec fn signed_unit_component(v: int, w: int) -> int {
    if v == 0 {
        0
    } else if v > 0 {
        unit_component(v, magnitude(w))
    } else {
        -unit_component(-v, magnitude(w))
    }
}

/// The vector `(x, y)` scaled to length 1, each component rounded toward
/// zero to whole millionths. The zero vector stays zero.
pub open spec fn normalized(x: int, y: int) -> DirectionView {
    DirectionView { x: signed_unit_component(x, y), y: signed_unit_component(y, x) }
}

/// The sample that a random word stands for, as a count of `2^-24`ths: its
/// upper 24 bits. The sample itself is this count over `2^24`, a fraction at
/// least 0 and less than 1.
pub open spec fn sample_of(word: int) -> int {
    word / 256
}

/// The heading drawn from two random words: the unit vector along the pair
/// of their samples. Where both samples are zero there is no such vector, and
/// the heading is the diagonal.
pub open spec fn sampled_direction(a: int, b: int) -> DirectionView {
    if sample_of(a) == 0 && sample_of(b) == 0 {
        normalized(1, 1)
    } else {
        normalized(sample_of(a), sample_of(b))
    }
}

/// `unit_component(a, b)` is `DIRECTION_ONE * a / sqrt(a * a + b * b)` rounded
/// down: it is the largest whole number whose square, times the square of the
/// vector's length, does not exceed the square of `DIRECTION_ONE * a`.
pub proof fn lemma_unit_component_is_scaled(a: int, b: int)
    requires
        0 <= a,
        0 <= b,
        0 < a + b,
    ensures
        0 <= unit_component(a, b),
        unit_component(a, b) * unit_component(a, b) * (a * a + b * b) <= DIRECTION_ONE
            * DIRECTION_ONE * (a * a),
        DIRECTION_ONE * DIRECTION_ONE * (a * a) < (unit_component(a, b) + 1) * (unit_component(a, b)
            + 1) * (a * a + b * b),
{
    let k: int = DIRECTION_ONE * DIRECTION_ONE;
    let n: int = a * a + b * b;
    let scaled: int = k * (a * a);
    let q: int = scaled / n;
    assert(n > 0 && scaled >= 0) by (nonlinear_arith)
        requires
            0 <= a,
            0 <= b,
            0 < a + b,
            n == a * a + b * b,
            k == 1_000_000_000_000,
            scaled == k * (a * a),
    ;
    lemma_fundamental_div_mod(scaled, n);
    assert(q >= 0) by (nonlinear_arith)
        requires
            n > 0,
            scaled >= 0,
            q == scaled / n,
    ;
    lemma_floor_sqrt_exists(q);
    let d: int = floor_sqrt(q);
    assert(d == unit_component(a, b));
    assert(d * d * n <= scaled) by (nonlinear_arith)
        requires
            n > 0,
            d * d <= q,
            n * q <= scaled,
    ;
    assert(scaled < (d + 1) * (d + 1) * n) by (nonlinear_arith)
        requires
            n > 0,
            q + 1 <= (d + 1) * (d + 1),
            scaled < n * q + n,
    ;
}

/// The two components of the unit vector along `(a, b)` each lie between 0 and
/// `DIRECTION_ONE`, and together they make a vector of length 1 as nearly as
/// whole millionths allow.
pub proof fn lemma_unit_components(a: int, b: int)
    requires
        0 <= a,
        0 <= b,
        0 < a + b,
    ensures
        0 <= unit_component(a, b) <= DIRECTION_ONE,
        0 <= unit_component(b, a) <= DIRECTION_ONE,
        (DirectionView { x: unit_component(a, b), y: unit_component(b, a) }).is_unit(),
{
    let k: int = DIRECTION_ONE * DIRECTION_ONE;
    let n: int = a * a + b * b;
    let dx: int = unit_component(a, b);
    let dy: int = unit_component(b, a);
    lemma_unit_component_is_scaled(a, b);
    lemma_unit_component_is_scaled(b, a);
    assert(b * b + a * a == n);
    assert(n > 0) by (nonlinear_arith)
        requires
            0 <= a,
            0 <= b,
            0 < a + b,
            n == a * a + b * b,
    ;
    let lo: int = dx * dx + dy * dy;
    let hi: int = (dx + 1) * (dx + 1) + (dy + 1) * (dy + 1);
    assert(lo * n <= k * n) by (nonlinear_arith)
        requires
            lo == dx * dx + dy * dy,
            n == a * a + b * b,
            dx * dx * n <= k * (a * a),
            dy * dy * n <= k * (b * b),
    ;
    assert(lo <= k) by (nonlinear_arith)
        requires
            n > 0,
            lo * n <= k * n,
    ;
    assert(hi * n > k * n) by (nonlinear_arith)
        requires
            hi == (dx + 1) * (dx + 1) + (dy + 1) * (dy + 1),
            n == a * a + b * b,
            k * (a * a) < (dx + 1) * (dx + 1) * n,
            k * (b * b) < (dy + 1) * (dy + 1) * n,
    ;
    assert(hi > k) by (nonlinear_arith)
        requires
            n > 0,
            hi * n > k * n,
    ;
    assert(dx <= 1_000_000 && dy <= 1_000_000) by (nonlinear_arith)
        requires
            0 <= dx,
            0 <= dy,
            dx * dx + dy * dy <= 1_000_000_000_000,
    ;
}

/// A vector other than zero, once normalized, has length 1 as nearly as whole
/// millionths allow, and points into the same quadrant.
pub proof fn lemma_normalized_is_unit(x: int, y: int)
    requires
        x != 0 || y != 0,
    ensures
        normalized(x, y).is_unit(),
        normalized(x, y).in_range(),
        x >= 0 ==> normalized(x, y).x >= 0,
        x <= 0 ==> normalized(x, y).x <= 0,
        y >= 0 ==> normalized(x, y).y >= 0,
        y <= 0 ==> normalized(x, y).y <= 0,
{
    let a = magnitude(x);
    let b = magnitude(y);
    lemma_unit_components(a, b);
    let dx = unit_component(a, b);
    let dy = unit_component(b, a);
    if x == 0 {
        lemma_zero_component(b);
    }
    if y == 0 {
        lemma_zero_component(a);
    }
    let d = normalized(x, y);
    assert(magnitude(d.x) == dx);
    assert(magnitude(d.y) == dy);
    assert(d.x * d.x == dx * dx) by (nonlinear_arith)
        requires
            d.x == dx || d.x == -dx,
    ;
    assert(d.y * d.y == dy * dy) by (nonlinear_arith)
        requires
            d.y == dy || d.y == -dy,
    ;
}

/// A vector of length 1 is not the zero vector, and a [`Direction`] can hold it.
pub proof fn lemma_unit_is_in_range(d: DirectionView)
    requires
        d.is_unit(),
    ensures
        d.in_range(),
        d.x != 0 || d.y != 0,
{
    assert(DIRECTION_ONE * DIRECTION_ONE == 1_000_000_000_000) by (nonlinear_arith);
    assert(-1_000_000 <= d.x <= 1_000_000 && -1_000_000 <= d.y <= 1_000_000) by (nonlinear_arith)
        requires
            d.x * d.x + d.y * d.y <= 1_000_000_000_000,
    ;
    if d.x == 0 && d.y == 0 {
        assert((magnitude(d.x) + 1) * (magnitude(d.x) + 1) + (magnitude(d.y) + 1) * (magnitude(d.y)
            + 1) == 2);
    }
}

/// A vector along one axis has no component along the other.
pub proof fn lemma_zero_component(b: int)
    requires
        0 < b,
    ensures
        unit_component(0, b) == 0,
{
    let n: int = 0 * 0 + b * b;
    assert(n > 0) by (nonlinear_arith)
        requires
            0 < b,
            n == 0 * 0 + b * b,
    ;
    assert(DIRECTION_ONE * DIRECTION_ONE * (0 * 0) == 0) by (nonlinear_arith);
    assert(0int / n == 0) by (nonlinear_arith)
        requires
            n > 0,
    ;
    crate::roots::lemma_floor_sqrt_is(0, 0);
}

/// A heading drawn from two random words has length 1 as nearly as whole
/// millionths allow, and neither component is negative.
pub proof fn lemma_sampled_direction_is_unit(a: int, b: int)
    requires
        0 <= a,
        0 <= b,
    ensures
        sampled_direction(a, b).is_unit(),
        sampled_direction(a, b).in_range(),
        sampled_direction(a, b).x >= 0,
        sampled_direction(a, b).y >= 0,
{
    if sample_of(a) == 0 && sample_of(b) == 0 {
        lemma_normalized_is_unit(1, 1);
    } else {
        lemma_normalized_is_unit(sample_of(a), sample_of(b));
    }
}

impl Direction {
    #[verifier::type_invariant]
    spec fn components_in_range(self) -> bool {
        &&& -DIRECTION_ONE <= self.x <= DIRECTION_ONE
        &&& -DIRECTION_ONE <= self.y <= DIRECTION_ONE
    }

    /// The heading with the given components, if both lie between
    /// `-DIRECTION_ONE` and `DIRECTION_ONE`.
    pub fn new(x: i32, y: i32) -> (r: Option<Direction>)
        ensures
            r is Some <==> (DirectionView { x: x as int, y: y as int }).in_range(),
            r is Some ==> r->0@ == (DirectionView { x: x as int, y: y as int }),
    {
        if -DIRECTION_ONE <= x && x <= DIRECTION_ONE && -DIRECTION_ONE <= y && y <= DIRECTION_ONE {
            Some(Direction { x, y })
        } else {
            None
        }
    }

    /// The heading of something at rest.
    pub fn zero() -> (r: Direction)
        ensures
            r@ == (DirectionView { x: 0, y: 0 }),
    {
        Direction { x: 0, y: 0 }
    }

    /// The horizontal component, in millionths.
    pub fn x(&self) -> (r: i32)
        ensures
            r == self@.x,
            self@.in_range(),
    {
        proof {
            use_type_invariant(self);
        }
        self.x
    }

    /// The vertical component, in millionths.
    pub fn y(&self) -> (r: i32)
        ensures
            r == self@.y,
            self@.in_range(),
    {
        proof {
            use_type_invariant(self);
        }
        self.y
    }

    /// The square of the heading's length, counted in millionths of a millionth.
    pub fn norm_sq(&self) -> (r: u64)
        ensures
            r == self@.norm_sq(),
    {
        proof {
            use_type_invariant(self);
        }
        let x: i64 = self.x as i64;
        let y: i64 = self.y as i64;
        assert(0 <= x * x <= 1_000_000_000_000 && 0 <= y * y <= 1_000_000_000_000)
            by (nonlinear_arith)
            requires
                -1_000_000 <= x <= 1_000_000,
                -1_000_000 <= y <= 1_000_000,
        ;
        (x * x + y * y) as u64
    }

    /// Tells whether the heading has length 1 as nearly as whole millionths allow.
    pub fn is_unit(&self) -> (r: bool)
        ensures
            r == self@.is_unit(),
    {
        proof {
            use_type_invariant(self);
        }
        let ax: u64 = if self.x < 0 {
            (-(self.x as i64)) as u64
        } else {
            self.x as u64
        };
        let ay: u64 = if self.y < 0 {
            (-(self.y as i64)) as u64
        } else {
            self.y as u64
        };
        assert(ax * ax == self.x * self.x && ay * ay == self.y * self.y) by (nonlinear_arith)
            requires
                ax == self.x || ax == -self.x,
                ay == self.y || ay == -self.y,
        ;
        assert(ax * ax <= 1_000_000_000_000 && ay * ay <= 1_000_000_000_000 && (ax + 1) * (ax + 1)
            <= 1_000_002_000_001 && (ay + 1) * (ay + 1) <= 1_000_002_000_001) by (nonlinear_arith)
            requires
                ax <= 1_000_000,
                ay <= 1_000_000,
        ;
        let one: u64 = 1_000_000_000_000;
        ax * ax + ay * ay <= one && one < (ax + 1) * (ax + 1) + (ay + 1) * (ay + 1)
    }

    /// The same heading with its horizontal component negated.
    pub fn flip_x(self) -> (r: Direction)
        ensures
            r@ == self@.flipped_x(),
    {
        proof {
            use_type_invariant(self);
        }
        Direction { x: -self.x, y: self.y }
    }

    /// The same heading with its vertical component negated.
    pub fn flip_y(self) -> (r: Direction)
        ensures
            r@ == self@.flipped_y(),
    {
        proof {
            use_type_invariant(self);
        }
        Direction { x: self.x, y: -self.y }
    }

    /// The opposite heading.
    pub fn reverse(self) -> (r: Direction)
        ensures
            r@ == self@.reversed(),
    {
        proof {
            use_type_invariant(self);
        }
        Direction { x: -self.x, y: -self.y }
    }

    /// Computes `unit_component(a, b)`.
    fn unit_component_of(a: u32, b: u32) -> (r: i32)
        requires
            a != 0 || b != 0,
        ensures
            r == unit_component(a as int, b as int),
            0 <= r <= DIRECTION_ONE,
    {
        assert(a * a <= 0xFFFF_FFFF * 0xFFFF_FFFF && b * b <= 0xFFFF_FFFF * 0xFFFF_FFFF)
            by (nonlinear_arith)
            requires
                a <= 0xFFFF_FFFF,
                b <= 0xFFFF_FFFF,
        ;
        let aa: u128 = (a as u128) * (a as u128);
        let bb: u128 = (b as u128) * (b as u128);
        let n: u128 = aa + bb;
        let k: u128 = 1_000_000_000_000;
        assert(k * aa <= 1_000_000_000_000 * (0xFFFF_FFFF * 0xFFFF_FFFF)) by (nonlinear_arith)
            requires
                k == 1_000_000_000_000,
                aa <= 0xFFFF_FFFF * 0xFFFF_FFFF,
        ;
        let scaled: u128 = k * aa;
        assert(n > 0) by (nonlinear_arith)
            requires
                a != 0 || b != 0,
                n == a * a + b * b,
        ;
        let q: u128 = scaled / n;
        assert(q <= 1_000_000_000_000) by (nonlinear_arith)
            requires
                n > 0,
                aa <= n,
                scaled == 1_000_000_000_000 * aa,
                q == scaled / n,
        ;
        assert(DIRECTION_ONE * DIRECTION_ONE * (a * a) == scaled);
        let root: u32 = isqrt(q as u64);
        assert(root <= 1_000_000) by (nonlinear_arith)
            requires
                root * root <= q,
                q <= 1_000_000_000_000,
        ;
        root as i32
    }

    /// The unit vector that points the way of `(x, y)`; the zero heading if
    /// both are zero.
    pub fn normalized(x: i32, y: i32) -> (r: Direction)
        ensures
            r@ == normalized(x as int, y as int),
            x != 0 || y != 0 ==> r@.is_unit(),
            x == 0 && y == 0 ==> r@ == (DirectionView { x: 0, y: 0 }),
    {
        if x == 0 && y == 0 {
            return Direction { x: 0, y: 0 };
        }
        proof {
            lemma_normalized_is_unit(x as int, y as int);
        }
        let ax: u32 = if x < 0 {
            (-(x as i64)) as u32
        } else {
            x as u32
        };
        let ay: u32 = if y < 0 {
            (-(y as i64)) as u32
        } else {
            y as u32
        };
        let cx: i32 = Self::unit_component_of(ax, ay);
        let cy: i32 = Self::unit_component_of(ay, ax);
        let dx: i32 = if x == 0 {
            0
        } else if x < 0 {
            -cx
        } else {
            cx
        };
        let dy: i32 = if y == 0 {
            0
        } else if y < 0 {
            -cy
        } else {
            cy
        };
        Direction { x: dx, y: dy }
    }

    /// The heading drawn from two random words. Each word gives a sample, a
    /// fraction of 24 binary digits at least 0 and less than 1 (the word's
    /// upper 24 bits); the heading is the unit vector along the pair of
    /// samples. Where both samples are zero, it is the diagonal.
    pub fn from_samples(a: u32, b: u32) -> (r: Direction)
        ensures
            r@ == sampled_direction(a as int, b as int),
            r@.is_unit(),
            r@.x >= 0,
            r@.y >= 0,
    {
        proof {
            lemma_sampled_direction_is_unit(a as int, b as int);
        }
        let sa: u32 = a >> 8;
        let sb: u32 = b >> 8;
        assert(sa == a / 256 && sa < 0x100_0000) by (bit_vector)
            requires
                sa == a >> 8,
        ;
        assert(sb == b / 256 && sb < 0x100_0000) by (bit_vector)
            requires
                sb == b >> 8,
        ;
        if sa == 0 && sb == 0 {
            Self::normalized(1, 1)
        } else {
            Self::normalized(sa as i32, sb as i32)
        }
    }
}

} // verus!
