//! Directions in fixed point: an angle is held as its cosine and sine.

use vstd::prelude::*;
use crate::geometry::{along, step_along, Point, COORD_MAX, UNIT};

verus! {

/// A direction, held as the cosine and sine of its angle, each scaled by `UNIT`.
#[derive(Clone, Copy, Debug, PartialEq, Eq, Structural)]
pub struct Angle {
    pub cos: i32,
    pub sin: i32,
}

/// `value` limited to the interval from `-UNIT` to `UNIT`.
pub open spec fn clamp_unit(value: int) -> int {
    if value < -UNIT {
        -UNIT as int
    } else if value > UNIT {
        UNIT as int
    } else {
        value
    }
}

/// Whether `c` is the fixed-point share that a step of `d` along one axis has
/// in a step whose length has the square `n2`: the quotient of `d` and that
/// length, scaled by `UNIT` and rounded towards zero.
pub open spec fn is_share(c: int, d: int, n2: int) -> bool {
    &&& d >= 0 ==> c >= 0
    &&& d <= 0 ==> c <= 0
    &&& c * c * n2 <= d * d * (UNIT * UNIT)
    &&& d * d * (UNIT * UNIT) < (vstd::math::abs(c) + 1) * (vstd::math::abs(c) + 1) * n2
}

/// The share of `d` in a step whose length has the square `n2`.
pub open spec fn share(d: int, n2: int) -> int {
    choose|c: int| is_share(c, d, n2)
}

/// Only one number is the share of a given step.
pub proof fn lemma_share_unique(c: int, d: int, n2: int)
    requires
        n2 > 0,
        is_share(c, d, n2),
    ensures
        share(d, n2) == c,
{
    let other = share(d, n2);
    assert(is_share(other, d, n2));
    let a = vstd::math::abs(c);
    let b = vstd::math::abs(other);
    assert(a * a == c * c && b * b == other * other) by (nonlinear_arith)
        requires
            a == c || a == -c,
            b == other || b == -other,
    ;
    if a < b {
        assert((a + 1) * (a + 1) * n2 <= b * b * n2) by (nonlinear_arith)
            requires
                0 <= a,
                a + 1 <= b,
                n2 > 0,
        ;
    }
    if b < a {
        assert((b + 1) * (b + 1) * n2 <= a * a * n2) by (nonlinear_arith)
            requires
                0 <= b,
                b + 1 <= a,
                n2 > 0,
        ;
    }
    assert(a == b);
    if d == 0 {
        assert(d * d * (UNIT * UNIT) == 0) by (nonlinear_arith)
            requires
                d == 0,
        ;
        assert(a == 0) by (nonlinear_arith)
            requires
                a * a * n2 <= 0,
                n2 > 0,
                a >= 0,
        ;
    }
}

/// Counting up from `c`, a share of the step `a` is found.
proof fn lemma_share_exists_from(a: int, n2: int, c: int)
    requires
        a >= 0,
        n2 > 0,
        c >= 0,
        c * c * n2 <= a * a * (UNIT * UNIT),
    ensures
        exists|r: int| is_share(r, a, n2),
    decreases a * a * (UNIT * UNIT) - c * c * n2,
{
    if a * a * (UNIT * UNIT) < (c + 1) * (c + 1) * n2 {
        assert(a == 0 ==> c == 0) by (nonlinear_arith)
            requires
                c * c * n2 <= a * a * (UNIT * UNIT),
                n2 > 0,
                c >= 0,
        ;
        assert(is_share(c, a, n2));
    } else {
        assert(c * c * n2 < (c + 1) * (c + 1) * n2) by (nonlinear_arith)
            requires
                c >= 0,
                n2 > 0,
        ;
        lemma_share_exists_from(a, n2, c + 1);
    }
}

/// Every step has a share in a step of positive length.
pub proof fn lemma_share_exists(d: int, n2: int)
    requires
        n2 > 0,
    ensures
        is_share(share(d, n2), d, n2),
{
    if d >= 0 {
        assert(0 * 0 * n2 <= d * d * (UNIT * UNIT)) by (nonlinear_arith);
        lemma_share_exists_from(d, n2, 0);
    } else {
        let mirrored = -d;
        assert(0 * 0 * n2 <= mirrored * mirrored * (UNIT * UNIT)) by (nonlinear_arith);
        lemma_share_exists_from(mirrored, n2, 0);
        let r = choose|r: int| is_share(r, mirrored, n2);
        lemma_share_mirrored(r, mirrored, n2);
    }
}

/// The share of a step in a longer one is at most `UNIT` in magnitude.
pub proof fn lemma_share_bounded(c: int, d: int, n2: int)
    requires
        is_share(c, d, n2),
        d * d <= n2,
    ensures
        -UNIT <= c <= UNIT,
{
    let a = vstd::math::abs(c);
    let aa = a * a;
    let dd = d * d;
    let unit2: int = UNIT * UNIT;
    assert(aa == c * c) by (nonlinear_arith)
        requires
            a == c || a == -c,
            aa == a * a,
    ;
    assert(n2 > 0) by (nonlinear_arith)
        requires
            dd == d * d,
            dd <= n2,
            dd * unit2 < (a + 1) * (a + 1) * n2,
            unit2 > 0,
    ;
    if a > UNIT {
        assert(aa > unit2) by (nonlinear_arith)
            requires
                a > UNIT,
                UNIT > 0,
                aa == a * a,
                unit2 == UNIT * UNIT,
        ;
        assert(aa * n2 > unit2 * n2) by (nonlinear_arith)
            requires
                aa > unit2,
                n2 > 0,
        ;
        assert(dd * unit2 <= unit2 * n2) by (nonlinear_arith)
            requires
                dd <= n2,
                unit2 > 0,
        ;
    }
}

impl Angle {
    /// Neither component exceeds `UNIT` in magnitude.
    pub open spec fn wf(self) -> bool {
        &&& -UNIT <= self.cos <= UNIT
        &&& -UNIT <= self.sin <= UNIT
    }

    /// The angle with the given fixed-point cosine and sine. A component
    /// outside the interval from `-UNIT` to `UNIT` is limited to it.
    pub fn new(cos: i32, sin: i32) -> (angle: Angle)
        ensures
            angle.wf(),
            angle.cos == clamp_unit(cos as int),
            angle.sin == clamp_unit(sin as int),
    {
        Angle { cos: clamp_component(cos), sin: clamp_component(sin) }
    }

    /// Angle zero: along the x axis, to the right.
    pub fn right() -> (angle: Angle)
        ensures
            angle == (Angle { cos: UNIT, sin: 0 }),
            angle.wf(),
    {
        Angle { cos: UNIT, sin: 0 }
    }

    /// A quarter turn: straight down the screen.
    pub fn down() -> (angle: Angle)
        ensures
            angle == (Angle { cos: 0, sin: UNIT }),
            angle.wf(),
    {
        Angle { cos: 0, sin: UNIT }
    }

    /// The direction from `from` to `to`: each component is the share of the
    /// step along its axis in the whole step. Where the two points are one,
    /// the direction is that of angle zero.
    pub open spec fn spec_towards(from: Point, to: Point) -> Angle {
        let dx = to.x - from.x;
        let dy = to.y - from.y;
        if dx == 0 && dy == 0 {
            Angle { cos: UNIT, sin: 0 }
        } else {
            Angle {
                cos: share(dx, dx * dx + dy * dy) as i32,
                sin: share(dy, dx * dx + dy * dy) as i32,
            }
        }
    }

    /// Computes `spec_towards`.
    pub fn towards(from: Point, to: Point) -> (angle: Angle)
        ensures
            angle == Angle::spec_towards(from, to),
            angle.wf(),
    {
        let dx: i64 = to.x as i64 - from.x as i64;
        let dy: i64 = to.y as i64 - from.y as i64;
        if dx == 0 && dy == 0 {
            return Angle::right();
        }
        let ax: u64 = if dx < 0 { (-dx) as u64 } else { dx as u64 };
        let ay: u64 = if dy < 0 { (-dy) as u64 } else { dy as u64 };
        assert(ax * ax <= 0xffff_ffff * 0xffff_ffff && ax * ax == dx * dx) by (nonlinear_arith)
            requires
                0 <= ax <= 0xffff_ffff,
                ax == dx || ax == -dx,
        ;
        assert(ay * ay <= 0xffff_ffff * 0xffff_ffff && ay * ay == dy * dy) by (nonlinear_arith)
            requires
                0 <= ay <= 0xffff_ffff,
                ay == dy || ay == -dy,
        ;
        assert(ax * ax + ay * ay > 0) by (nonlinear_arith)
            requires
                ax > 0 || ay > 0,
                ax >= 0,
                ay >= 0,
        ;
        let n2: u128 = (ax as u128) * (ax as u128) + (ay as u128) * (ay as u128);
        let cx: i32 = unit_share(ax, n2);
        let cy: i32 = unit_share(ay, n2);
        let cos: i32 = if dx < 0 { -cx } else { cx };
        let sin: i32 = if dy < 0 { -cy } else { cy };
        proof {
            lemma_share_mirrored(cx as int, ax as int, n2 as int);
            lemma_share_mirrored(cy as int, ay as int, n2 as int);
            lemma_share_unique(cos as int, dx as int, n2 as int);
            lemma_share_unique(sin as int, dy as int, n2 as int);
        }
        Angle { cos, sin }
    }

    /// The point at distance `length` from `origin` in this direction.
    pub open spec fn project(self, origin: Point, length: int) -> Point {
        Point {
            x: (origin.x + along(self.cos as int, length)) as i32,
            y: (origin.y + along(self.sin as int, length)) as i32,
        }
    }

    /// Computes `project`.
    pub fn offset(&self, origin: Point, length: i32) -> (p: Point)
        requires
            self.wf(),
            origin.in_range(),
            0 <= length <= COORD_MAX,
        ensures
            p == self.project(origin, length as int),
            p.x == origin.x + along(self.cos as int, length as int),
            p.y == origin.y + along(self.sin as int, length as int),
    {
        let dx: i32 = step_along(self.cos, length);
        let dy: i32 = step_along(self.sin, length);
        Point { x: origin.x + dx, y: origin.y + dy }
    }
}

/// The direction from one point to another is a well-formed angle.
pub proof fn lemma_towards_wf(from: Point, to: Point)
    ensures
        Angle::spec_towards(from, to).wf(),
{
    let dx = to.x - from.x;
    let dy = to.y - from.y;
    if dx != 0 || dy != 0 {
        let n2 = dx * dx + dy * dy;
        assert(n2 > 0 && dx * dx <= n2 && dy * dy <= n2) by (nonlinear_arith)
            requires
                dx != 0 || dy != 0,
                n2 == dx * dx + dy * dy,
        ;
        lemma_share_exists(dx, n2);
        lemma_share_exists(dy, n2);
        lemma_share_bounded(share(dx, n2), dx, n2);
        lemma_share_bounded(share(dy, n2), dy, n2);
    }
}

/// A step along one axis has the whole of the direction on that axis: towards
/// a point straight to the right the direction is that of angle zero, and
/// likewise to the left, downwards and upwards.
pub proof fn lemma_towards_along_axis(from: Point, to: Point)
    requires
        from != to,
        from.x == to.x || from.y == to.y,
    ensures
        from.y == to.y && from.x < to.x ==> Angle::spec_towards(from, to) == (Angle {
            cos: UNIT,
            sin: 0,
        }),
        from.y == to.y && from.x > to.x ==> Angle::spec_towards(from, to) == (Angle {
            cos: (-UNIT) as i32,
            sin: 0,
        }),
        from.x == to.x && from.y < to.y ==> Angle::spec_towards(from, to) == (Angle {
            cos: 0,
            sin: UNIT,
        }),
        from.x == to.x && from.y > to.y ==> Angle::spec_towards(from, to) == (Angle {
            cos: 0,
            sin: (-UNIT) as i32,
        }),
{
    let dx = to.x - from.x;
    let dy = to.y - from.y;
    let step = if dx != 0 { dx } else { dy };
    let n2 = dx * dx + dy * dy;
    let whole: int = if step > 0 { UNIT as int } else { -UNIT as int };
    assert(n2 == step * step && n2 > 0) by (nonlinear_arith)
        requires
            n2 == dx * dx + dy * dy,
            (step == dx && dy == 0) || (step == dy && dx == 0),
            step != 0,
    ;
    assert(is_share(whole, step, n2)) by (nonlinear_arith)
        requires
            n2 == step * step,
            n2 > 0,
            UNIT == 65536,
            (whole == UNIT && step > 0) || (whole == -UNIT && step < 0),
    ;
    assert(is_share(0, 0, n2)) by (nonlinear_arith)
        requires
            n2 > 0,
    ;
    lemma_share_unique(whole, step, n2);
    lemma_share_unique(0, 0, n2);
}

/// The share of a step to the left or upwards is that of the same step to the
/// right or downwards, negated.
pub proof fn lemma_share_mirrored(c: int, d: int, n2: int)
    requires
        is_share(c, d, n2),
    ensures
        is_share(-c, -d, n2),
{
    assert((-c) * (-c) == c * c && (-d) * (-d) == d * d) by (nonlinear_arith);
}

/// The largest number whose square is at most `n`.
fn floor_sqrt(n: u64) -> (root: u64)
    ensures
        root * root <= n < (root + 1) * (root + 1),
        root <= 0xffff_ffff,
{
    let mut low: u64 = 0;
    let mut high: u64 = 0x1_0000_0000;
    assert(0x1_0000_0000 * 0x1_0000_0000 > u64::MAX) by (nonlinear_arith);
    while high - low > 1
        invariant
            low < high <= 0x1_0000_0000,
            low * low <= n < high * high,
        decreases high - low,
    {
        let middle: u64 = low + (high - low) / 2;
        assert(middle * middle <= 0xffff_ffff * 0xffff_ffff) by (nonlinear_arith)
            requires
                0 <= middle <= 0xffff_ffff,
        ;
        if middle * middle <= n {
            low = middle;
        } else {
            high = middle;
        }
    }
    low
}

/// The share of a step of `a` in a step whose length has the square `n2`.
fn unit_share(a: u64, n2: u128) -> (c: i32)
    requires
        a <= 0xffff_ffff,
        0 < n2,
        a * a <= n2,
    ensures
        0 <= c <= UNIT,
        is_share(c as int, a as int, n2 as int),
{
    let ghost aa: int = a * a;
    let ghost unit2: int = UNIT * UNIT;
    assert(aa <= 0xffff_ffff * 0xffff_ffff) by (nonlinear_arith)
        requires
            0 <= a <= 0xffff_ffff,
            aa == a * a,
    ;
    assert(aa * unit2 <= 0xffff_ffff * 0xffff_ffff * 0x1_0000_0000) by (nonlinear_arith)
        requires
            0 <= aa <= 0xffff_ffff * 0xffff_ffff,
            unit2 == 0x1_0000_0000,
    ;
    let scaled: u128 = (a as u128) * (a as u128) * 0x1_0000_0000u128;
    let quotient: u128 = scaled / n2;
    proof {
        vstd::arithmetic::div_mod::lemma_fundamental_div_mod(scaled as int, n2 as int);
        vstd::arithmetic::div_mod::lemma_mod_bound(scaled as int, n2 as int);
    }
    let ghost rest: int = scaled as int % n2 as int;
    assert(scaled == n2 * quotient + rest);
    assert(quotient <= unit2) by (nonlinear_arith)
        requires
            scaled == n2 * quotient + rest,
            rest >= 0,
            scaled == aa * unit2,
            aa <= n2,
            n2 > 0,
            unit2 > 0,
    {
        assert(aa * unit2 <= n2 * unit2);
        if quotient > unit2 {
            assert(n2 * quotient > n2 * unit2);
        }
    }
    let root: u64 = floor_sqrt(quotient as u64);
    let ghost rr: int = root * root;
    let ghost ss: int = (root + 1) * (root + 1);
    assert(root <= UNIT) by (nonlinear_arith)
        requires
            root * root <= quotient,
            quotient <= unit2,
            unit2 == UNIT * UNIT,
            UNIT == 65536,
            root >= 0,
    {
        if root > UNIT {
            assert(root * root > UNIT * UNIT);
        }
    }
    assert(rr * n2 <= aa * unit2) by (nonlinear_arith)
        requires
            rr <= quotient,
            n2 > 0,
            aa * unit2 == n2 * quotient + rest,
            rest >= 0,
    {
        assert(rr * n2 <= quotient * n2);
    }
    assert(aa * unit2 < ss * n2) by (nonlinear_arith)
        requires
            quotient + 1 <= ss,
            n2 > 0,
            aa * unit2 == n2 * quotient + rest,
            rest < n2,
    {
        assert((quotient + 1) * n2 <= ss * n2);
    }
    assert(a == 0 ==> root == 0) by (nonlinear_arith)
        requires
            rr == root * root,
            aa == a * a,
            rr * n2 <= aa * unit2,
            n2 > 0,
            root >= 0,
    ;
    root as i32
}

/// Computes `clamp_unit`.
fn clamp_component(value: i32) -> (r: i32)
    ensures
        r == clamp_unit(value as int),
{
    if value < -UNIT {
        -UNIT
    } else if value > UNIT {
        UNIT
    } else {
        value
    }
}

} // verus!
