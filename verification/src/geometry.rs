//! Points, and the limits within which positions are computed.

use vstd::prelude::*;

verus! {

/// One in the fixed-point scale in which directions are held.
pub const UNIT: i32 = 65536;

/// The largest screen dimension or hook length that a configuration may ask for.
pub const COORD_MAX: i32 = 1_000_000_000;

/// A position on the screen, in whole units. `y` grows downwards.
#[derive(Clone, Copy, Debug, PartialEq, Eq, Structural)]
pub struct Point {
    pub x: i32,
    pub y: i32,
}

impl Point {
    /// Both coordinates lie within `COORD_MAX` of zero.
    pub open spec fn in_range(self) -> bool {
        &&& -COORD_MAX <= self.x <= COORD_MAX
        &&& -COORD_MAX <= self.y <= COORD_MAX
    }
}

/// The part of `length` that lies along an axis on which the direction has the
/// given fixed-point `component`, rounded towards zero.
pub open spec fn along(component: int, length: int) -> int {
    if component >= 0 {
        component * length / (UNIT as int)
    } else {
        -((-component) * length / (UNIT as int))
    }
}

/// A step along an axis is never longer than the length it is a part of.
pub proof fn lemma_along_bounded(component: int, length: int)
    requires
        -UNIT <= component <= UNIT,
        0 <= length,
    ensures
        -length <= along(component, length) <= length,
        component >= 0 ==> along(component, length) >= 0,
        component <= 0 ==> along(component, length) <= 0,
        along(UNIT as int, length) == length,
        along(-UNIT as int, length) == -length,
        along(0, length) == 0,
{
    let magnitude: int = if component >= 0 { component } else { -component };
    assert(0 <= magnitude * length <= UNIT * length) by (nonlinear_arith)
        requires
            0 <= magnitude <= UNIT,
            0 <= length,
    ;
}

/// Computes `along` for a component and a length within the limits.
pub(crate) fn step_along(component: i32, length: i32) -> (r: i32)
    requires
        -UNIT <= component <= UNIT,
        0 <= length <= COORD_MAX,
    ensures
        r == along(component as int, length as int),
        -length <= r <= length,
{
    proof {
        lemma_along_bounded(component as int, length as int);
    }
    if component >= 0 {
        assert(0 <= component * length <= UNIT * length) by (nonlinear_arith)
            requires
                0 <= component <= UNIT,
                0 <= length,
        ;
        let product: u64 = (component as u64) * (length as u64);
        (product / 65536) as i32
    } else {
        assert(0 <= (-component) * length <= UNIT * length) by (nonlinear_arith)
            requires
                0 <= -component <= UNIT,
                0 <= length,
        ;
        let product: u64 = ((-component) as u64) * (length as u64);
        -((product / 65536) as i32)
    }
}

} // verus!
