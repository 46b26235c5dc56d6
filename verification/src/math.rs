//! Integer geometry: scalars are whole pixels held in `i32`, and every type
//! has a view over unbounded integers in which the contracts are stated.

use vstd::prelude::*;
use vstd::arithmetic::div_mod::{lemma_div_is_ordered, lemma_div_multiples_vanish};

verus! {

/// Whether `v` can be held in a scalar of this library.
pub open spec fn is_scalar(v: int) -> bool {
    i32::MIN <= v <= i32::MAX
}

/// The larger of two integers.
pub open spec fn max_int(a: int, b: int) -> int {
    if a >= b {
        a
    } else {
        b
    }
}

/// A point or an extent over unbounded integers: the view of a [`Vec2`].
pub ghost struct SpecVec2 {
    pub x: int,
    pub y: int,
}

impl SpecVec2 {
    pub open spec fn zero() -> SpecVec2 {
        SpecVec2 { x: 0, y: 0 }
    }

    /// Both coordinates can be held in a scalar.
    pub open spec fn fits(self) -> bool {
        is_scalar(self.x) && is_scalar(self.y)
    }

    pub open spec fn plus(self, other: SpecVec2) -> SpecVec2 {
        SpecVec2 { x: self.x + other.x, y: self.y + other.y }
    }

    pub open spec fn minus(self, other: SpecVec2) -> SpecVec2 {
        SpecVec2 { x: self.x - other.x, y: self.y - other.y }
    }

    pub open spec fn times(self, factor: int) -> SpecVec2 {
        SpecVec2 { x: self.x * factor, y: self.y * factor }
    }
}

/// A point or an extent in whole pixels.
#[derive(Clone, Copy, Debug, PartialEq, Eq, Structural)]
pub struct Vec2 {
    pub x: i32,
    pub y: i32,
}

impl View for Vec2 {
    type V = SpecVec2;

    open spec fn view(&self) -> SpecVec2 {
        SpecVec2 { x: self.x as int, y: self.y as int }
    }
}

impl Default for Vec2 {
    fn default() -> (v: Vec2)
        ensures
            v@ == SpecVec2::zero(),
    {
        Vec2 { x: 0, y: 0 }
    }
}

pub fn vec2(x: i32, y: i32) -> (v: Vec2)
    ensures
        v.x == x,
        v.y == y,
{
    Vec2 { x, y }
}

impl Vec2 {
    /// Coordinate-wise sum.
    pub fn plus(self, other: Vec2) -> (v: Vec2)
        requires
            self@.plus(other@).fits(),
        ensures
            v@ == self@.plus(other@),
    {
        Vec2 { x: self.x + other.x, y: self.y + other.y }
    }

    /// Coordinate-wise difference.
    pub fn minus(self, other: Vec2) -> (v: Vec2)
        requires
            self@.minus(other@).fits(),
        ensures
            v@ == self@.minus(other@),
    {
        Vec2 { x: self.x - other.x, y: self.y - other.y }
    }

    /// Whether the coordinate-wise sum can be held in a [`Vec2`].
    pub fn can_plus(self, other: Vec2) -> (b: bool)
        ensures
            b == self@.plus(other@).fits(),
    {
        in_scalar_range(self.x as i64 + other.x as i64) && in_scalar_range(
            self.y as i64 + other.y as i64,
        )
    }
}

/// Whether a wide intermediate result can be stored as a scalar.
pub fn in_scalar_range(v: i64) -> (b: bool)
    ensures
        b == is_scalar(v as int),
{
    -0x8000_0000 <= v && v <= 0x7fff_ffff
}

/// The view of a [`Rect`].
pub ghost struct SpecRect {
    pub pos: SpecVec2,
    pub size: SpecVec2,
}

impl SpecRect {
    /// The corner with the smallest coordinates.
    pub open spec fn min(self) -> SpecVec2 {
        self.pos
    }

    /// The corner with the largest coordinates.
    pub open spec fn max(self) -> SpecVec2 {
        self.pos.plus(self.size)
    }

    /// Whether `p` lies in the rectangle, its edges included.
    pub open spec fn contains(self, p: SpecVec2) -> bool {
        &&& self.pos.x <= p.x <= self.pos.x + self.size.x
        &&& self.pos.y <= p.y <= self.pos.y + self.size.y
    }
}

/// An axis-aligned rectangle, given by its smallest corner and its extent.
#[derive(Clone, Copy, Debug, PartialEq, Eq, Structural)]
pub struct Rect {
    pub pos: Vec2,
    pub size: Vec2,
}

impl View for Rect {
    type V = SpecRect;

    open spec fn view(&self) -> SpecRect {
        SpecRect { pos: self.pos@, size: self.size@ }
    }
}

impl Rect {
    pub fn from_min_size(min: Vec2, size: Vec2) -> (r: Rect)
        ensures
            r.pos == min,
            r.size == size,
    {
        Rect { pos: min, size }
    }

    pub fn min(&self) -> (p: Vec2)
        ensures
            p@ == self@.min(),
    {
        self.pos
    }

    pub fn max(&self) -> (p: Vec2)
        requires
            self@.max().fits(),
        ensures
            p@ == self@.max(),
    {
        self.pos.plus(self.size)
    }

    /// Hit test: the edges belong to the rectangle.
    pub fn contains(&self, p: Vec2) -> (b: bool)
        ensures
            b == self@.contains(p@),
    {
        let px: i64 = p.x as i64;
        let py: i64 = p.y as i64;
        let left: i64 = self.pos.x as i64;
        let top: i64 = self.pos.y as i64;
        left <= px && px <= left + self.size.x as i64 && top <= py && py <= top
            + self.size.y as i64
    }
}

/// Linear map of `from` in `[from_min, from_max]` onto `[to_min, to_max]`,
/// rounded down, with everything left of the source interval sent to `to_min`
/// and everything right of it to `to_max`.
pub open spec fn remap_clamp_spec(
    from: int,
    from_min: int,
    from_max: int,
    to_min: int,
    to_max: int,
) -> int {
    if from <= from_min {
        to_min
    } else if from >= from_max {
        to_max
    } else {
        to_min + ((to_max - to_min) * (from - from_min)) / (from_max - from_min)
    }
}

/// The remapped value never leaves the target interval, whichever way
/// round its ends are given.
pub proof fn lemma_remap_clamp_bounds(
    from: int,
    from_min: int,
    from_max: int,
    to_min: int,
    to_max: int,
)
    ensures
        to_min <= to_max ==> to_min <= remap_clamp_spec(from, from_min, from_max, to_min, to_max)
            <= to_max,
        to_max <= to_min ==> to_max <= remap_clamp_spec(from, from_min, from_max, to_min, to_max)
            <= to_min,
        from <= from_min ==> remap_clamp_spec(from, from_min, from_max, to_min, to_max) == to_min,
        from_min < from && from_max <= from ==> remap_clamp_spec(
            from,
            from_min,
            from_max,
            to_min,
            to_max,
        ) == to_max,
{
    if from_min < from < from_max {
        let span = from_max - from_min;
        let offset = from - from_min;
        let range = to_max - to_min;
        lemma_div_multiples_vanish(range, span);
        lemma_div_multiples_vanish(0, span);
        assert(span * 0 == 0);
        if range >= 0 {
            assert(0 <= range * offset <= span * range) by (nonlinear_arith)
                requires
                    0 <= range,
                    0 < offset < span,
            ;
            lemma_div_is_ordered(0, range * offset, span);
            lemma_div_is_ordered(range * offset, span * range, span);
        } else {
            assert(span * range <= range * offset <= 0) by (nonlinear_arith)
                requires
                    range < 0,
                    0 < offset < span,
            ;
            lemma_div_is_ordered(span * range, range * offset, span);
            lemma_div_is_ordered(range * offset, 0, span);
        }
    }
}

/// Division rounded towards negative infinity.
pub fn floor_div(a: i128, d: i128) -> (q: i128)
    requires
        d > 0,
    ensures
        q == a / d,
{
    if a >= 0 {
        a / d
    } else {
        let m: i128 = -(a + 1);
        let q: i128 = m / d;
        assert(a / d == -(m / d) - 1) by (nonlinear_arith)
            requires
                d > 0,
                a < 0,
                m == -(a + 1),
        ;
        -q - 1
    }
}

/// Maps `from` out of `[from_min, from_max]` into `[to_min, to_max]`. The
/// source interval may be given in wide integers, so that the far edge of
/// a rectangle can be passed even where it is no scalar.
pub fn remap_clamp(from: i64, from_min: i64, from_max: i64, to_min: i32, to_max: i32) -> (r: i32)
    ensures
        r == remap_clamp_spec(
            from as int,
            from_min as int,
            from_max as int,
            to_min as int,
            to_max as int,
        ),
{
    if from <= from_min {
        to_min
    } else if from >= from_max {
        to_max
    } else {
        let span: i128 = from_max as i128 - from_min as i128;
        let offset: i128 = from as i128 - from_min as i128;
        let range: i128 = to_max as i128 - to_min as i128;
        assert(-0x1_0000_0000_0000_0000_0000_0000 <= range * offset
            <= 0x1_0000_0000_0000_0000_0000_0000) by (nonlinear_arith)
            requires
                -0x1_0000_0000 <= range <= 0x1_0000_0000,
                0 <= offset <= 0x1_0000_0000_0000_0000,
        ;
        let q: i128 = floor_div(range * offset, span);
        proof {
            lemma_remap_clamp_bounds(
                from as int,
                from_min as int,
                from_max as int,
                to_min as int,
                to_max as int,
            );
        }
        (to_min as i128 + q) as i32
    }
}

} // verus!
