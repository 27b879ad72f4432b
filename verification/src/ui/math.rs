//! Unsigned 2D geometry for layout: vectors, rectangles, and the per-axis
//! sizing policy. Geometry arithmetic never panics: additions and
//! multiplications saturate at the numeric range and subtraction saturates at
//! zero, because layout code routinely subtracts padding from bounds that may
//! already be smaller than the padding.

use vstd::prelude::*;

verus! {

/// Saturating addition on the coordinate range.
pub open spec fn sat_add(a: u32, b: u32) -> u32 {
    if a + b > u32::MAX {
        u32::MAX
    } else {
        (a + b) as u32
    }
}

/// Saturating subtraction: zero when the subtrahend is larger.
pub open spec fn sat_sub(a: u32, b: u32) -> u32 {
    if a < b {
        0
    } else {
        (a - b) as u32
    }
}

/// Saturating multiplication on the coordinate range.
pub open spec fn sat_mul(a: u32, b: u32) -> u32 {
    if a * b > u32::MAX {
        u32::MAX
    } else {
        (a * b) as u32
    }
}

/// An unsigned width/height or position pair.
#[derive(Clone, Copy, Debug, PartialEq, Eq, Structural)]
pub struct UVec2 {
    pub x: u32,
    pub y: u32,
}

impl UVec2 {
    pub fn new(x: u32, y: u32) -> (r: Self)
        ensures
            r == (UVec2 { x, y }),
    {
        UVec2 { x, y }
    }

    /// The origin, also the natural default size.
    pub fn zero() -> (r: Self)
        ensures
            r == (UVec2 { x: 0u32, y: 0u32 }),
    {
        UVec2 { x: 0, y: 0 }
    }

    pub open spec fn spec_add(self, rhs: UVec2) -> UVec2 {
        UVec2 { x: sat_add(self.x, rhs.x), y: sat_add(self.y, rhs.y) }
    }

    /// Componentwise saturating addition.
    pub fn saturating_add(self, rhs: UVec2) -> (r: UVec2)
        ensures
            r == self.spec_add(rhs),
    {
        UVec2 { x: if self.x <= u32::MAX - rhs.x {
            self.x + rhs.x
        } else {
            u32::MAX
        }, y: if self.y <= u32::MAX - rhs.y {
            self.y + rhs.y
        } else {
            u32::MAX
        } }
    }

    pub open spec fn spec_sub(self, rhs: UVec2) -> UVec2 {
        UVec2 { x: sat_sub(self.x, rhs.x), y: sat_sub(self.y, rhs.y) }
    }

    /// Componentwise saturating subtraction.
    pub fn saturating_sub(self, rhs: UVec2) -> (r: UVec2)
        ensures
            r == self.spec_sub(rhs),
    {
        UVec2 { x: if self.x < rhs.x {
            0
        } else {
            self.x - rhs.x
        }, y: if self.y < rhs.y {
            0
        } else {
            self.y - rhs.y
        } }
    }

    pub open spec fn spec_scale(self, rhs: u32) -> UVec2 {
        UVec2 { x: sat_mul(self.x, rhs), y: sat_mul(self.y, rhs) }
    }

    /// Scalar saturating multiplication.
    pub fn saturating_mul(self, rhs: u32) -> (r: UVec2)
        ensures
            r == self.spec_scale(rhs),
    {
        UVec2 { x: sat_mul_u32(self.x, rhs), y: sat_mul_u32(self.y, rhs) }
    }
}

/// Executable saturating multiplication on `u32`.
pub fn sat_mul_u32(a: u32, b: u32) -> (r: u32)
    ensures
        r == sat_mul(a, b),
{
    proof {
        assert((a as u64) * (b as u64) <= u64::MAX && (a as u64) * (b as u64) == a * b)
            by (nonlinear_arith)
            requires
                a <= u32::MAX,
                b <= u32::MAX,
        ;
    }
    let wide: u64 = (a as u64) * (b as u64);
    if wide > u32::MAX as u64 {
        u32::MAX
    } else {
        wide as u32
    }
}

impl Default for UVec2 {
    fn default() -> (r: Self)
        ensures
            r == (UVec2 { x: 0u32, y: 0u32 }),
    {
        UVec2 { x: 0, y: 0 }
    }
}

/// A position plus a size, axis-aligned.
#[derive(Clone, Copy, Debug, PartialEq, Eq, Structural)]
pub struct Rect {
    pub pos: UVec2,
    pub size: UVec2,
}

impl Rect {
    pub fn new(x: u32, y: u32, width: u32, height: u32) -> (r: Self)
        ensures
            r == (Rect { pos: UVec2 { x, y }, size: UVec2 { x: width, y: height } }),
    {
        Rect { pos: UVec2 { x, y }, size: UVec2 { x: width, y: height } }
    }

    pub fn from_pos_size(pos: UVec2, size: UVec2) -> (r: Self)
        ensures
            r == (Rect { pos, size }),
    {
        Rect { pos, size }
    }
}

/// Per-axis sizing policy: shrink to content, an exact value, or fill the
/// offered bound. A `Fixed` value is honored even when it exceeds the bound;
/// the content then overflows visually, which is accepted rather than clipped.
#[derive(Clone, Copy, Debug, PartialEq, Eq, Structural)]
pub enum Length {
    Auto,
    Fixed(u32),
    Fill,
}

impl Default for Length {
    fn default() -> (r: Self)
        ensures
            r == Length::Auto,
    {
        Length::Auto
    }
}

/// Resolution of one axis of a widget's size, per the sizing policy:
/// `Auto` is the content length plus both paddings, `Fixed` is exact,
/// `Fill` is exactly the offered bound.
pub open spec fn spec_resolve_length(policy: Length, content: u32, padding_x2: u32, bound: u32) -> u32 {
    match policy {
        Length::Auto => sat_add(content, padding_x2),
        Length::Fixed(n) => n,
        Length::Fill => bound,
    }
}

/// Executable counterpart of [`spec_resolve_length`].
pub fn resolve_length(policy: Length, content: u32, padding_x2: u32, bound: u32) -> (r: u32)
    ensures
        r == spec_resolve_length(policy, content, padding_x2, bound),
{
    match policy {
        Length::Auto => if content <= u32::MAX - padding_x2 {
            content + padding_x2
        } else {
            u32::MAX
        },
        Length::Fixed(n) => n,
        Length::Fill => bound,
    }
}

} // verus!
