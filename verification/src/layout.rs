//! Integer-space geometry for hit testing.
//!
//! The renderer shapes the buffer's first line and reports, for each byte
//! index of that line, the x-coordinate of its leading edge, in whole
//! pixels.  Those positions, with the viewport bounds, are all the editing
//! core reads when it maps a mouse point to a text offset or a text range
//! to visual bounds; they are a derived, invalidatable cache, and every
//! query tolerates a stale or missing one by clamping instead of failing.

use vstd::prelude::*;

verus! {

/// A mouse point in whole pixels.
#[derive(Clone, Copy, PartialEq, Eq, Structural, Debug)]
pub struct PointPx {
    pub x: i32,
    pub y: i32,
}

/// The rendered viewport of the editor in whole pixels.
#[derive(Clone, Copy, PartialEq, Eq, Structural, Debug)]
pub struct BoundsPx {
    pub left: i32,
    pub top: i32,
    pub right: i32,
    pub bottom: i32,
}

/// Visual bounds of a text range, in whole pixels.
#[derive(Clone, Copy, PartialEq, Eq, Structural, Debug)]
pub struct VisualBounds {
    pub left: i64,
    pub top: i64,
    pub right: i64,
    pub bottom: i64,
}

/// Shaping of one line: `positions[i]` is the x-coordinate of the leading
/// edge of byte index `i` of the line, with one final entry for the
/// trailing edge of the line.
pub struct LineLayout {
    pub positions: Vec<u32>,
}

impl View for LineLayout {
    type V = Seq<int>;

    open spec fn view(&self) -> Seq<int> {
        self.positions@.map_values(|p: u32| p as int)
    }
}

/// Height of a rendered line in pixels; the hit tester divides the
/// vertical offset by it to find the target line.
pub const LINE_HEIGHT_PX: i32 = 20;

pub open spec fn dist(a: int, x: int) -> int {
    if a >= x {
        a - x
    } else {
        x - a
    }
}

/// Index whose position lies closest to `x`, the earliest on a tie; 0 for
/// an empty layout.
pub open spec fn closest_index(ps: Seq<int>, x: int) -> int
    decreases ps.len(),
{
    if ps.len() <= 1 {
        0
    } else {
        let best = closest_index(ps.drop_last(), x);
        if dist(ps.last(), x) < dist(ps[best], x) {
            ps.len() - 1
        } else {
            best
        }
    }
}

/// Largest index whose position is at or left of `x`, scanning from the
/// right; 0 when there is none.
pub open spec fn last_index_at_or_before(ps: Seq<int>, x: int) -> int
    decreases ps.len(),
{
    if ps.len() == 0 {
        0
    } else if ps.last() <= x {
        ps.len() - 1
    } else {
        last_index_at_or_before(ps.drop_last(), x)
    }
}

/// Index of the character containing `x`, when `x` lies within the shaped
/// line's extent.
pub open spec fn index_for_x_spec(ps: Seq<int>, x: int) -> Option<int> {
    if ps.len() == 0 || x < ps[0] || x > ps.last() {
        Option::None
    } else {
        Option::Some(last_index_at_or_before(ps, x))
    }
}

/// Position of byte index `i` of the line, clamping an index past the end
/// to the trailing edge; 0 for an empty layout.
pub open spec fn x_for_index_spec(ps: Seq<int>, i: int) -> int {
    if ps.len() == 0 {
        0
    } else if i < ps.len() {
        ps[i]
    } else {
        ps.last()
    }
}

impl LineLayout {
    /// Byte index of the boundary shaped closest to `x`, the earliest on a
    /// tie.
    pub fn closest_index_for_x(&self, x: i64) -> (r: usize)
        requires
            -0x1_0000_0000 <= x <= 0x1_0000_0000,
        ensures
            r as int == closest_index(self@, x as int),
            self@.len() > 0 ==> r < self@.len(),
            self@.len() == 0 ==> r == 0,
    {
        let ghost ps = self@;
        if self.positions.len() == 0 {
            return 0;
        }
        let mut best: usize = 0;
        let mut i: usize = 1;
        proof {
            assert(ps.take(1).len() == 1);
        }
        while i < self.positions.len()
            invariant
                ps == self@,
                ps.len() == self.positions@.len(),
                -0x1_0000_0000 <= x <= 0x1_0000_0000,
                1 <= i <= ps.len(),
                best < i,
                best as int == closest_index(ps.take(i as int), x as int),
            decreases ps.len() - i,
        {
            proof {
                assert(ps.take(i + 1).last() == ps[i as int]);
                assert(ps.take(i + 1).drop_last() =~= ps.take(i as int));
                assert(ps.take(i + 1)[best as int] == ps[best as int]);
                assert(ps.take(i as int)[best as int] == ps[best as int]);
            }
            let di: i64 = if self.positions[i] as i64 >= x {
                self.positions[i] as i64 - x
            } else {
                x - self.positions[i] as i64
            };
            let db: i64 = if self.positions[best] as i64 >= x {
                self.positions[best] as i64 - x
            } else {
                x - self.positions[best] as i64
            };
            if di < db {
                best = i;
            }
            i = i + 1;
        }
        proof {
            assert(ps.take(ps.len() as int) =~= ps);
        }
        best
    }

    /// Byte index of the character whose shaped extent contains `x`, when
    /// `x` lies within the line.
    pub fn index_for_x(&self, x: i64) -> (r: Option<usize>)
        ensures
            match r {
                Some(i) => {
                    &&& index_for_x_spec(self@, x as int) == Option::Some(i as int)
                    &&& i < self@.len()
                },
                None => index_for_x_spec(self@, x as int) is None,
            },
    {
        let ghost ps = self@;
        let n = self.positions.len();
        if n == 0 {
            return Option::None;
        }
        proof {
            assert(ps.last() == ps[ps.len() - 1]);
        }
        if x < self.positions[0] as i64 || x > self.positions[n - 1] as i64 {
            return Option::None;
        }
        let mut i: usize = n;
        proof {
            assert(ps.take(ps.len() as int) =~= ps);
        }
        while i > 0
            invariant
                ps == self@,
                ps.len() == self.positions@.len(),
                i <= ps.len(),
                ps.len() > 0,
                ps[0] <= x as int <= ps.last(),
                last_index_at_or_before(ps, x as int) == last_index_at_or_before(
                    ps.take(i as int),
                    x as int,
                ),
            decreases i,
        {
            proof {
                assert(ps.take(i as int).last() == ps[i - 1]);
                assert(ps.take(i as int).drop_last() =~= ps.take(i - 1));
            }
            if self.positions[i - 1] as i64 <= x {
                return Option::Some(i - 1);
            }
            i = i - 1;
        }
        proof {
            assert(ps.take(0) =~= Seq::<int>::empty());
        }
        Option::Some(0)
    }

    /// X-coordinate of the leading edge of byte index `i`, clamped to the
    /// line's trailing edge.
    pub fn x_for_index(&self, i: usize) -> (r: u32)
        ensures
            r as int == x_for_index_spec(self@, i as int),
    {
        let n = self.positions.len();
        if n == 0 {
            0
        } else if i < n {
            self.positions[i]
        } else {
            proof {
                assert(self@.last() == self@[self@.len() - 1]);
            }
            self.positions[n - 1]
        }
    }
}

} // verus!
