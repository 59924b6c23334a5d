//! Screen geometry for absolute (edge-to-edge) movement.
//!
//! Coordinates are those the platform's absolute cursor call expects; the
//! desktop shell queries the display server and hands the raw numbers here.
use vstd::prelude::*;

verus! {

/// An inclusive rectangle of screen coordinates.
#[derive(Clone, Copy, Debug, PartialEq, Eq, Structural)]
pub struct Bounds {
    pub min_x: i32,
    pub min_y: i32,
    pub max_x: i32,
    pub max_y: i32,
}

/// `v` limited to `lo..=hi`.
pub open spec fn clamp(v: int, lo: int, hi: int) -> int {
    if v < lo {
        lo
    } else if v > hi {
        hi
    } else {
        v
    }
}

impl Bounds {
    /// Both ranges are non-empty.
    pub open spec fn valid(self) -> bool {
        self.min_x <= self.max_x && self.min_y <= self.max_y
    }

    /// The point lies inside the rectangle.
    pub open spec fn contains(self, x: int, y: int) -> bool {
        self.min_x <= x <= self.max_x && self.min_y <= y <= self.max_y
    }

    /// `x` limited to the horizontal range.
    pub fn clamp_x(self, x: i32) -> (r: i32)
        requires
            self.min_x <= self.max_x,
        ensures
            r == clamp(x as int, self.min_x as int, self.max_x as int),
    {
        if x < self.min_x {
            self.min_x
        } else if x > self.max_x {
            self.max_x
        } else {
            x
        }
    }

    /// `y` limited to the vertical range.
    pub fn clamp_y(self, y: i32) -> (r: i32)
        requires
            self.min_y <= self.max_y,
        ensures
            r == clamp(y as int, self.min_y as int, self.max_y as int),
    {
        if y < self.min_y {
            self.min_y
        } else if y > self.max_y {
            self.max_y
        } else {
            y
        }
    }
}

/// The bounds of a screen given by its origin and size in pixels, or `None`
/// when the size is not positive.
pub fn screen_rect_bounds(x: i32, y: i32, width: i32, height: i32) -> (r: Option<Bounds>)
    requires
        width > 0 ==> x + width - 1 <= i32::MAX,
        height > 0 ==> y + height - 1 <= i32::MAX,
    ensures
        r == if width <= 0 || height <= 0 {
            None
        } else {
            Some(
                Bounds {
                    min_x: x,
                    min_y: y,
                    max_x: (x + width - 1) as i32,
                    max_y: (y + height - 1) as i32,
                },
            )
        },
{
    if width <= 0 || height <= 0 {
        return None;
    }
    Some(Bounds { min_x: x, min_y: y, max_x: x + (width - 1), max_y: y + (height - 1) })
}

/// The smallest rectangle holding every given display edge set.
pub open spec fn union_of(displays: Seq<Bounds>) -> Bounds
    recommends
        displays.len() > 0,
    decreases displays.len(),
{
    if displays.len() <= 1 {
        displays[0]
    } else {
        let u = union_of(displays.drop_last());
        let d = displays.last();
        Bounds {
            min_x: if d.min_x < u.min_x { d.min_x } else { u.min_x },
            min_y: if d.min_y < u.min_y { d.min_y } else { u.min_y },
            max_x: if d.max_x > u.max_x { d.max_x } else { u.max_x },
            max_y: if d.max_y > u.max_y { d.max_y } else { u.max_y },
        }
    }
}

/// Combined bounds of every attached display, each given by its edges, or
/// `None` where absolute positioning is unavailable (`absolute` is false,
/// e.g. a relative-only cursor backend), where there is no display, or where
/// the combined rectangle is empty.
pub fn virtual_screen_bounds(displays: &[Bounds], absolute: bool) -> (r: Option<Bounds>)
    ensures
        r == if !absolute || displays@.len() == 0 || !union_of(displays@).valid() {
            None
        } else {
            Some(union_of(displays@))
        },
        r matches Some(b) ==> b.valid(),
{
    if !absolute || displays.len() == 0 {
        return None;
    }
    let mut acc = displays[0];
    let mut i: usize = 1;
    proof {
        assert(displays@.take(1).len() == 1);
    }
    while i < displays.len()
        invariant
            1 <= i <= displays@.len(),
            acc == union_of(displays@.take(i as int)),
        decreases displays@.len() - i,
    {
        let d = displays[i];
        proof {
            assert(displays@.take(i + 1).drop_last() =~= displays@.take(i as int));
        }
        acc = Bounds {
            min_x: if d.min_x < acc.min_x { d.min_x } else { acc.min_x },
            min_y: if d.min_y < acc.min_y { d.min_y } else { acc.min_y },
            max_x: if d.max_x > acc.max_x { d.max_x } else { acc.max_x },
            max_y: if d.max_y > acc.max_y { d.max_y } else { acc.max_y },
        };
        i = i + 1;
    }
    proof {
        assert(displays@.take(displays@.len() as int) =~= displays@);
    }
    if acc.max_x < acc.min_x || acc.max_y < acc.min_y {
        return None;
    }
    Some(acc)
}

/// Every display lies inside the combined bounds.
pub proof fn lemma_union_contains_displays(displays: Seq<Bounds>, k: int)
    requires
        0 <= k < displays.len(),
    ensures
        union_of(displays).min_x <= displays[k].min_x,
        union_of(displays).min_y <= displays[k].min_y,
        union_of(displays).max_x >= displays[k].max_x,
        union_of(displays).max_y >= displays[k].max_y,
    decreases displays.len(),
{
    if displays.len() > 1 && k < displays.len() - 1 {
        lemma_union_contains_displays(displays.drop_last(), k);
    }
}

} // verus!
