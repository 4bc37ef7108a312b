//! Display topology: descriptors for the attached displays and the
//! bounding box of the virtual desktop they span.

use vstd::prelude::*;

use crate::error::CaptureError;

verus! {

/// One attached display: its origin and size in virtual-desktop
/// coordinates.  A snapshot, re-queried at the start of every capture
/// cycle; it carries no identity beyond one cycle.
#[derive(Debug, Clone, Copy, PartialEq, Eq, Structural)]
pub struct DisplayDescriptor {
    pub x: i32,
    pub y: i32,
    pub width: u32,
    pub height: u32,
}

/// The minimal axis-aligned rectangle that contains every display's
/// extent, in virtual-desktop coordinates.
#[derive(Debug, Clone, Copy, PartialEq, Eq, Structural)]
pub struct VirtualDesktopBounds {
    pub x: i32,
    pub y: i32,
    pub width: u32,
    pub height: u32,
}

impl DisplayDescriptor {
    /// The virtual-desktop coordinate one past the display's right edge.
    pub open spec fn right(self) -> int {
        self.x + self.width
    }

    /// The virtual-desktop coordinate one past the display's bottom edge.
    pub open spec fn bottom(self) -> int {
        self.y + self.height
    }

    /// A descriptor the rest of the crate can do arithmetic on: the far
    /// corner is representable as `i32`, and so is each side length
    /// (the per-display capture primitive addresses local coordinates
    /// with `i32`).
    pub open spec fn wf(self) -> bool {
        &&& self.width <= i32::MAX
        &&& self.height <= i32::MAX
        &&& self.right() <= i32::MAX
        &&& self.bottom() <= i32::MAX
    }

    /// Runtime check for [`DisplayDescriptor::wf`].
    pub fn check_wf(&self) -> (r: bool)
        ensures
            r == self.wf(),
    {
        self.width <= i32::MAX as u32 && self.height <= i32::MAX as u32
            && self.x as i64 + self.width as i64 <= i32::MAX as i64
            && self.y as i64 + self.height as i64 <= i32::MAX as i64
    }
}

/// Every descriptor in the sequence is well formed.
pub open spec fn all_wf(ds: Seq<DisplayDescriptor>) -> bool {
    forall|i: int| 0 <= i < ds.len() ==> ds[i].wf()
}

/// Smallest origin x over the displays.
pub open spec fn min_origin_x(ds: Seq<DisplayDescriptor>) -> int
    decreases ds.len(),
{
    if ds.len() <= 1 {
        ds[0].x as int
    } else {
        let rest = min_origin_x(ds.drop_last());
        if ds.last().x < rest { ds.last().x as int } else { rest }
    }
}

/// Smallest origin y over the displays.
pub open spec fn min_origin_y(ds: Seq<DisplayDescriptor>) -> int
    decreases ds.len(),
{
    if ds.len() <= 1 {
        ds[0].y as int
    } else {
        let rest = min_origin_y(ds.drop_last());
        if ds.last().y < rest { ds.last().y as int } else { rest }
    }
}

/// Largest right edge over the displays.
pub open spec fn max_right(ds: Seq<DisplayDescriptor>) -> int
    decreases ds.len(),
{
    if ds.len() <= 1 {
        ds[0].right()
    } else {
        let rest = max_right(ds.drop_last());
        if ds.last().right() > rest { ds.last().right() } else { rest }
    }
}

/// Largest bottom edge over the displays.
pub open spec fn max_bottom(ds: Seq<DisplayDescriptor>) -> int
    decreases ds.len(),
{
    if ds.len() <= 1 {
        ds[0].bottom()
    } else {
        let rest = max_bottom(ds.drop_last());
        if ds.last().bottom() > rest { ds.last().bottom() } else { rest }
    }
}

/// The bounding box of a non-empty display sequence: origin at the
/// component-wise minimum of the origins, far corner at the
/// component-wise maximum of the far corners.
pub open spec fn spec_bounds(ds: Seq<DisplayDescriptor>) -> VirtualDesktopBounds {
    VirtualDesktopBounds {
        x: min_origin_x(ds) as i32,
        y: min_origin_y(ds) as i32,
        width: (max_right(ds) - min_origin_x(ds)) as u32,
        height: (max_bottom(ds) - min_origin_y(ds)) as u32,
    }
}

/// The minimum and maximum above really are attained bounds.
proof fn lemma_bounds_minmax(ds: Seq<DisplayDescriptor>)
    requires
        ds.len() > 0,
    ensures
        forall|i: int| 0 <= i < ds.len() ==> min_origin_x(ds) <= #[trigger] ds[i].x,
        forall|i: int| 0 <= i < ds.len() ==> min_origin_y(ds) <= #[trigger] ds[i].y,
        forall|i: int| 0 <= i < ds.len() ==> #[trigger] ds[i].right() <= max_right(ds),
        forall|i: int| 0 <= i < ds.len() ==> #[trigger] ds[i].bottom() <= max_bottom(ds),
        exists|i: int| 0 <= i < ds.len() && min_origin_x(ds) == #[trigger] ds[i].x,
        exists|i: int| 0 <= i < ds.len() && min_origin_y(ds) == #[trigger] ds[i].y,
        exists|i: int| 0 <= i < ds.len() && max_right(ds) == #[trigger] ds[i].right(),
        exists|i: int| 0 <= i < ds.len() && max_bottom(ds) == #[trigger] ds[i].bottom(),
    decreases ds.len(),
{
    if ds.len() == 1 {
        assert(min_origin_x(ds) == ds[0].x);
        assert(min_origin_y(ds) == ds[0].y);
        assert(max_right(ds) == ds[0].right());
        assert(max_bottom(ds) == ds[0].bottom());
    } else {
        let rest = ds.drop_last();
        lemma_bounds_minmax(rest);
        assert(forall|i: int| 0 <= i < ds.len() - 1 ==> rest[i] == #[trigger] ds[i]);
        assert(ds[ds.len() - 1] == ds.last());
        if ds.last().x < min_origin_x(rest) {
            assert(min_origin_x(ds) == ds[ds.len() - 1].x);
        } else {
            let j = choose|j: int| 0 <= j < rest.len() && min_origin_x(rest) == #[trigger] rest[j].x;
            assert(min_origin_x(ds) == ds[j].x);
        }
        if ds.last().y < min_origin_y(rest) {
            assert(min_origin_y(ds) == ds[ds.len() - 1].y);
        } else {
            let j = choose|j: int| 0 <= j < rest.len() && min_origin_y(rest) == #[trigger] rest[j].y;
            assert(min_origin_y(ds) == ds[j].y);
        }
        if ds.last().right() > max_right(rest) {
            assert(max_right(ds) == ds[ds.len() - 1].right());
        } else {
            let j = choose|j: int| 0 <= j < rest.len() && max_right(rest) == #[trigger] rest[j].right();
            assert(max_right(ds) == ds[j].right());
        }
        if ds.last().bottom() > max_bottom(rest) {
            assert(max_bottom(ds) == ds[ds.len() - 1].bottom());
        } else {
            let j = choose|j: int| 0 <= j < rest.len() && max_bottom(rest) == #[trigger] rest[j].bottom();
            assert(max_bottom(ds) == ds[j].bottom());
        }
    }
}

/// Law: for every non-empty set of well-formed displays, the bounding
/// box's origin is the component-wise minimum of all display origins,
/// and its far corner is the component-wise maximum of all display far
/// corners — each bound both attained by some display and respected by
/// all.
pub proof fn lemma_bounds_characterization(ds: Seq<DisplayDescriptor>)
    requires
        ds.len() > 0,
        all_wf(ds),
    ensures
        forall|i: int|
            0 <= i < ds.len() ==> spec_bounds(ds).x <= #[trigger] ds[i].x && spec_bounds(ds).y
                <= ds[i].y,
        forall|i: int|
            0 <= i < ds.len() ==> #[trigger] ds[i].right() <= spec_bounds(ds).x + spec_bounds(
                ds,
            ).width && ds[i].bottom() <= spec_bounds(ds).y + spec_bounds(ds).height,
        exists|i: int| 0 <= i < ds.len() && spec_bounds(ds).x == #[trigger] ds[i].x,
        exists|i: int| 0 <= i < ds.len() && spec_bounds(ds).y == #[trigger] ds[i].y,
        exists|i: int|
            0 <= i < ds.len() && spec_bounds(ds).x + spec_bounds(ds).width == (#[trigger] ds[i]).right(),
        exists|i: int|
            0 <= i < ds.len() && spec_bounds(ds).y + spec_bounds(ds).height == (#[trigger] ds[i]).bottom(),
{
    lemma_bounds_minmax(ds);
    let jx = choose|j: int| 0 <= j < ds.len() && min_origin_x(ds) == #[trigger] ds[j].x;
    let jy = choose|j: int| 0 <= j < ds.len() && min_origin_y(ds) == #[trigger] ds[j].y;
    let jr = choose|j: int| 0 <= j < ds.len() && max_right(ds) == #[trigger] ds[j].right();
    let jb = choose|j: int| 0 <= j < ds.len() && max_bottom(ds) == #[trigger] ds[j].bottom();
    assert(ds[jx].wf() && ds[jy].wf() && ds[jr].wf() && ds[jb].wf());
    assert(min_origin_x(ds) <= ds[jr].x <= max_right(ds));
    assert(min_origin_y(ds) <= ds[jb].y <= max_bottom(ds));
    assert(spec_bounds(ds).x == min_origin_x(ds));
    assert(spec_bounds(ds).y == min_origin_y(ds));
    assert(spec_bounds(ds).width == max_right(ds) - min_origin_x(ds));
    assert(spec_bounds(ds).height == max_bottom(ds) - min_origin_y(ds));
}

/// The bounding box of the given displays, or `EmptyTopologyError` if
/// none are attached.  Fails only on an empty input; the caller treats
/// that as fatal to the capture cycle, not to the process.
pub fn bounds(displays: &Vec<DisplayDescriptor>) -> (r: Result<
    VirtualDesktopBounds,
    CaptureError,
>)
    requires
        all_wf(displays@),
    ensures
        displays@.len() == 0 <==> r == Err::<VirtualDesktopBounds, CaptureError>(
            CaptureError::EmptyTopology,
        ),
        r is Ok <==> displays@.len() > 0,
        r is Ok ==> r->Ok_0 == spec_bounds(displays@),
{
    if displays.len() == 0 {
        return Err(CaptureError::EmptyTopology);
    }
    let first = displays[0];
    let mut min_x: i32 = first.x;
    let mut min_y: i32 = first.y;
    assert(displays@[0].wf());
    let mut max_r: i32 = (first.x as i64 + first.width as i64) as i32;
    let mut max_b: i32 = (first.y as i64 + first.height as i64) as i32;
    let mut idx: usize = 1;
    while idx < displays.len()
        invariant
            all_wf(displays@),
            1 <= idx <= displays@.len(),
            min_x == min_origin_x(displays@.take(idx as int)),
            min_y == min_origin_y(displays@.take(idx as int)),
            max_r == max_right(displays@.take(idx as int)),
            max_b == max_bottom(displays@.take(idx as int)),
        decreases displays@.len() - idx,
    {
        let d = displays[idx];
        assert(displays@[idx as int].wf());
        proof {
            assert(displays@.take(idx as int + 1).drop_last() =~= displays@.take(idx as int));
            assert(displays@.take(idx as int + 1).last() == displays@[idx as int]);
        }
        if d.x < min_x {
            min_x = d.x;
        }
        if d.y < min_y {
            min_y = d.y;
        }
        let r_edge: i32 = (d.x as i64 + d.width as i64) as i32;
        if r_edge > max_r {
            max_r = r_edge;
        }
        let b_edge: i32 = (d.y as i64 + d.height as i64) as i32;
        if b_edge > max_b {
            max_b = b_edge;
        }
        idx += 1;
    }
    proof {
        assert(displays@.take(displays@.len() as int) =~= displays@);
        lemma_bounds_minmax(displays@);
        assert(displays@[0].x <= displays@[0].right());
    }
    let width: u32 = ((max_r as i64) - (min_x as i64)) as u32;
    let height: u32 = ((max_b as i64) - (min_y as i64)) as u32;
    Ok(VirtualDesktopBounds { x: min_x, y: min_y, width, height })
}

/// Companion of the platform query the surrounding application makes:
/// the width and height of the whole virtual desktop.
#[derive(Debug, Clone, PartialEq, Eq, Structural)]
pub struct ImplDesktop {}

impl ImplDesktop {
    /// The size of the virtual desktop spanned by `displays`, as the
    /// platform metrics report it: width and height as `i32`.
    ///
    /// The `i32` result forces the side lengths of the spanned box to be
    /// representable; callers check that before asking.
    pub fn get_desktop_size(displays: &Vec<DisplayDescriptor>) -> (r: Result<
        (i32, i32),
        CaptureError,
    >)
        requires
            all_wf(displays@),
            displays@.len() > 0 ==> spec_bounds(displays@).width <= i32::MAX
                && spec_bounds(displays@).height <= i32::MAX,
        ensures
            displays@.len() == 0 <==> r == Err::<(i32, i32), CaptureError>(
                CaptureError::EmptyTopology,
            ),
            r is Ok <==> displays@.len() > 0,
            r is Ok ==> r->Ok_0.0 == spec_bounds(displays@).width && r->Ok_0.1 == spec_bounds(
                displays@,
            ).height,
    {
        match bounds(displays) {
            Ok(b) => Ok((b.width as i32, b.height as i32)),
            Err(e) => Err(e),
        }
    }
}

} // verus!
