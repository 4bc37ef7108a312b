//! The region capture compositor.
//!
//! A selection is a rectangle in virtual-desktop coordinates, but every
//! desktop OS captures one display at a time, in that display's local
//! coordinates.  The compositor therefore plans one capture request per
//! intersecting display, and stitches the returned sub-buffers into one
//! contiguous RGBA buffer covering exactly the selection.  Stitching is
//! coordinate-exact: a one-pixel slip would show as a seam at a display
//! boundary.

use vstd::prelude::*;

use crate::buffer::{out_index, PixelBuffer};
use crate::error::CaptureError;
use crate::topology::{all_wf, DisplayDescriptor};

verus! {

/// A selection rectangle in virtual-desktop coordinates.
#[derive(Debug, Clone, Copy, PartialEq, Eq, Structural)]
pub struct CaptureRect {
    pub x: i32,
    pub y: i32,
    pub width: u32,
    pub height: u32,
}

impl CaptureRect {
    /// The virtual-desktop coordinate one past the rectangle's right edge.
    pub open spec fn right(self) -> int {
        self.x + self.width
    }

    /// The virtual-desktop coordinate one past the rectangle's bottom edge.
    pub open spec fn bottom(self) -> int {
        self.y + self.height
    }
}

/// One per-display capture the compositor asks for: which display, which
/// sub-rectangle of it (in display-local coordinates), and where the
/// returned pixels land in the output buffer.
#[derive(Debug, Clone, Copy, PartialEq, Eq, Structural)]
pub struct CaptureRequest {
    /// Index of the display in the enumeration the plan was made from.
    pub display: usize,
    /// Left edge of the sub-rectangle, in the display's local coordinates.
    pub local_x: i32,
    /// Top edge of the sub-rectangle, in the display's local coordinates.
    pub local_y: i32,
    /// Column in the output buffer where the sub-buffer's first column lands.
    pub dest_x: u32,
    /// Row in the output buffer where the sub-buffer's first row lands.
    pub dest_y: u32,
    /// Width of the intersection, in pixels.
    pub width: u32,
    /// Height of the intersection, in pixels.
    pub height: u32,
}

/// Left edge of the intersection of `r` and `d`.
pub open spec fn ix_left(r: CaptureRect, d: DisplayDescriptor) -> int {
    if r.x >= d.x {
        r.x as int
    } else {
        d.x as int
    }
}

/// Top edge of the intersection of `r` and `d`.
pub open spec fn ix_top(r: CaptureRect, d: DisplayDescriptor) -> int {
    if r.y >= d.y {
        r.y as int
    } else {
        d.y as int
    }
}

/// One past the right edge of the intersection of `r` and `d`.
pub open spec fn ix_right(r: CaptureRect, d: DisplayDescriptor) -> int {
    if r.right() <= d.right() {
        r.right()
    } else {
        d.right()
    }
}

/// One past the bottom edge of the intersection of `r` and `d`.
pub open spec fn ix_bottom(r: CaptureRect, d: DisplayDescriptor) -> int {
    if r.bottom() <= d.bottom() {
        r.bottom()
    } else {
        d.bottom()
    }
}

/// Whether the selection overlaps the display's extent at all.
pub open spec fn intersects(r: CaptureRect, d: DisplayDescriptor) -> bool {
    ix_left(r, d) < ix_right(r, d) && ix_top(r, d) < ix_bottom(r, d)
}

/// The capture request for display `d` (display index `i`), meaningful
/// when `intersects(r, d)` holds.
pub open spec fn request_for(r: CaptureRect, d: DisplayDescriptor, i: usize) -> CaptureRequest {
    CaptureRequest {
        display: i,
        local_x: (ix_left(r, d) - d.x) as i32,
        local_y: (ix_top(r, d) - d.y) as i32,
        dest_x: (ix_left(r, d) - r.x) as u32,
        dest_y: (ix_top(r, d) - r.y) as u32,
        width: (ix_right(r, d) - ix_left(r, d)) as u32,
        height: (ix_bottom(r, d) - ix_top(r, d)) as u32,
    }
}

/// The capture plan for selection `r` over the displays `ds`: one request
/// per intersecting display, in display order.
pub open spec fn spec_plan(r: CaptureRect, ds: Seq<DisplayDescriptor>) -> Seq<CaptureRequest>
    decreases ds.len(),
{
    if ds.len() == 0 {
        Seq::empty()
    } else {
        let rest = spec_plan(r, ds.drop_last());
        if intersects(r, ds.last()) {
            rest.push(request_for(r, ds.last(), (ds.len() - 1) as usize))
        } else {
            rest
        }
    }
}

/// The request's destination rectangle lies inside a `width` by `height`
/// output buffer.
pub open spec fn req_fits(q: CaptureRequest, width: u32, height: u32) -> bool {
    &&& q.dest_x + q.width <= width
    &&& q.dest_y + q.height <= height
}

/// Every request of the plan fits the output buffer.
pub open spec fn plan_fits(p: Seq<CaptureRequest>, width: u32, height: u32) -> bool {
    forall|i: int| 0 <= i < p.len() ==> req_fits(#[trigger] p[i], width, height)
}

/// The request can be handed to the per-display capture primitive: the
/// display index is in range, and the local sub-rectangle is non-empty,
/// non-negative, and lies inside that display's own extent.
pub open spec fn req_callable(q: CaptureRequest, ds: Seq<DisplayDescriptor>) -> bool {
    &&& q.display < ds.len()
    &&& 0 <= q.local_x
    &&& 0 <= q.local_y
    &&& 1 <= q.width
    &&& 1 <= q.height
    &&& q.local_x + q.width <= ds[q.display as int].width
    &&& q.local_y + q.height <= ds[q.display as int].height
}

/// Every request of the plan can be handed to the capture primitive.
pub open spec fn plan_callable(p: Seq<CaptureRequest>, ds: Seq<DisplayDescriptor>) -> bool {
    forall|i: int| 0 <= i < p.len() ==> req_callable(#[trigger] p[i], ds)
}

proof fn lemma_request_ok(r: CaptureRect, d: DisplayDescriptor, i: usize)
    requires
        intersects(r, d),
        d.wf(),
    ensures
        req_fits(request_for(r, d, i), r.width, r.height),
        ({
            let q = request_for(r, d, i);
            &&& q.display == i
            &&& 0 <= q.local_x
            &&& 0 <= q.local_y
            &&& 1 <= q.width
            &&& 1 <= q.height
            &&& q.local_x + q.width <= d.width
            &&& q.local_y + q.height <= d.height
        }),
{
    assert(ix_left(r, d) >= r.x && ix_left(r, d) >= d.x);
    assert(ix_right(r, d) <= r.right() && ix_right(r, d) <= d.right());
    assert(ix_top(r, d) >= r.y && ix_top(r, d) >= d.y);
    assert(ix_bottom(r, d) <= r.bottom() && ix_bottom(r, d) <= d.bottom());
}

/// A plan's requests fit the selection-sized output buffer and can all be
/// handed to the capture primitive.
pub proof fn lemma_plan_ok(r: CaptureRect, ds: Seq<DisplayDescriptor>)
    requires
        all_wf(ds),
        ds.len() <= usize::MAX,
    ensures
        plan_fits(spec_plan(r, ds), r.width, r.height),
        plan_callable(spec_plan(r, ds), ds),
    decreases ds.len(),
{
    if ds.len() > 0 {
        let rest = ds.drop_last();
        assert(forall|i: int| 0 <= i < rest.len() ==> rest[i] == #[trigger] ds[i]);
        assert(all_wf(rest));
        lemma_plan_ok(r, rest);
        let sub = spec_plan(r, rest);
        assert forall|i: int| 0 <= i < sub.len() implies req_callable(#[trigger] sub[i], ds) by {
            assert(req_callable(sub[i], rest));
            assert(ds[sub[i].display as int] == rest[sub[i].display as int]);
        }
        let p = spec_plan(r, ds);
        if intersects(r, ds.last()) {
            assert(ds.last() == ds[ds.len() - 1]);
            lemma_request_ok(r, ds.last(), (ds.len() - 1) as usize);
            let q = request_for(r, ds.last(), (ds.len() - 1) as usize);
            assert(req_callable(q, ds));
            assert(p == sub.push(q));
            assert forall|i: int| 0 <= i < p.len() implies req_callable(#[trigger] p[i], ds)
                && req_fits(p[i], r.width, r.height) by {
                if i < sub.len() {
                    assert(p[i] == sub[i]);
                } else {
                    assert(p[i] == q);
                }
            }
        } else {
            assert(p == sub);
            assert forall|i: int| 0 <= i < p.len() implies req_callable(#[trigger] p[i], ds)
                && req_fits(p[i], r.width, r.height) by {
                assert(p[i] == sub[i]);
            }
        }
    }
}

/// The intersection of the selection and one display, as a capture
/// request, or `None` when they do not overlap.
pub fn intersect(r: &CaptureRect, d: &DisplayDescriptor, display: usize) -> (q: Option<
    CaptureRequest,
>)
    requires
        d.wf(),
    ensures
        q is Some <==> intersects(*r, *d),
        q is Some ==> q->Some_0 == request_for(*r, *d, display),
{
    let left: i64 = if r.x >= d.x {
        r.x as i64
    } else {
        d.x as i64
    };
    let top: i64 = if r.y >= d.y {
        r.y as i64
    } else {
        d.y as i64
    };
    let r_right: i64 = r.x as i64 + r.width as i64;
    let d_right: i64 = d.x as i64 + d.width as i64;
    let right: i64 = if r_right <= d_right {
        r_right
    } else {
        d_right
    };
    let r_bottom: i64 = r.y as i64 + r.height as i64;
    let d_bottom: i64 = d.y as i64 + d.height as i64;
    let bottom: i64 = if r_bottom <= d_bottom {
        r_bottom
    } else {
        d_bottom
    };
    if left < right && top < bottom {
        proof {
            lemma_request_ok(*r, *d, display);
        }
        Some(
            CaptureRequest {
                display,
                local_x: (left - d.x as i64) as i32,
                local_y: (top - d.y as i64) as i32,
                dest_x: (left - r.x as i64) as u32,
                dest_y: (top - r.y as i64) as u32,
                width: (right - left) as u32,
                height: (bottom - top) as u32,
            },
        )
    } else {
        None
    }
}

/// The capture plan for selection `rect` over `displays`: one request per
/// intersecting display, in display order.  Zero-area selections and
/// selections outside every display yield an empty plan, so nothing is
/// ever asked of the capture primitive for them.
pub fn plan(rect: &CaptureRect, displays: &Vec<DisplayDescriptor>) -> (p: Vec<CaptureRequest>)
    requires
        all_wf(displays@),
    ensures
        p@ == spec_plan(*rect, displays@),
        plan_fits(p@, rect.width, rect.height),
        plan_callable(p@, displays@),
{
    let mut p: Vec<CaptureRequest> = Vec::new();
    let mut idx: usize = 0;
    while idx < displays.len()
        invariant
            all_wf(displays@),
            idx <= displays@.len(),
            p@ == spec_plan(*rect, displays@.take(idx as int)),
        decreases displays@.len() - idx,
    {
        proof {
            assert(displays@.take(idx as int + 1).drop_last() =~= displays@.take(idx as int));
            assert(displays@.take(idx as int + 1).last() == displays@[idx as int]);
            assert(displays@[idx as int].wf());
        }
        match intersect(rect, &displays[idx], idx) {
            Some(q) => {
                p.push(q);
            },
            None => {},
        }
        idx += 1;
    }
    proof {
        assert(displays@.take(displays@.len() as int) =~= displays@);
        lemma_plan_ok(*rect, displays@);
    }
    p
}

/// Whether the output pixel `(px, py)` lies in the request's destination
/// rectangle.
pub open spec fn covers(q: CaptureRequest, px: int, py: int) -> bool {
    &&& q.dest_x <= px < q.dest_x + q.width
    &&& q.dest_y <= py < q.dest_y + q.height
}

/// Byte offset of the pixel `(px, py)` inside the request's sub-buffer,
/// meaningful when `covers(q, px, py)` holds.
pub open spec fn part_index(q: CaptureRequest, px: int, py: int) -> int {
    ((py - q.dest_y) * q.width + (px - q.dest_x)) * 4
}

/// Whether the request, given the sub-buffer its capture returned,
/// writes the output pixel `(px, py)`: the capture succeeded, the pixel
/// lies in the destination rectangle, and the sub-buffer is long enough
/// to hold all four channels of it.
pub open spec fn writes(q: CaptureRequest, part: Option<Vec<u8>>, px: int, py: int) -> bool {
    match part {
        Some(p) => covers(q, px, py) && part_index(q, px, py) + 3 < p@.len(),
        None => false,
    }
}

/// The value of channel `c` of output pixel `(px, py)` after the whole
/// plan has been stitched: the last request that writes the pixel wins,
/// its alpha channel is forced fully opaque, and a pixel no request
/// writes stays zero, i.e. fully transparent.
pub open spec fn composed_byte(
    plan: Seq<CaptureRequest>,
    parts: Seq<Option<Vec<u8>>>,
    px: int,
    py: int,
    c: int,
) -> u8
    decreases plan.len(),
{
    if plan.len() == 0 {
        0u8
    } else {
        let i = plan.len() - 1;
        if writes(plan[i], parts[i], px, py) {
            if c == 3 {
                255u8
            } else {
                match parts[i] {
                    Some(p) => p@[part_index(plan[i], px, py) + c],
                    None => 0u8,
                }
            }
        } else {
            composed_byte(plan.drop_last(), parts.drop_last(), px, py, c)
        }
    }
}

/// The value of channel `c` of output pixel `(px, py)` after one
/// sub-buffer has been blitted over previous contents `prev`.
pub open spec fn blitted_byte(
    q: CaptureRequest,
    part: Seq<u8>,
    prev: u8,
    px: int,
    py: int,
    c: int,
) -> u8 {
    if covers(q, px, py) && part_index(q, px, py) + 3 < part.len() {
        if c == 3 {
            255u8
        } else {
            part[part_index(q, px, py) + c]
        }
    } else {
        prev
    }
}

proof fn lemma_out_index_bounds(width: int, height: int, px: int, py: int, c: int)
    by (nonlinear_arith)
    requires
        0 <= px < width,
        0 <= py < height,
        0 <= c < 4,
    ensures
        0 <= (py * width + px) * 4 + c < width * height * 4,
{
}

proof fn lemma_out_index_distinct(
    width: int,
    px1: int,
    py1: int,
    c1: int,
    px2: int,
    py2: int,
    c2: int,
)
    by (nonlinear_arith)
    requires
        0 <= px1 < width,
        0 <= px2 < width,
        0 <= c1 < 4,
        0 <= c2 < 4,
        !(px1 == px2 && py1 == py2 && c1 == c2),
    ensures
        (py1 * width + px1) * 4 + c1 != (py2 * width + px2) * 4 + c2,
{
}

/// Copy one returned sub-buffer into the output, row by row, forcing the
/// alpha channel fully opaque.  A sub-buffer too short to hold all four
/// channels of a pixel leaves that pixel untouched.
fn blit(pixels: &mut Vec<u8>, width: u32, height: u32, q: CaptureRequest, part: &Vec<u8>)
    requires
        old(pixels)@.len() == width * height * 4,
        req_fits(q, width, height),
        width * height * 4 <= usize::MAX,
    ensures
        final(pixels)@.len() == old(pixels)@.len(),
        forall|px: int, py: int, c: int|
            0 <= px < width && 0 <= py < height && 0 <= c < 4 ==> final(pixels)@[#[trigger] out_index(
                width as int,
                px,
                py,
                c,
            )] == blitted_byte(
                q,
                part@,
                old(pixels)@[out_index(width as int, px, py, c)],
                px,
                py,
                c,
            ),
{
    let ghost old_pixels: Seq<u8> = pixels@;
    let qw: usize = q.width as usize;
    let qh: usize = q.height as usize;
    proof {
        assert(qw * qh * 4 <= width * height * 4) by (nonlinear_arith)
            requires qw <= width && qh <= height && qw >= 0 && qh >= 0 && width >= 0 && height >= 0;
    }
    let mut ly: usize = 0;
    while ly < qh
        invariant
            pixels@.len() == width * height * 4,
            old_pixels.len() == pixels@.len(),
            req_fits(q, width, height),
            width * height * 4 <= usize::MAX,
            qw == q.width,
            qh == q.height,
            ly <= qh,
            forall|px: int, py: int, c: int|
                0 <= px < width && 0 <= py < height && 0 <= c < 4 ==> pixels@[#[trigger] out_index(
                    width as int,
                    px,
                    py,
                    c,
                )] == (if covers(q, px, py) && py - q.dest_y < ly && part_index(q, px, py) + 3
                    < part@.len() {
                    if c == 3 {
                        255u8
                    } else {
                        part@[part_index(q, px, py) + c]
                    }
                } else {
                    old_pixels[out_index(width as int, px, py, c)]
                }),
        decreases qh - ly,
    {
        let mut lx: usize = 0;
        while lx < qw
            invariant
                pixels@.len() == width * height * 4,
                old_pixels.len() == pixels@.len(),
                req_fits(q, width, height),
                width * height * 4 <= usize::MAX,
                qw == q.width,
                qh == q.height,
                ly < qh,
                lx <= qw,
                forall|px: int, py: int, c: int|
                    0 <= px < width && 0 <= py < height && 0 <= c < 4 ==> pixels@[
                    #[trigger] out_index(width as int, px, py, c)] == (if covers(q, px, py) && (py
                        - q.dest_y < ly || (py - q.dest_y == ly && px - q.dest_x < lx))
                        && part_index(q, px, py) + 3 < part@.len() {
                        if c == 3 {
                            255u8
                        } else {
                            part@[part_index(q, px, py) + c]
                        }
                    } else {
                        old_pixels[out_index(width as int, px, py, c)]
                    }),
            decreases qw - lx,
        {
            proof {
                assert((ly * qw + lx) * 4 + 3 < qw * qh * 4) by (nonlinear_arith)
                    requires ly < qh && lx < qw && qw >= 0 && qh >= 0;
                assert(qw * qh * 4 <= width * height * 4) by (nonlinear_arith)
                    requires qw <= width && qh <= height && qw >= 0 && qh >= 0 && width >= 0
                        && height >= 0;
            }
            let src: usize = (ly * qw + lx) * 4;
            let ghost px0: int = q.dest_x + lx;
            let ghost py0: int = q.dest_y + ly;
            if src + 3 < part.len() {
                let row: usize = q.dest_y as usize + ly;
                let col: usize = q.dest_x as usize + lx;
                proof {
                    assert((row * width + col) * 4 + 3 < width * height * 4) by (nonlinear_arith)
                        requires row < height && col < width && width >= 0 && height >= 0;
                }
                let dst: usize = (row * (width as usize) + col) * 4;
                proof {
                    assert(dst == out_index(width as int, px0, py0, 0));
                    assert(part_index(q, px0, py0) == src);
                    assert(covers(q, px0, py0));
                }
                let ghost pre: Seq<u8> = pixels@;
                pixels[dst] = part[src];
                pixels[dst + 1] = part[src + 1];
                pixels[dst + 2] = part[src + 2];
                pixels[dst + 3] = 255;
                proof {
                    assert forall|px: int, py: int, c: int|
                        0 <= px < width && 0 <= py < height && 0 <= c < 4 implies pixels@[
                    #[trigger] out_index(width as int, px, py, c)] == (if covers(q, px, py) && (py
                        - q.dest_y < ly || (py - q.dest_y == ly && px - q.dest_x < lx + 1))
                        && part_index(q, px, py) + 3 < part@.len() {
                        if c == 3 {
                            255u8
                        } else {
                            part@[part_index(q, px, py) + c]
                        }
                    } else {
                        old_pixels[out_index(width as int, px, py, c)]
                    }) by {
                        lemma_out_index_bounds(width as int, height as int, px, py, c);
                        lemma_out_index_bounds(width as int, height as int, px0, py0, 0);
                        lemma_out_index_bounds(width as int, height as int, px0, py0, 1);
                        lemma_out_index_bounds(width as int, height as int, px0, py0, 2);
                        lemma_out_index_bounds(width as int, height as int, px0, py0, 3);
                        if px == px0 && py == py0 {
                            assert(out_index(width as int, px, py, c) == dst + c);
                        } else {
                            lemma_out_index_distinct(width as int, px, py, c, px0, py0, 0);
                            lemma_out_index_distinct(width as int, px, py, c, px0, py0, 1);
                            lemma_out_index_distinct(width as int, px, py, c, px0, py0, 2);
                            lemma_out_index_distinct(width as int, px, py, c, px0, py0, 3);
                            assert(pixels@[out_index(width as int, px, py, c)] == pre[out_index(
                                width as int,
                                px,
                                py,
                                c,
                            )]);
                        }
                    }
                }
            } else {
                proof {
                    assert forall|px: int, py: int, c: int|
                        0 <= px < width && 0 <= py < height && 0 <= c < 4 implies pixels@[
                    #[trigger] out_index(width as int, px, py, c)] == (if covers(q, px, py) && (py
                        - q.dest_y < ly || (py - q.dest_y == ly && px - q.dest_x < lx + 1))
                        && part_index(q, px, py) + 3 < part@.len() {
                        if c == 3 {
                            255u8
                        } else {
                            part@[part_index(q, px, py) + c]
                        }
                    } else {
                        old_pixels[out_index(width as int, px, py, c)]
                    }) by {
                        if px == px0 && py == py0 {
                            assert(part_index(q, px, py) == src);
                        }
                    }
                }
            }
            lx += 1;
        }
        ly += 1;
    }
}

/// Stitch the returned sub-buffers into one buffer of the selection's
/// size.  `plan` and `parts` run in parallel: `parts[i]` is what the
/// capture primitive returned for `plan[i]`, or `None` if that capture
/// call failed.
///
/// Fails with `EmptyRegionError` on a zero-area selection (a successful
/// no-op to the caller) and with `CaptureDeviceError` exactly when at
/// least one display intersected the selection but every intersecting
/// display's capture failed.  A selection that intersects no display
/// yields a fully transparent buffer, not an error.
pub fn compose(
    width: u32,
    height: u32,
    plan: &Vec<CaptureRequest>,
    parts: &Vec<Option<Vec<u8>>>,
) -> (r: Result<PixelBuffer, CaptureError>)
    requires
        parts@.len() == plan@.len(),
        plan_fits(plan@, width, height),
        width * height * 4 <= usize::MAX,
    ensures
        r == Err::<PixelBuffer, CaptureError>(CaptureError::EmptyRegion) <==> (width == 0 || height
            == 0),
        r == Err::<PixelBuffer, CaptureError>(CaptureError::CaptureDevice) <==> (width > 0 && height
            > 0 && plan@.len() > 0 && (forall|i: int|
            0 <= i < parts@.len() ==> parts@[i] is None)),
        r is Ok <==> (width > 0 && height > 0 && (plan@.len() == 0 || (exists|i: int|
            0 <= i < parts@.len() && parts@[i] is Some))),
        r is Ok ==> ({
            let b = r->Ok_0;
            &&& b.wf()
            &&& b.width == width
            &&& b.height == height
            &&& forall|px: int, py: int, c: int|
                0 <= px < width && 0 <= py < height && 0 <= c < 4 ==> b.pixels@[#[trigger] out_index(
                    width as int,
                    px,
                    py,
                    c,
                )] == composed_byte(plan@, parts@, px, py, c)
        }),
{
    if width == 0 || height == 0 {
        return Err(CaptureError::EmptyRegion);
    }
    let mut buf = PixelBuffer::new_zeroed(width, height);
    let mut any: bool = false;
    let mut i: usize = 0;
    proof {
        assert forall|px: int, py: int, c: int|
            0 <= px < width && 0 <= py < height && 0 <= c < 4 implies buf.pixels@[
        #[trigger] out_index(width as int, px, py, c)] == composed_byte(
            plan@.take(0),
            parts@.take(0),
            px,
            py,
            c,
        ) by {
            lemma_out_index_bounds(width as int, height as int, px, py, c);
        }
    }
    while i < plan.len()
        invariant
            parts@.len() == plan@.len(),
            plan_fits(plan@, width, height),
            width * height * 4 <= usize::MAX,
            width > 0,
            height > 0,
            i <= plan@.len(),
            buf.width == width,
            buf.height == height,
            buf.pixels@.len() == width * height * 4,
            any <==> (exists|j: int| 0 <= j < i && parts@[j] is Some),
            forall|px: int, py: int, c: int|
                0 <= px < width && 0 <= py < height && 0 <= c < 4 ==> buf.pixels@[
                #[trigger] out_index(width as int, px, py, c)] == composed_byte(
                    plan@.take(i as int),
                    parts@.take(i as int),
                    px,
                    py,
                    c,
                ),
        decreases plan@.len() - i,
    {
        proof {
            assert(plan@.take(i as int + 1).drop_last() =~= plan@.take(i as int));
            assert(parts@.take(i as int + 1).drop_last() =~= parts@.take(i as int));
            assert(plan@.take(i as int + 1).last() == plan@[i as int]);
            assert(parts@.take(i as int + 1).last() == parts@[i as int]);
            assert(req_fits(plan@[i as int], width, height));
        }
        let q: CaptureRequest = plan[i];
        let part_ref: &Option<Vec<u8>> = &parts[i];
        match part_ref {
            Some(part) => {
                any = true;
                let ghost pre: Seq<u8> = buf.pixels@;
                blit(&mut buf.pixels, width, height, q, part);
                proof {
                    assert(exists|j: int| 0 <= j < i + 1 && parts@[j] is Some) by {
                        assert(parts@[i as int] is Some);
                    }
                    assert forall|px: int, py: int, c: int|
                        0 <= px < width && 0 <= py < height && 0 <= c < 4 implies buf.pixels@[
                    #[trigger] out_index(width as int, px, py, c)] == composed_byte(
                        plan@.take(i as int + 1),
                        parts@.take(i as int + 1),
                        px,
                        py,
                        c,
                    ) by {
                        assert(buf.pixels@[out_index(width as int, px, py, c)] == blitted_byte(
                            q,
                            part@,
                            pre[out_index(width as int, px, py, c)],
                            px,
                            py,
                            c,
                        ));
                        assert(parts@[i as int] == Some(*part));
                    }
                }
            },
            None => {
                proof {
                    assert forall|px: int, py: int, c: int|
                        0 <= px < width && 0 <= py < height && 0 <= c < 4 implies buf.pixels@[
                    #[trigger] out_index(width as int, px, py, c)] == composed_byte(
                        plan@.take(i as int + 1),
                        parts@.take(i as int + 1),
                        px,
                        py,
                        c,
                    ) by {
                        assert(!writes(plan@[i as int], parts@[i as int], px, py));
                    }
                }
            },
        }
        i += 1;
    }
    proof {
        assert(plan@.take(plan@.len() as int) =~= plan@);
        assert(parts@.take(parts@.len() as int) =~= parts@);
    }
    if plan.len() > 0 && !any {
        return Err(CaptureError::CaptureDevice);
    }
    Ok(buf)
}

/// A zero-area selection intersects nothing: its plan is empty, so no
/// OS-level capture call is ever made for it.
pub proof fn lemma_zero_area_plans_nothing(r: CaptureRect, ds: Seq<DisplayDescriptor>)
    requires
        r.width == 0 || r.height == 0,
    ensures
        spec_plan(r, ds).len() == 0,
    decreases ds.len(),
{
    if ds.len() > 0 {
        lemma_zero_area_plans_nothing(r, ds.drop_last());
        assert(!intersects(r, ds.last()));
    }
}

/// A selection that intersects no display yields an empty plan and a
/// fully transparent buffer: every composed byte is zero, and no
/// `CaptureDeviceError` arises, because no display was touched.
pub proof fn lemma_outside_all_displays(
    r: CaptureRect,
    ds: Seq<DisplayDescriptor>,
    parts: Seq<Option<Vec<u8>>>,
)
    requires
        forall|i: int| 0 <= i < ds.len() ==> !intersects(r, #[trigger] ds[i]),
    ensures
        spec_plan(r, ds).len() == 0,
        forall|px: int, py: int, c: int|
            #[trigger] composed_byte(spec_plan(r, ds), parts, px, py, c) == 0u8,
    decreases ds.len(),
{
    if ds.len() > 0 {
        let rest = ds.drop_last();
        assert(forall|i: int| 0 <= i < rest.len() ==> rest[i] == #[trigger] ds[i]);
        lemma_outside_all_displays(r, rest, parts);
        assert(!intersects(r, ds.last())) by {
            assert(ds.last() == ds[ds.len() - 1]);
        }
    }
}

proof fn lemma_plan_single(r: CaptureRect, ds: Seq<DisplayDescriptor>, k: int)
    requires
        0 <= k < ds.len(),
        intersects(r, ds[k]),
        forall|j: int| 0 <= j < ds.len() && j != k ==> !intersects(r, #[trigger] ds[j]),
    ensures
        spec_plan(r, ds) =~= seq![request_for(r, ds[k], k as usize)],
    decreases ds.len(),
{
    let rest = ds.drop_last();
    assert(forall|i: int| 0 <= i < rest.len() ==> rest[i] == #[trigger] ds[i]);
    assert(ds.last() == ds[ds.len() - 1]);
    if k == ds.len() - 1 {
        lemma_outside_all_displays(r, rest, Seq::empty());
    } else {
        lemma_plan_single(r, rest, k);
    }
}

/// A selection fully inside a single display produces exactly one
/// request — the equivalent sub-rectangle in that display's local
/// coordinates, landing at the output's origin — and the composed buffer
/// is byte-identical to that display's local capture, except that every
/// alpha byte is forced fully opaque.
pub proof fn lemma_single_display_identity(
    r: CaptureRect,
    ds: Seq<DisplayDescriptor>,
    k: int,
    parts: Seq<Option<Vec<u8>>>,
)
    requires
        0 <= k < ds.len(),
        ds[k].wf(),
        r.width > 0,
        r.height > 0,
        ds[k].x <= r.x,
        r.right() <= ds[k].right(),
        ds[k].y <= r.y,
        r.bottom() <= ds[k].bottom(),
        forall|j: int| 0 <= j < ds.len() && j != k ==> !intersects(r, #[trigger] ds[j]),
        parts.len() == 1,
        parts[0] is Some,
        parts[0]->Some_0@.len() >= r.width * r.height * 4,
    ensures
        spec_plan(r, ds) =~= seq![request_for(r, ds[k], k as usize)],
        request_for(r, ds[k], k as usize) == (CaptureRequest {
            display: k as usize,
            local_x: (r.x - ds[k].x) as i32,
            local_y: (r.y - ds[k].y) as i32,
            dest_x: 0,
            dest_y: 0,
            width: r.width,
            height: r.height,
        }),
        forall|px: int, py: int, c: int|
            0 <= px < r.width && 0 <= py < r.height && 0 <= c < 4 ==> #[trigger] composed_byte(
                spec_plan(r, ds),
                parts,
                px,
                py,
                c,
            ) == (if c == 3 {
                255u8
            } else {
                parts[0]->Some_0@[out_index(r.width as int, px, py, c)]
            }),
{
    let d = ds[k];
    assert(ix_left(r, d) == r.x && ix_right(r, d) == r.right());
    assert(ix_top(r, d) == r.y && ix_bottom(r, d) == r.bottom());
    assert(intersects(r, d));
    lemma_plan_single(r, ds, k);
    let q = request_for(r, d, k as usize);
    assert(0 <= r.x - d.x <= d.width && 0 <= r.y - d.y <= d.height);
    let p = spec_plan(r, ds);
    assert(p =~= seq![q]);
    assert(p == seq![q]);
    assert forall|px: int, py: int, c: int|
        0 <= px < r.width && 0 <= py < r.height && 0 <= c < 4 implies #[trigger] composed_byte(
        p,
        parts,
        px,
        py,
        c,
    ) == (if c == 3 {
        255u8
    } else {
        parts[0]->Some_0@[out_index(r.width as int, px, py, c)]
    }) by {
        lemma_out_index_bounds(r.width as int, r.height as int, px, py, c);
        lemma_out_index_bounds(r.width as int, r.height as int, px, py, 3);
        assert(covers(q, px, py));
        assert(part_index(q, px, py) == (py * r.width + px) * 4);
        assert(part_index(q, px, py) + 3 < parts[0]->Some_0@.len());
        assert(writes(p[0], parts[0], px, py));
    }
}

} // verus!
