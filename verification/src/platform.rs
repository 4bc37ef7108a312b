//! The boundary to the operating system's capture primitives.
//!
//! Everything the OS answers — which displays exist, what pixels are on
//! them — depends on the machine and the moment, so the wrappers here
//! promise nothing about the values that come back.  The verified
//! pipeline around them ([`capture`]) plans and stitches whatever they
//! deliver; its exact pixel-level contract lives on
//! [`crate::compositor::compose`], which holds for every possible
//! answer.

use vstd::prelude::*;

use crate::buffer::PixelBuffer;
use crate::compositor::{compose, plan, req_callable, CaptureRect};
use crate::error::CaptureError;
use crate::topology::{all_wf, DisplayDescriptor};

verus! {

/// `screenshots::Screen`, the capture handle for one attached display.
/// Opaque to the verifier; what the crate's logic reads of it goes
/// through [`descriptor_of`].
#[verifier::external_type_specification]
#[verifier::external_body]
pub struct ExScreen(screenshots::Screen);

/// Relies on `screenshots::Screen::all`: one handle per attached
/// display, or an error when the platform cannot be queried.  Which
/// displays exist depends on the machine, so nothing is promised of the
/// list.
#[verifier::external_body]
fn enumerate_screens() -> (r: Option<Vec<screenshots::Screen>>) {
    match screenshots::Screen::all() {
        Ok(screens) => Some(screens),
        Err(_) => None,
    }
}

/// What the public `display_info` field of a `screenshots::Screen`
/// holds, as a plain descriptor.  A field read of a plain value: a
/// function of the screen alone, the same on every call.
pub uninterp spec fn spec_descriptor(s: screenshots::Screen) -> DisplayDescriptor;

/// Relies on the public `display_info` field of `screenshots::Screen`:
/// the display's origin and size in virtual-desktop coordinates.
#[verifier::external_body]
fn descriptor_of(screen: &screenshots::Screen) -> (d: DisplayDescriptor)
    ensures
        d == spec_descriptor(*screen),
{
    DisplayDescriptor {
        x: screen.display_info.x,
        y: screen.display_info.y,
        width: screen.display_info.width,
        height: screen.display_info.height,
    }
}

/// Relies on `screenshots::Screen::capture_area`: the RGBA bytes of the
/// given sub-rectangle of the display, addressed in the display's local
/// coordinates, or `None` when the capture fails.  What comes back
/// depends on what is on the screen, so nothing is promised of the
/// bytes; the stitching code guards every read against a buffer of the
/// wrong length.  The sub-rectangle must lie inside the extent the
/// screen itself reports, and that extent must be well formed: this is
/// what keeps the crate's own `i32` clamping arithmetic in range.
#[verifier::external_body]
fn capture_display_area(
    screen: &screenshots::Screen,
    x: i32,
    y: i32,
    width: u32,
    height: u32,
) -> (r: Option<Vec<u8>>)
    requires
        spec_descriptor(*screen).wf(),
        0 <= x,
        0 <= y,
        1 <= width,
        1 <= height,
        x + width <= spec_descriptor(*screen).width,
        y + height <= spec_descriptor(*screen).height,
{
    match screen.capture_area(x, y, width, height) {
        Ok(image) => Some(image.into_raw()),
        Err(_) => None,
    }
}

/// Turn the enumerated screens into plain descriptors, refusing a cycle
/// in which the OS reports a display whose far corner the compositor's
/// `i32` arithmetic could not address.
fn collect_descriptors(screens: &Vec<screenshots::Screen>) -> (r: Result<
    Vec<DisplayDescriptor>,
    CaptureError,
>)
    ensures
        r matches Ok(ds) ==> all_wf(ds@) && ds@.len() == screens@.len() && (forall|i: int|
            0 <= i < ds@.len() ==> #[trigger] ds@[i] == spec_descriptor(screens@[i])),
        r matches Err(e) ==> e == CaptureError::PlatformQuery,
{
    let mut displays: Vec<DisplayDescriptor> = Vec::new();
    let mut i: usize = 0;
    while i < screens.len()
        invariant
            i <= screens@.len(),
            displays@.len() == i,
            all_wf(displays@),
            forall|k: int| 0 <= k < i ==> #[trigger] displays@[k] == spec_descriptor(screens@[k]),
        decreases screens@.len() - i,
    {
        let d = descriptor_of(&screens[i]);
        if !d.check_wf() {
            return Err(CaptureError::PlatformQuery);
        }
        displays.push(d);
        i += 1;
    }
    Ok(displays)
}

/// A fresh snapshot of the attached displays, as plain descriptors.
/// Queried anew at the start of every capture cycle — the topology may
/// change between cycles — and never cached.
pub fn enumerate() -> (r: Result<Vec<DisplayDescriptor>, CaptureError>)
    ensures
        r matches Ok(ds) ==> all_wf(ds@),
        r matches Err(e) ==> e == CaptureError::PlatformQuery,
{
    match enumerate_screens() {
        Some(screens) => collect_descriptors(&screens),
        None => Err(CaptureError::PlatformQuery),
    }
}

/// Capture the selection rectangle, in virtual-desktop coordinates, as
/// one contiguous RGBA buffer stitched from per-display captures.
///
/// A zero-area selection returns `EmptyRegionError` before any display
/// is enumerated or captured — callers treat that as a successful
/// no-op.  `PlatformQueryError` means the display list could not be
/// taken; `CaptureDeviceError` means at least one display intersected
/// the selection and every intersecting display's capture failed.  A
/// display whose capture fails while another succeeds is skipped: the
/// composite goes on with what arrived, and the uncovered pixels stay
/// transparent.
pub fn capture(rect: &CaptureRect) -> (r: Result<PixelBuffer, CaptureError>)
    requires
        rect.width * rect.height * 4 <= usize::MAX,
    ensures
        r == Err::<PixelBuffer, CaptureError>(CaptureError::EmptyRegion) <==> (rect.width == 0
            || rect.height == 0),
        r matches Err(e) ==> (e == CaptureError::EmptyRegion || e == CaptureError::PlatformQuery
            || e == CaptureError::CaptureDevice),
        r matches Ok(b) ==> b.wf() && b.width == rect.width && b.height == rect.height,
{
    if rect.width == 0 || rect.height == 0 {
        return Err(CaptureError::EmptyRegion);
    }
    let screens = match enumerate_screens() {
        Some(s) => s,
        None => {
            return Err(CaptureError::PlatformQuery);
        },
    };
    let displays = match collect_descriptors(&screens) {
        Ok(ds) => ds,
        Err(e) => {
            return Err(e);
        },
    };
    let p = plan(rect, &displays);
    let mut parts: Vec<Option<Vec<u8>>> = Vec::new();
    let mut j: usize = 0;
    while j < p.len()
        invariant
            j <= p@.len(),
            parts@.len() == j,
            all_wf(displays@),
            displays@.len() == screens@.len(),
            forall|k: int| 0 <= k < displays@.len() ==> #[trigger] displays@[k] == spec_descriptor(
                screens@[k],
            ),
            crate::compositor::plan_callable(p@, displays@),
        decreases p@.len() - j,
    {
        proof {
            assert(req_callable(p@[j as int], displays@));
            assert(displays@[p@[j as int].display as int] == spec_descriptor(
                screens@[p@[j as int].display as int],
            ));
            assert(displays@[p@[j as int].display as int].wf());
        }
        let q = p[j];
        let part = capture_display_area(&screens[q.display], q.local_x, q.local_y, q.width, q.height);
        parts.push(part);
        j += 1;
    }
    compose(rect.width, rect.height, &p, &parts)
}

} // verus!
