//! The error taxonomy of a capture cycle.

use vstd::prelude::*;

verus! {

/// Why a capture cycle, or one step of it, could not finish.
///
/// No variant is fatal to the process: every error aborts at most the
/// current capture cycle.
#[derive(Debug, Clone, Copy, PartialEq, Eq, Structural)]
pub enum CaptureError {
    /// The operating system could not be queried for the attached displays.
    PlatformQuery,
    /// No displays are attached, so there is no virtual desktop to work in.
    EmptyTopology,
    /// The selection has zero area; callers treat this as a successful no-op.
    EmptyRegion,
    /// Every display that intersects the selection failed to deliver pixels.
    CaptureDevice,
    /// The clipboard could not be reached; the capture itself still counts
    /// as successful.
    ClipboardUnavailable,
    /// The modifier+key combination is already bound system-wide.
    HotkeyConflict,
}

} // verus!
