//! Multi-monitor region capture.
//!
//! The crate models a desktop screenshot pipeline: a display topology
//! resolver that turns the attached monitors into a virtual-desktop
//! bounding box, a region capture compositor that stitches per-display
//! captures into one contiguous RGBA buffer, and the hotkey-driven
//! lifecycle state machine that sequences a capture cycle from the
//! hotkey press to the dispatch of the finished buffer.

pub mod bridge;
pub mod buffer;
pub mod clipboard;
pub mod compositor;
pub mod error;
pub mod hotkey;
pub mod lifecycle;
pub mod platform;
pub mod preview;
pub mod topology;
