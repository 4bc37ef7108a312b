//! The clipboard sink, modelled.

use vstd::prelude::*;

use crate::buffer::PixelBuffer;
use crate::error::CaptureError;

verus! {

/// The two slots the system clipboard offers this application: the last
/// text and the last image placed on it.  The surrounding application
/// mirrors every call onto the real OS clipboard; what the library
/// establishes — and what the round-trip law states — is that the bytes
/// handed to the sink are the bytes read back, unchanged.
#[derive(Debug, Clone, PartialEq, Eq)]
pub struct ImplClipboard {
    pub text: Option<String>,
    pub image: Option<PixelBuffer>,
}

/// The clipboard after an image of the given dimensions was placed on
/// it.
pub open spec fn spec_set_image(
    c: ImplClipboard,
    width: u32,
    height: u32,
    bytes: Vec<u8>,
) -> ImplClipboard {
    ImplClipboard { text: c.text, image: Some(PixelBuffer { width, height, pixels: bytes }) }
}

impl ImplClipboard {
    /// An empty clipboard.
    pub fn new() -> (c: ImplClipboard)
        ensures
            c.text is None,
            c.image is None,
    {
        ImplClipboard { text: None, image: None }
    }

    /// Place text on the clipboard, leaving the image slot alone.
    pub fn set_text(&mut self, text: String) -> (r: Result<(), CaptureError>)
        ensures
            final(self).text == Some(text),
            final(self).image == old(self).image,
            r is Ok,
    {
        self.text = Some(text);
        Ok(())
    }

    /// Place an RGBA image on the clipboard, leaving the text slot
    /// alone: the sink's `set_image(width, height, bytes)` call.
    pub fn set_image(&mut self, width: u32, height: u32, bytes: Vec<u8>) -> (r: Result<
        (),
        CaptureError,
    >)
        requires
            bytes@.len() == width * height * 4,
        ensures
            *final(self) == spec_set_image(*old(self), width, height, bytes),
            r is Ok,
    {
        self.image = Some(PixelBuffer { width, height, pixels: bytes });
        Ok(())
    }

    /// Read the image slot back: the sink's own get-image call.
    pub fn get_image(&self) -> (r: &Option<PixelBuffer>)
        ensures
            *r == self.image,
    {
        &self.image
    }
}

/// Law: the clipboard round trip is byte-identical.  A buffer handed to
/// the sink field by field and then read back through the image slot is
/// the same buffer, bytes and dimensions untouched.
pub proof fn lemma_clipboard_round_trip(c: ImplClipboard, b: PixelBuffer)
    ensures
        spec_set_image(c, b.width, b.height, b.pixels).image == Some(b),
{
}

} // verus!
