//! Pinned screenshots: floating windows that stay until they are closed.

use crate::picture::RgbaImage;
use crate::text;
use vstd::prelude::*;
use vstd::string::*;

verus! {

/// A pinned screenshot.
#[derive(Clone, Copy, Debug, PartialEq, Eq, Structural)]
pub struct PinSession {
    /// Unique among the pins of an application.
    pub id: u64,
    /// Width of the image in physical pixels.
    pub width_px: u32,
    /// Height of the image in physical pixels.
    pub height_px: u32,
    /// The user closed the pin.
    pub closed: bool,
}

impl PinSession {
    /// A new, open pin of an image.
    pub fn new(id: u64, img: &RgbaImage) -> (r: PinSession)
        ensures
            r.id == id,
            r.width_px == img@.width,
            r.height_px == img@.height,
            !r.closed,
    {
        PinSession { id, width_px: img.width(), height_px: img.height(), closed: false }
    }

    /// One frame of the pin's window: a close request, Esc or the close button
    /// closes it for good.
    pub fn frame(&mut self, close_requested: bool, esc: bool, close_clicked: bool)
        ensures
            *final(self) == (PinSession {
                closed: old(self).closed || close_requested || esc || close_clicked,
                ..*old(self)
            }),
    {
        if close_requested || esc || close_clicked {
            self.closed = true;
        }
    }

    /// The name under which the pin's image is uploaded.
    pub fn texture_name(&self) -> (r: String)
        ensures
            r@ == "pin-"@ + text::decimal(self.id as nat),
    {
        let mut name = "pin-".to_string();
        text::push_decimal(&mut name, self.id as u128);
        name
    }
}

} // verus!
