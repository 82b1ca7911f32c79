//! OCR client abstraction.

use crate::failure::Failure;
use vstd::prelude::*;

verus! {

/// Recognize text in images. Implementations may return plain text, markdown
/// or HTML, tables among it.
pub trait OcrClient {
    /// Recognize text in the given PNG or JPEG bytes.
    fn recognize(&self, image_bytes: &[u8]) -> Result<String, Failure>;
}

} // verus!
