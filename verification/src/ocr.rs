//! Text recognition in images. This build has no recognition engine.
use vstd::prelude::*;

use crate::text::{owned, push_str, string_from_chars};

verus! {

/// What can go wrong recognizing text.
#[derive(Debug, Clone)]
pub enum OcrError {
    InitError(String),
    ImageLoadError(String),
    ProcessingError(String),
    NotAvailable,
}

pub open spec fn ocr_error_text(e: OcrError) -> Seq<char> {
    match e {
        OcrError::InitError(m) => "Failed to initialize OCR engine: "@ + m@,
        OcrError::ImageLoadError(m) => "Failed to load image for OCR: "@ + m@,
        OcrError::ProcessingError(m) => "OCR processing failed: "@ + m@,
        OcrError::NotAvailable =>
            "Tesseract not available - install Tesseract OCR or enable the 'ocr' feature"@,
    }
}

fn joined(head: &str, tail: &str) -> (r: String)
    ensures
        r@ == head@ + tail@,
{
    let mut v: Vec<char> = Vec::new();
    push_str(&mut v, head);
    push_str(&mut v, tail);
    string_from_chars(v.as_slice())
}

impl OcrError {
    /// The text that describes the error.
    pub fn message(&self) -> (r: String)
        ensures
            r@ == ocr_error_text(*self),
    {
        match self {
            OcrError::InitError(m) => joined("Failed to initialize OCR engine: ", m.as_str()),
            OcrError::ImageLoadError(m) => joined("Failed to load image for OCR: ", m.as_str()),
            OcrError::ProcessingError(m) => joined("OCR processing failed: ", m.as_str()),
            OcrError::NotAvailable => owned(
                "Tesseract not available - install Tesseract OCR or enable the 'ocr' feature",
            ),
        }
    }
}

/// Whether text recognition is available: never, in this build.
pub fn is_available() -> (b: bool)
    ensures
        !b,
{
    false
}

} // verus!
