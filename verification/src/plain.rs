//! The two routes that change nothing: the copy, and the text of a PDF.

use vstd::prelude::*;
use vstd::slice::slice_to_vec;

verus! {

/// The bytes to write for a copy: those of the input, one for one.
pub fn duplicate_file(input: &[u8]) -> (output: Vec<u8>)
    ensures
        output@ == input@,
{
    slice_to_vec(input)
}

/// The text to write for a PDF, given what the extractor found in it.
pub open spec fn text_or_empty(extracted: Option<Seq<char>>) -> Seq<char> {
    match extracted {
        Some(text) => text,
        None => Seq::<char>::empty(),
    }
}

/// The text to write for a PDF: the text that was extracted from it, or
/// the empty text where the extraction failed.
pub fn pdf_to_txt(extracted: Option<String>) -> (text: String)
    ensures
        text@ == text_or_empty(crate::request::text_of(extracted)),
{
    match extracted {
        Some(text) => text,
        None => String::new(),
    }
}

} // verus!
