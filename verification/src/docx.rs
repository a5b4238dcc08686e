//! Text to DOCX: the whole text as one run of one paragraph, unstyled.
//! How it falls on pages is left to the program that shows the document.

use vstd::prelude::*;
use vstd::utf8::encode_utf8;
use crate::error::{ConvertError, Failure};

verus! {

/// A run of a paragraph.
#[verifier::external_type_specification]
#[verifier::external_body]
pub struct ExRun(docx_rs::Run);

/// A paragraph of a document.
#[verifier::external_type_specification]
#[verifier::external_body]
pub struct ExParagraph(docx_rs::Paragraph);

/// A document that is being built.
#[verifier::external_type_specification]
#[verifier::external_body]
pub struct ExDocx(docx_rs::Docx);

/// The parts of a document, written out and ready to be packed.
#[verifier::external_type_specification]
#[verifier::external_body]
pub struct ExXmlDocx(docx_rs::XMLDocx);

/// The texts that a run holds, in order, each in the escaped form in which
/// the run keeps it.
pub uninterp spec fn run_texts(run: docx_rs::Run) -> Seq<Seq<char>>;

/// The runs that a paragraph holds, in order, each given by its texts.
pub uninterp spec fn paragraph_runs(paragraph: docx_rs::Paragraph) -> Seq<Seq<Seq<char>>>;

/// The paragraphs that a document holds, in order, each given by its runs.
pub uninterp spec fn docx_paragraphs(document: docx_rs::Docx) -> Seq<Seq<Seq<Seq<char>>>>;

/// What the parts hold as their document part: the bytes of the XML that
/// describes the body of the document.
pub uninterp spec fn document_part(parts: docx_rs::XMLDocx) -> Seq<u8>;

/// What a run keeps of one character of a text that is added to it:
/// nothing of a line feed or a carriage return, the entity of a character
/// that XML reserves, and every other character as it is.
pub open spec fn kept_char(c: char) -> Seq<char> {
    if c == '\n' || c == '\r' {
        Seq::<char>::empty()
    } else if c == '&' {
        "&amp;"@
    } else if c == '<' {
        "&lt;"@
    } else if c == '>' {
        "&gt;"@
    } else if c == '"' {
        "&quot;"@
    } else if c == '\'' {
        "&apos;"@
    } else {
        seq![c]
    }
}

/// What a run keeps of a text that is added to it: what it keeps of each
/// character, in order.
pub open spec fn kept(text: Seq<char>) -> Seq<char>
    decreases text.len(),
{
    if text.len() == 0 {
        Seq::<char>::empty()
    } else {
        kept(text.drop_last()) + kept_char(text.last())
    }
}

/// Whether `part` stands somewhere in `whole`, byte for byte.
pub open spec fn holds(whole: Seq<u8>, part: Seq<u8>) -> bool {
    exists|at: int|
        0 <= at && at + part.len() <= whole.len() && #[trigger] whole.subrange(
            at,
            at + part.len(),
        ) == part
}

/// What stands in a part of the whole stands in the whole.
pub proof fn lemma_holds_within(whole: Seq<u8>, part: Seq<u8>, piece: Seq<u8>)
    requires
        holds(whole, part),
        holds(part, piece),
    ensures
        holds(whole, piece),
{
    let outer = choose|at: int|
        0 <= at && at + part.len() <= whole.len() && #[trigger] whole.subrange(
            at,
            at + part.len(),
        ) == part;
    let inner = choose|at: int|
        0 <= at && at + piece.len() <= part.len() && #[trigger] part.subrange(
            at,
            at + piece.len(),
        ) == piece;
    assert(whole.subrange(outer + inner, outer + inner + piece.len()) =~= part.subrange(
        inner,
        inner + piece.len(),
    ));
}

/// Calls `docx_rs::Run::new`, which gives a run without children.
#[verifier::external_body]
fn run_new() -> (run: docx_rs::Run)
    ensures
        run_texts(run) == Seq::<Seq<char>>::empty(),
{
    docx_rs::Run::new()
}

/// Calls `docx_rs::Run::add_text`, which takes the line feeds out of the
/// text, escapes what is left for XML, dropping the carriage returns, and
/// appends it to the children of the run, as a text.
#[verifier::external_body]
fn run_add_text(run: docx_rs::Run, text: &str) -> (extended: docx_rs::Run)
    ensures
        run_texts(extended) == run_texts(run).push(kept(text@)),
{
    run.add_text(text)
}

/// Calls `docx_rs::Paragraph::new`, which gives a paragraph without
/// children.
#[verifier::external_body]
fn paragraph_new() -> (paragraph: docx_rs::Paragraph)
    ensures
        paragraph_runs(paragraph) == Seq::<Seq<Seq<char>>>::empty(),
{
    docx_rs::Paragraph::new()
}

/// Calls `docx_rs::Paragraph::add_run`, which appends the run to the
/// children of the paragraph.
#[verifier::external_body]
fn paragraph_add_run(paragraph: docx_rs::Paragraph, run: docx_rs::Run) -> (extended:
    docx_rs::Paragraph)
    ensures
        paragraph_runs(extended) == paragraph_runs(paragraph).push(run_texts(run)),
{
    paragraph.add_run(run)
}

/// Calls `docx_rs::Docx::new`, which gives a document without children.
#[verifier::external_body]
fn docx_new() -> (document: docx_rs::Docx)
    ensures
        docx_paragraphs(document) == Seq::<Seq<Seq<Seq<char>>>>::empty(),
{
    docx_rs::Docx::new()
}

/// Calls `docx_rs::Docx::add_paragraph`, which appends the paragraph to the
/// children of the document.
#[verifier::external_body]
fn docx_add_paragraph(document: docx_rs::Docx, paragraph: docx_rs::Paragraph) -> (extended:
    docx_rs::Docx)
    ensures
        docx_paragraphs(extended) == docx_paragraphs(document).push(paragraph_runs(paragraph)),
{
    document.add_paragraph(paragraph)
}

/// Calls `docx_rs::Docx::build`, which writes out the parts of the
/// document. The document part is written from the children of the
/// document, and each text of a run is written into it as the run keeps it,
/// without being escaped again: so every text of every run of every
/// paragraph stands in the document part. The part also holds the
/// identifiers of the paragraphs, which the thread counts up, so no more is
/// said of it.
#[verifier::external_body]
fn docx_build(document: docx_rs::Docx) -> (parts: docx_rs::XMLDocx)
    ensures
        forall|p: int, r: int, t: int|
            0 <= p < docx_paragraphs(document).len() && 0 <= r < docx_paragraphs(document)[p].len()
                && 0 <= t < docx_paragraphs(document)[p][r].len() ==> holds(
                document_part(parts),
                encode_utf8(#[trigger] docx_paragraphs(document)[p][r][t]),
            ),
{
    document.build()
}

/// Calls `docx_rs::XMLDocx::pack` on a buffer in memory, and hands out the
/// bytes of the package, or the message of the error. The archive stores
/// its files without compressing them and ends with its directory: so a
/// package is not empty, and the document part stands in it.
#[verifier::external_body]
fn docx_pack(parts: docx_rs::XMLDocx) -> (outcome: Result<Vec<u8>, String>)
    ensures
        outcome matches Ok(bytes) ==> bytes@.len() > 0 && holds(bytes@, document_part(parts)),
{
    let mut buffer = std::io::Cursor::new(Vec::new());
    match parts.pack(&mut buffer) {
        Ok(()) => Ok(buffer.into_inner()),
        Err(error) => Err(error.to_string()),
    }
}

/// The document for a text: one paragraph of one run, which holds the text
/// as a run keeps it.
pub fn single_paragraph(text: &str) -> (document: docx_rs::Docx)
    ensures
        docx_paragraphs(document) == seq![seq![seq![kept(text@)]]],
{
    let run = run_add_text(run_new(), text);
    let paragraph = paragraph_add_run(paragraph_new(), run);
    let document = docx_add_paragraph(docx_new(), paragraph);
    assert(docx_paragraphs(document) =~~= seq![seq![seq![kept(text@)]]]);
    document
}

/// The model of the result of a converter that writes bytes.
pub open spec fn bytes_outcome(result: Result<Vec<u8>, ConvertError>) -> Result<Seq<u8>, Failure> {
    match result {
        Ok(bytes) => Ok(bytes@),
        Err(error) => Err(error@),
    }
}

/// The outcome of the conversion, given what the packing gave: the bytes,
/// or the failure as a DOCX error with the same message.
pub open spec fn package_or_error(outcome: Result<Vec<u8>, String>) -> Result<Seq<u8>, Failure> {
    match outcome {
        Ok(bytes) => Ok(bytes@),
        Err(message) => Err(Failure::Docx(message@)),
    }
}

/// The result of the conversion, given what the packing gave.
pub fn packed(outcome: Result<Vec<u8>, String>) -> (result: Result<Vec<u8>, ConvertError>)
    ensures
        bytes_outcome(result) == package_or_error(outcome),
{
    match outcome {
        Ok(bytes) => Ok(bytes),
        Err(message) => Err(ConvertError::Docx(message)),
    }
}

/// Whether an outcome is one of text to DOCX for a text: a package that is
/// not empty and holds the text as a run keeps it, in one piece, or a DOCX
/// failure.
pub open spec fn packs(outcome: Result<Seq<u8>, Failure>, text: Seq<char>) -> bool {
    match outcome {
        Ok(bytes) => bytes.len() > 0 && holds(bytes, encode_utf8(kept(text))),
        Err(failure) => failure is Docx,
    }
}

/// Converts a text into the bytes of a DOCX package with the text as its
/// single paragraph. The only failure is that of the packing.
pub fn txt_to_docx(text: &str) -> (result: Result<Vec<u8>, ConvertError>)
    ensures
        packs(bytes_outcome(result), text@),
{
    let document = single_paragraph(text);
    let ghost paragraphs = docx_paragraphs(document);
    let parts = docx_build(document);
    let ghost part = document_part(parts);
    assert(holds(part, encode_utf8(kept(text@)))) by {
        assert(paragraphs[0][0][0] == kept(text@));
    }
    let outcome = docx_pack(parts);
    proof {
        if outcome is Ok {
            lemma_holds_within(outcome->Ok_0@, part, encode_utf8(kept(text@)));
        }
    }
    packed(outcome)
}

} // verus!
