//! One entry to all converters: what a route reads, and what it makes of
//! what was read.

use vstd::prelude::*;
use crate::dispatch::{direct_info, inconvertible_formats, refusal, route, Route};
use crate::docx::{packs, txt_to_docx};
use crate::error::{ConvertError, Failure};
use crate::html::{csv_as_html, csv_data_rows, csv_header_row, csv_to_html};
use crate::markup::{json_as_xml, json_to_xml, xml_as_json, xml_to_json};
use crate::paginate::{layout, lemma_first_line, Layout, LayoutView};
use crate::pdf::txt_to_pdf;
use crate::plain::{duplicate_file, pdf_to_txt, text_or_empty};
use crate::request::{text_of, ConversionInfo, ConversionInfoView};
use crate::table_laws::lemma_table_not_empty;

verus! {

/// What a route reads of the input file.
#[derive(Clone, Copy, Debug, PartialEq, Eq, Structural)]
pub enum Source {
    /// Nothing: the route is refused.
    Nothing,
    /// The bytes of the file.
    Bytes,
    /// The file as text.
    Text,
    /// The text that is extracted from the file as a PDF.
    PdfText,
}

/// What was read of the input file.
#[derive(Clone, Debug)]
pub enum Input {
    Nothing,
    Bytes(Vec<u8>),
    Text(String),
    /// The text that was extracted, or none where the extraction failed.
    PdfText(Option<String>),
}

/// The model of an `Input`.
pub enum InputView {
    Nothing,
    Bytes(Seq<u8>),
    Text(Seq<char>),
    PdfText(Option<Seq<char>>),
}

impl View for Input {
    type V = InputView;

    open spec fn view(&self) -> InputView {
        match self {
            Input::Nothing => InputView::Nothing,
            Input::Bytes(bytes) => InputView::Bytes(bytes@),
            Input::Text(text) => InputView::Text(text@),
            Input::PdfText(extracted) => InputView::PdfText(text_of(*extracted)),
        }
    }
}

/// What a route makes of its input.
#[derive(Clone, Debug)]
pub enum Output {
    /// No file is written: the message says that the pair of formats has no
    /// converter.
    Refusal(String),
    /// The bytes of the output file.
    Bytes(Vec<u8>),
    /// The text of the output file.
    Text(String),
    /// The pages of the output file, to be printed as a PDF.
    Pages(Layout),
}

/// The model of an `Output`.
pub enum OutputView {
    Refusal(Seq<char>),
    Bytes(Seq<u8>),
    Text(Seq<char>),
    Pages(LayoutView),
}

impl View for Output {
    type V = OutputView;

    open spec fn view(&self) -> OutputView {
        match self {
            Output::Refusal(message) => OutputView::Refusal(message@),
            Output::Bytes(bytes) => OutputView::Bytes(bytes@),
            Output::Text(text) => OutputView::Text(text@),
            Output::Pages(pages) => OutputView::Pages(pages@),
        }
    }
}

/// What a route reads.
pub open spec fn source(route: Route) -> Source {
    match route {
        Route::Duplicate => Source::Bytes,
        Route::TxtToPdf => Source::Text,
        Route::PdfToTxt => Source::PdfText,
        Route::JsonToXml => Source::Text,
        Route::XmlToJson => Source::Text,
        Route::CsvToHtml => Source::Bytes,
        Route::TxtToDocx => Source::Text,
        Route::Unsupported => Source::Nothing,
    }
}

/// Computes `source`.
pub fn source_of(route: Route) -> (s: Source)
    ensures
        s == source(route),
{
    match route {
        Route::Duplicate => Source::Bytes,
        Route::TxtToPdf => Source::Text,
        Route::PdfToTxt => Source::PdfText,
        Route::JsonToXml => Source::Text,
        Route::XmlToJson => Source::Text,
        Route::CsvToHtml => Source::Bytes,
        Route::TxtToDocx => Source::Text,
        Route::Unsupported => Source::Nothing,
    }
}

/// Whether an input is of the kind that a route reads.
pub open spec fn fits(input: InputView, route: Route) -> bool {
    match input {
        InputView::Nothing => source(route) == Source::Nothing,
        InputView::Bytes(_) => source(route) == Source::Bytes,
        InputView::Text(_) => source(route) == Source::Text,
        InputView::PdfText(_) => source(route) == Source::PdfText,
    }
}

/// An outcome that is a text, as an output.
pub open spec fn as_text(outcome: Result<Seq<char>, Failure>) -> Result<OutputView, Failure> {
    match outcome {
        Ok(text) => Ok(OutputView::Text(text)),
        Err(failure) => Err(failure),
    }
}

/// The bytes of an outcome, where it is bytes or a failure.
pub open spec fn as_bytes(outcome: Result<OutputView, Failure>) -> Option<Result<Seq<u8>, Failure>> {
    match outcome {
        Ok(OutputView::Bytes(bytes)) => Some(Ok(bytes)),
        Ok(_) => None,
        Err(failure) => Some(Err(failure)),
    }
}

/// The outcome of a request for an input, where the request and the input
/// decide it; none for a DOCX package, whose bytes the packer decides.
///
/// A pair of formats without a converter is refused, whatever was read. On
/// every other route, an input of another kind than the route reads is a
/// failure.
pub open spec fn converted(info: ConversionInfoView, input: InputView) -> Option<
    Result<OutputView, Failure>,
> {
    match (route(info.input_extension, info.output_extension), input) {
        (Route::Unsupported, _) => Some(
            Ok(OutputView::Refusal(refusal(info.input_extension, info.output_extension))),
        ),
        (Route::Duplicate, InputView::Bytes(bytes)) => Some(Ok(OutputView::Bytes(bytes))),
        (Route::TxtToPdf, InputView::Text(text)) => Some(Ok(OutputView::Pages(layout(text)))),
        (Route::PdfToTxt, InputView::PdfText(extracted)) => Some(
            Ok(OutputView::Text(text_or_empty(extracted))),
        ),
        (Route::JsonToXml, InputView::Text(text)) => Some(as_text(json_as_xml(text))),
        (Route::XmlToJson, InputView::Text(text)) => Some(as_text(xml_as_json(text))),
        (Route::CsvToHtml, InputView::Bytes(bytes)) => Some(as_text(csv_as_html(bytes))),
        (Route::TxtToDocx, InputView::Text(_)) => None,
        _ => Some(Err(Failure::WrongInput)),
    }
}

/// Whether an output has something in it: a message, a byte, a character,
/// or a first line with a character on its first page.
pub open spec fn filled(output: OutputView) -> bool {
    match output {
        OutputView::Refusal(message) => message.len() > 0,
        OutputView::Bytes(bytes) => bytes.len() > 0,
        OutputView::Text(text) => text.len() > 0,
        OutputView::Pages(document) => document.pages.len() > 0 && document.pages[0].len() > 0
            && document.pages[0][0].text.len() > 0,
    }
}

/// Whether a route owes a filled output for an input, if it gives one: for
/// the copy, text to PDF and PDF to text, where the input has something in
/// it; for XML to JSON, CSV to HTML and text to DOCX, always. JSON to XML
/// owes none: the XML of `null` is empty.
pub open spec fn owes_filled(route: Route, input: InputView) -> bool {
    match (route, input) {
        (Route::Duplicate, InputView::Bytes(bytes)) => bytes.len() > 0,
        (Route::TxtToPdf, InputView::Text(text)) => text.len() > 0,
        (Route::PdfToTxt, InputView::PdfText(Some(text))) => text.len() > 0,
        (Route::XmlToJson, InputView::Text(_)) => true,
        (Route::CsvToHtml, InputView::Bytes(_)) => true,
        (Route::TxtToDocx, InputView::Text(_)) => true,
        _ => false,
    }
}

/// The model of the result of a conversion.
pub open spec fn outcome(result: Result<Output, ConvertError>) -> Result<OutputView, Failure> {
    match result {
        Ok(output) => Ok(output@),
        Err(error) => Err(error@),
    }
}

/// Serves a request: picks its route and hands what was read of the input
/// file to the converter of that route.
pub fn convert(info: &ConversionInfo, input: Input) -> (result: Result<Output, ConvertError>)
    ensures
        match converted(info@, input@) {
            Some(model) => outcome(result) == model,
            None => input@ matches InputView::Text(text) && as_bytes(outcome(result)) matches Some(
                package,
            ) && packs(package, text),
        },
        outcome(result) matches Ok(output) ==> owes_filled(
            route(info@.input_extension, info@.output_extension),
            input@,
        ) ==> filled(output),
{
    proof {
        if let InputView::Text(text) = input@ {
            if text.len() > 0 {
                lemma_first_line(text);
            }
        }
        if let InputView::Bytes(bytes) = input@ {
            if let Ok(cells) = csv_header_row(bytes) {
                if let Ok(records) = csv_data_rows(bytes) {
                    lemma_table_not_empty(cells, records);
                }
            }
        }
    }
    match (direct_info(info), input) {
        (Route::Unsupported, _) => Ok(Output::Refusal(inconvertible_formats(info))),
        (Route::Duplicate, Input::Bytes(bytes)) => Ok(Output::Bytes(duplicate_file(bytes.as_slice()))),
        (Route::TxtToPdf, Input::Text(text)) => Ok(Output::Pages(txt_to_pdf(text.as_str()))),
        (Route::PdfToTxt, Input::PdfText(extracted)) => Ok(Output::Text(pdf_to_txt(extracted))),
        (Route::JsonToXml, Input::Text(text)) => match json_to_xml(text.as_str()) {
            Ok(xml) => Ok(Output::Text(xml)),
            Err(error) => Err(error),
        },
        (Route::XmlToJson, Input::Text(text)) => match xml_to_json(text.as_str()) {
            Ok(json) => Ok(Output::Text(json)),
            Err(error) => Err(error),
        },
        (Route::CsvToHtml, Input::Bytes(bytes)) => match csv_to_html(bytes.as_slice()) {
            Ok(html) => Ok(Output::Text(html)),
            Err(error) => Err(error),
        },
        (Route::TxtToDocx, Input::Text(text)) => match txt_to_docx(text.as_str()) {
            Ok(package) => Ok(Output::Bytes(package)),
            Err(error) => Err(error),
        },
        _ => Err(ConvertError::WrongInput),
    }
}

/// A request with equal extensions gives the bytes that it was given, one
/// for one, whatever the extensions and the bytes are.
pub proof fn lemma_copy_is_identical(info: ConversionInfoView, bytes: Seq<u8>)
    requires
        info.input_extension == info.output_extension,
    ensures
        converted(info, InputView::Bytes(bytes)) == Some(
            Ok::<OutputView, Failure>(OutputView::Bytes(bytes)),
        ),
{
}

/// A request for a pair of different formats without a converter gives no
/// output to write, only the message that lists the possible conversions,
/// whatever was read.
pub proof fn lemma_unsupported_is_refused(info: ConversionInfoView, input: InputView)
    requires
        route(info.input_extension, info.output_extension) == Route::Unsupported,
    ensures
        converted(info, input) == Some(
            Ok::<OutputView, Failure>(
                OutputView::Refusal(refusal(info.input_extension, info.output_extension)),
            ),
        ),
{
}

/// A request fails for a wrong input exactly where it has a converter and
/// was handed an input of another kind than its route reads.
pub proof fn lemma_wrong_input(info: ConversionInfoView, input: InputView)
    ensures
        converted(info, input) == Some(Err::<OutputView, Failure>(Failure::WrongInput)) <==> {
            let r = route(info.input_extension, info.output_extension);
            r != Route::Unsupported && !fits(input, r)
        },
{
}

} // verus!
