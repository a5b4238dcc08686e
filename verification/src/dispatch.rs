//! From a resolved request to the converter that serves it.

use vstd::prelude::*;
use crate::format::{lemma_supported_tags, Format};
use crate::request::{
    resolved, ConversionInfo, ConversionInfoView, InstructionView, SurroundingsView,
};
use crate::text::same_text;

verus! {

/// What is done with a request.
#[derive(Clone, Copy, Debug, PartialEq, Eq, Structural)]
pub enum Route {
    /// The extensions are equal: the input is copied byte for byte.
    Duplicate,
    TxtToPdf,
    PdfToTxt,
    JsonToXml,
    XmlToJson,
    CsvToHtml,
    TxtToDocx,
    /// No converter is registered for the pair.
    Unsupported,
}

/// The table of registered conversions between two different formats.
pub open spec fn conversion(input: Format, output: Format) -> Route {
    match (input, output) {
        (Format::Txt, Format::Pdf) => Route::TxtToPdf,
        (Format::Pdf, Format::Txt) => Route::PdfToTxt,
        (Format::Json, Format::Xml) => Route::JsonToXml,
        (Format::Xml, Format::Json) => Route::XmlToJson,
        (Format::Csv, Format::Html) => Route::CsvToHtml,
        (Format::Txt, Format::Docx) => Route::TxtToDocx,
        _ => Route::Unsupported,
    }
}

/// The route of a pair of extensions: a copy where they are equal, else the
/// registered conversion between the formats they name, if both name one.
pub open spec fn route(input_extension: Seq<char>, output_extension: Seq<char>) -> Route {
    if input_extension == output_extension {
        Route::Duplicate
    } else {
        match (Format::parse(input_extension), Format::parse(output_extension)) {
            (Some(input), Some(output)) => conversion(input, output),
            _ => Route::Unsupported,
        }
    }
}

/// Looks a pair of different formats up in the table.
pub fn convert_between(input: Format, output: Format) -> (r: Route)
    ensures
        r == conversion(input, output),
{
    match (input, output) {
        (Format::Txt, Format::Pdf) => Route::TxtToPdf,
        (Format::Pdf, Format::Txt) => Route::PdfToTxt,
        (Format::Json, Format::Xml) => Route::JsonToXml,
        (Format::Xml, Format::Json) => Route::XmlToJson,
        (Format::Csv, Format::Html) => Route::CsvToHtml,
        (Format::Txt, Format::Docx) => Route::TxtToDocx,
        _ => Route::Unsupported,
    }
}

/// Picks the one route of a request.
pub fn direct_info(info: &ConversionInfo) -> (r: Route)
    ensures
        r == route(info@.input_extension, info@.output_extension),
{
    if same_text(info.input_extension.as_str(), info.output_extension.as_str()) {
        return Route::Duplicate;
    }
    match (
        Format::from_tag(info.input_extension.as_str()),
        Format::from_tag(info.output_extension.as_str()),
    ) {
        (Some(input), Some(output)) => convert_between(input, output),
        _ => Route::Unsupported,
    }
}

/// The list of possible conversions, as it is shown to the user.
pub open spec fn possible_conversions() -> Seq<char> {
    "\nSee possible conversions:\ntxt => pdf\ntxt => docx\npdf(text only) => txt\nxml <=> json\ncsv => html"@
}

/// The message for a pair without a converter.
pub open spec fn refusal(input_extension: Seq<char>, output_extension: Seq<char>) -> Seq<char> {
    "Cannot convert "@ + input_extension + " to "@ + output_extension + possible_conversions()
}

/// The message for a request whose pair has no converter: the pair, then
/// the list of possible conversions.
pub fn inconvertible_formats(info: &ConversionInfo) -> (message: String)
    ensures
        message@ == refusal(info@.input_extension, info@.output_extension),
{
    let mut message: String = "Cannot convert ".to_owned();
    message.append(info.input_extension.as_str());
    message.append(" to ");
    message.append(info.output_extension.as_str());
    message.append(
        "\nSee possible conversions:\ntxt => pdf\ntxt => docx\npdf(text only) => txt\nxml <=> json\ncsv => html",
    );
    message
}

/// Where the result of a request is written.
pub open spec fn output_location(info: ConversionInfoView) -> Seq<char> {
    info.output_path + "/"@ + info.name_file + "."@ + info.output_extension
}

/// The path of the output file: the directory, the name and the extension.
pub fn output_file_path(info: &ConversionInfo) -> (path: String)
    ensures
        path@ == output_location(info@),
{
    let mut path: String = info.output_path.clone();
    path.append("/");
    path.append(info.name_file.as_str());
    path.append(".");
    path.append(info.output_extension.as_str());
    path
}

/// Equal extensions are served by a copy and by nothing else, whatever the
/// extensions are.
pub proof fn lemma_copy_iff_equal(input_extension: Seq<char>, output_extension: Seq<char>)
    ensures
        route(input_extension, output_extension) == Route::Duplicate <==> input_extension
            == output_extension,
{
}

/// An instruction without an extension is served by a copy: the request
/// that it resolves to has the extension of the input twice, and a name
/// that was left out ends in `-copied`.
pub proof fn lemma_default_is_copy(
    instruction: InstructionView,
    surroundings: SurroundingsView,
    extension: Option<Seq<char>>,
    stem: Option<Seq<char>>,
)
    requires
        instruction.extension.len() == 0,
        resolved(instruction, surroundings, extension, stem) is Ok,
    ensures
        ({
            let info = resolved(instruction, surroundings, extension, stem)->Ok_0;
            &&& extension == Some(info.input_extension)
            &&& info.output_extension == info.input_extension
            &&& route(info.input_extension, info.output_extension) == Route::Duplicate
            &&& instruction.name_file.len() == 0 && stem is Some ==> info.name_file == stem->0
                + "-copied"@
        }),
{
    if extension is None {
        lemma_supported_tags(instruction.extension);
    }
}

/// A request that was resolved is served by a copy or by the conversion
/// between the two formats that its extensions name.
pub proof fn lemma_route_of_resolved(info: ConversionInfoView)
    requires
        info.wf(),
    ensures
        route(info.input_extension, info.output_extension) == if info.input_extension
            == info.output_extension {
            Route::Duplicate
        } else {
            conversion(
                Format::parse(info.input_extension)->0,
                Format::parse(info.output_extension)->0,
            )
        },
{
}

/// Spreadsheets have no converter: a request between `xlsx` and another
/// format is unsupported.
pub proof fn lemma_xlsx_has_no_converter(other: Format)
    ensures
        conversion(Format::Xlsx, other) == Route::Unsupported,
        conversion(other, Format::Xlsx) == Route::Unsupported,
{
}

} // verus!
