use proc_doc::dispatch::{direct_info, inconvertible_formats, output_file_path, Route};
use proc_doc::format::{is_supported, Format};
use proc_doc::request::ConversionInfo;

fn request(input_extension: &str, output_extension: &str) -> ConversionInfo {
    ConversionInfo::new(
        "in".to_string(),
        input_extension.to_string(),
        "out".to_string(),
        output_extension.to_string(),
        "name".to_string(),
    )
}

#[test]
fn registered_pairs_have_their_route() {
    assert_eq!(direct_info(&request("txt", "pdf")), Route::TxtToPdf);
    assert_eq!(direct_info(&request("pdf", "txt")), Route::PdfToTxt);
    assert_eq!(direct_info(&request("json", "xml")), Route::JsonToXml);
    assert_eq!(direct_info(&request("xml", "json")), Route::XmlToJson);
    assert_eq!(direct_info(&request("csv", "html")), Route::CsvToHtml);
    assert_eq!(direct_info(&request("txt", "docx")), Route::TxtToDocx);
}

#[test]
fn equal_extensions_are_a_copy() {
    for tag in ["txt", "pdf", "docx", "csv", "xlsx", "json", "xml", "html"] {
        assert_eq!(direct_info(&request(tag, tag)), Route::Duplicate);
    }
    assert_eq!(direct_info(&request("odt", "odt")), Route::Duplicate);
    assert_eq!(direct_info(&request("", "")), Route::Duplicate);
}

#[test]
fn pdf_to_xlsx_is_unsupported() {
    let info = request("pdf", "xlsx");
    assert_eq!(direct_info(&info), Route::Unsupported);
    assert_eq!(
        inconvertible_formats(&info),
        "Cannot convert pdf to xlsx\nSee possible conversions:\ntxt => pdf\ntxt => docx\n\
         pdf(text only) => txt\nxml <=> json\ncsv => html"
    );
}

#[test]
fn unregistered_pairs_are_unsupported() {
    assert_eq!(direct_info(&request("csv", "json")), Route::Unsupported);
    assert_eq!(direct_info(&request("docx", "txt")), Route::Unsupported);
    assert_eq!(direct_info(&request("html", "csv")), Route::Unsupported);
    assert_eq!(direct_info(&request("xlsx", "csv")), Route::Unsupported);
    assert_eq!(direct_info(&request("txt", "xlsx")), Route::Unsupported);
    assert_eq!(direct_info(&request("txt", "odt")), Route::Unsupported);
    assert_eq!(direct_info(&request("TXT", "pdf")), Route::Unsupported);
}

#[test]
fn output_path_is_directory_name_and_extension() {
    let info = ConversionInfo::new(
        "/tmp/a.txt".to_string(),
        "txt".to_string(),
        "/home/u/Downloads".to_string(),
        "pdf".to_string(),
        "a-converted".to_string(),
    );
    assert_eq!(output_file_path(&info), "/home/u/Downloads/a-converted.pdf");
}

#[test]
fn tags_name_formats() {
    let all = [
        (Format::Txt, "txt"),
        (Format::Pdf, "pdf"),
        (Format::Docx, "docx"),
        (Format::Csv, "csv"),
        (Format::Xlsx, "xlsx"),
        (Format::Json, "json"),
        (Format::Xml, "xml"),
        (Format::Html, "html"),
    ];
    for (format, tag) in all {
        assert_eq!(format.as_tag(), tag);
        assert_eq!(Format::from_tag(tag), Some(format));
        assert!(is_supported(tag));
    }
    assert_eq!(Format::from_tag("Txt"), None);
    assert_eq!(Format::from_tag(""), None);
    assert!(!is_supported("md"));
}
