use proc_doc::convert::{convert, source_of, Input, Output, Source};
use proc_doc::dispatch::Route;
use proc_doc::error::ConvertError;
use proc_doc::request::ConversionInfo;

fn request(input_extension: &str, output_extension: &str) -> ConversionInfo {
    ConversionInfo::new(
        "in".to_string(),
        input_extension.to_string(),
        "out".to_string(),
        output_extension.to_string(),
        "name".to_string(),
    )
}

fn text(result: Result<Output, ConvertError>) -> String {
    match result {
        Ok(Output::Text(text)) => text,
        other => panic!("unexpected: {:?}", other.err()),
    }
}

#[test]
fn routes_read_what_their_converter_takes() {
    assert_eq!(source_of(Route::Duplicate), Source::Bytes);
    assert_eq!(source_of(Route::TxtToPdf), Source::Text);
    assert_eq!(source_of(Route::PdfToTxt), Source::PdfText);
    assert_eq!(source_of(Route::JsonToXml), Source::Text);
    assert_eq!(source_of(Route::XmlToJson), Source::Text);
    assert_eq!(source_of(Route::CsvToHtml), Source::Bytes);
    assert_eq!(source_of(Route::TxtToDocx), Source::Text);
    assert_eq!(source_of(Route::Unsupported), Source::Nothing);
}

#[test]
fn identity_conversion_is_a_copy() {
    let bytes: Vec<u8> = vec![0, 159, 146, 150, 255, 10, 13];
    for tag in ["txt", "pdf", "docx", "csv", "xlsx", "json", "xml", "html"] {
        match convert(&request(tag, tag), Input::Bytes(bytes.clone())) {
            Ok(Output::Bytes(copy)) => assert_eq!(copy, bytes),
            other => panic!("unexpected: {:?}", other.err()),
        }
    }
}

#[test]
fn unsupported_pair_gives_only_the_message() {
    match convert(&request("pdf", "xlsx"), Input::Nothing) {
        Ok(Output::Refusal(message)) => assert_eq!(
            message,
            "Cannot convert pdf to xlsx\nSee possible conversions:\ntxt => pdf\ntxt => docx\n\
             pdf(text only) => txt\nxml <=> json\ncsv => html"
        ),
        other => panic!("unexpected: {:?}", other.err()),
    }
    match convert(&request("csv", "json"), Input::Bytes(vec![1])) {
        Ok(Output::Refusal(message)) => assert!(message.starts_with("Cannot convert csv to json\n")),
        other => panic!("unexpected: {:?}", other.err()),
    }
}

#[test]
fn each_route_calls_its_converter() {
    match convert(&request("txt", "pdf"), Input::Text("hello".to_string())) {
        Ok(Output::Pages(layout)) => assert_eq!(layout.pages[0].lines[0].text, "hello"),
        other => panic!("unexpected: {:?}", other.err()),
    }
    let extracted = Input::PdfText(Some("page".to_string()));
    assert_eq!(text(convert(&request("pdf", "txt"), extracted)), "page");
    assert_eq!(text(convert(&request("pdf", "txt"), Input::PdfText(None))), "");
    assert_eq!(
        text(convert(&request("json", "xml"), Input::Text("{\"a\":\"b\"}".to_string()))),
        "<?xml version=\"1.0\" encoding=\"UTF-8\"?><a>b</a>"
    );
    assert_eq!(
        text(convert(&request("xml", "json"), Input::Text("<a>b</a>".to_string()))),
        "{\"a\":\"b\"}"
    );
    assert_eq!(
        text(convert(&request("csv", "html"), Input::Bytes(b"a\n1\n".to_vec()))),
        "<!DOCTYPE html><html><body><table><tr><th>a</th></tr><tr><td>1</td></tr>\
         </table></body></html>"
    );
    match convert(&request("txt", "docx"), Input::Text("hello".to_string())) {
        Ok(Output::Bytes(package)) => assert_eq!(&package[..2], b"PK"),
        other => panic!("unexpected: {:?}", other.err()),
    }
}

#[test]
fn failure_of_a_converter_is_handed_on() {
    match convert(&request("json", "xml"), Input::Text("{".to_string())) {
        Err(ConvertError::Json(message)) => assert!(!message.is_empty()),
        other => panic!("unexpected: {:?}", other.err()),
    }
    match convert(&request("xml", "json"), Input::Text("<a><b></a>".to_string())) {
        Err(ConvertError::Xml(message)) => assert!(!message.is_empty()),
        other => panic!("unexpected: {:?}", other.err()),
    }
    match convert(&request("csv", "html"), Input::Bytes(b"a,b\n1\n".to_vec())) {
        Err(ConvertError::Csv(message)) => assert!(!message.is_empty()),
        other => panic!("unexpected: {:?}", other.err()),
    }
}

#[test]
fn outputs_of_small_inputs_are_not_empty() {
    match convert(&request("txt", "pdf"), Input::Text("x".to_string())) {
        Ok(Output::Pages(layout)) => assert_eq!(layout.pages[0].lines[0].text, "x"),
        other => panic!("unexpected: {:?}", other.err()),
    }
    assert!(!text(convert(&request("xml", "json"), Input::Text("<a/>".to_string()))).is_empty());
    assert!(!text(convert(&request("csv", "html"), Input::Bytes(Vec::new()))).is_empty());
    match convert(&request("txt", "docx"), Input::Text(String::new())) {
        Ok(Output::Bytes(package)) => assert!(!package.is_empty()),
        other => panic!("unexpected: {:?}", other.err()),
    }
    assert!(text(convert(&request("json", "xml"), Input::Text("null".to_string()))).is_empty());
}

#[test]
fn input_of_another_kind_is_a_failure() {
    match convert(&request("txt", "pdf"), Input::Bytes(vec![1])) {
        Err(ConvertError::WrongInput) => {}
        other => panic!("unexpected: {:?}", other.err()),
    }
    match convert(&request("txt", "txt"), Input::Text("x".to_string())) {
        Err(ConvertError::WrongInput) => {}
        other => panic!("unexpected: {:?}", other.err()),
    }
    match convert(&request("csv", "html"), Input::Nothing) {
        Err(ConvertError::WrongInput) => {}
        other => panic!("unexpected: {:?}", other.err()),
    }
    assert_eq!(ConvertError::WrongInput.message(), "Wrong kind of input");
}
