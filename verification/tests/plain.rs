use proc_doc::error::ConvertError;
use proc_doc::plain::{duplicate_file, pdf_to_txt};

#[test]
fn copy_is_byte_for_byte() {
    let input: Vec<u8> = (0..=255).collect();
    assert_eq!(duplicate_file(&input), input);
    assert_eq!(duplicate_file(b""), Vec::<u8>::new());
}

#[test]
fn extracted_text_is_kept() {
    assert_eq!(pdf_to_txt(Some("page one\n".to_string())), "page one\n");
}

#[test]
fn failed_extraction_is_empty_text() {
    assert_eq!(pdf_to_txt(None), "");
}

#[test]
fn errors_have_their_message() {
    assert_eq!(ConvertError::Json("j".to_string()).message(), "j");
    assert_eq!(ConvertError::Xml("x".to_string()).message(), "x");
    assert_eq!(ConvertError::Csv("c".to_string()).message(), "c");
    assert_eq!(ConvertError::Docx("d".to_string()).message(), "d");
}
