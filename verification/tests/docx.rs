use docx_rs::{DocumentChild, ParagraphChild, RunChild};
use proc_doc::docx::{packed, single_paragraph, txt_to_docx};
use proc_doc::error::ConvertError;

fn texts(document: &docx_rs::Docx) -> Vec<Vec<Vec<String>>> {
    let mut paragraphs = Vec::new();
    for child in &document.document.children {
        if let DocumentChild::Paragraph(paragraph) = child {
            let mut runs = Vec::new();
            for child in &paragraph.children {
                if let ParagraphChild::Run(run) = child {
                    let mut held = Vec::new();
                    for child in &run.children {
                        if let RunChild::Text(text) = child {
                            held.push(text.text.clone());
                        }
                    }
                    runs.push(held);
                }
            }
            paragraphs.push(runs);
        }
    }
    paragraphs
}

#[test]
fn text_is_one_run_of_one_paragraph() {
    let document = single_paragraph("hello world");
    assert_eq!(document.document.children.len(), 1);
    assert_eq!(texts(&document), vec![vec![vec!["hello world".to_string()]]]);
}

#[test]
fn line_feeds_are_left_out() {
    let document = single_paragraph("one\ntwo\n");
    assert_eq!(texts(&document), vec![vec![vec!["onetwo".to_string()]]]);
}

#[test]
fn carriage_returns_are_left_out() {
    let document = single_paragraph("one\r\ntwo\rthree");
    assert_eq!(texts(&document), vec![vec![vec!["onetwothree".to_string()]]]);
}

#[test]
fn markup_in_the_text_is_kept_escaped() {
    let document = single_paragraph("a<b>&\"c\"");
    assert_eq!(texts(&document), vec![vec![vec!["a&lt;b&gt;&amp;&quot;c&quot;".to_string()]]]);
}

#[test]
fn empty_text_is_still_one_paragraph() {
    let document = single_paragraph("");
    assert_eq!(texts(&document), vec![vec![vec![String::new()]]]);
}

#[test]
fn package_is_a_zip_archive() {
    let bytes = txt_to_docx("hello world").unwrap();
    assert!(bytes.len() > 4);
    assert_eq!(&bytes[..2], b"PK");
}

#[test]
fn packed_keeps_bytes_and_wraps_message() {
    assert_eq!(packed(Ok(vec![1, 2, 3])).unwrap(), vec![1, 2, 3]);
    match packed(Err("full".to_string())) {
        Err(ConvertError::Docx(message)) => assert_eq!(message, "full"),
        other => panic!("unexpected: {:?}", other),
    }
}
