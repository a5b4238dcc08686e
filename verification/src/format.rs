//! The document formats the tool knows, and their extension tags.

use vstd::prelude::*;
use crate::text::same_text;

verus! {

/// A document format, named by the lower-case extension of its files.
#[derive(Clone, Copy, Debug, PartialEq, Eq, Structural)]
pub enum Format {
    Txt,
    Pdf,
    Docx,
    Csv,
    Xlsx,
    Json,
    Xml,
    Html,
}

impl Format {
    /// The extension tag of a format.
    pub open spec fn tag(self) -> Seq<char> {
        match self {
            Format::Txt => "txt"@,
            Format::Pdf => "pdf"@,
            Format::Docx => "docx"@,
            Format::Csv => "csv"@,
            Format::Xlsx => "xlsx"@,
            Format::Json => "json"@,
            Format::Xml => "xml"@,
            Format::Html => "html"@,
        }
    }

    /// The format that a tag names, if it names one. Tags are matched as
    /// written: an upper-case tag names nothing.
    pub open spec fn parse(tag: Seq<char>) -> Option<Format> {
        if tag == "txt"@ {
            Some(Format::Txt)
        } else if tag == "pdf"@ {
            Some(Format::Pdf)
        } else if tag == "docx"@ {
            Some(Format::Docx)
        } else if tag == "csv"@ {
            Some(Format::Csv)
        } else if tag == "xlsx"@ {
            Some(Format::Xlsx)
        } else if tag == "json"@ {
            Some(Format::Json)
        } else if tag == "xml"@ {
            Some(Format::Xml)
        } else if tag == "html"@ {
            Some(Format::Html)
        } else {
            None
        }
    }

    /// Reads a tag.
    pub fn from_tag(tag: &str) -> (format: Option<Format>)
        ensures
            format == Format::parse(tag@),
    {
        if same_text(tag, "txt") {
            Some(Format::Txt)
        } else if same_text(tag, "pdf") {
            Some(Format::Pdf)
        } else if same_text(tag, "docx") {
            Some(Format::Docx)
        } else if same_text(tag, "csv") {
            Some(Format::Csv)
        } else if same_text(tag, "xlsx") {
            Some(Format::Xlsx)
        } else if same_text(tag, "json") {
            Some(Format::Json)
        } else if same_text(tag, "xml") {
            Some(Format::Xml)
        } else if same_text(tag, "html") {
            Some(Format::Html)
        } else {
            None
        }
    }

    /// Writes a tag.
    pub fn as_tag(self) -> (tag: &'static str)
        ensures
            tag@ == self.tag(),
    {
        match self {
            Format::Txt => "txt",
            Format::Pdf => "pdf",
            Format::Docx => "docx",
            Format::Csv => "csv",
            Format::Xlsx => "xlsx",
            Format::Json => "json",
            Format::Xml => "xml",
            Format::Html => "html",
        }
    }
}

/// Whether an extension belongs to the supported set.
pub open spec fn supported(extension: Seq<char>) -> bool {
    Format::parse(extension) is Some
}

/// Computes `supported`.
pub fn is_supported(extension: &str) -> (yes: bool)
    ensures
        yes == supported(extension@),
{
    Format::from_tag(extension).is_some()
}

/// Every format is named by its own tag and by no other: reading the tag
/// of a format gives that format back.
pub proof fn lemma_tag_names_format(format: Format)
    ensures
        Format::parse(format.tag()) == Some(format),
        supported(format.tag()),
{
    reveal_strlit("txt");
    reveal_strlit("pdf");
    reveal_strlit("docx");
    reveal_strlit("csv");
    reveal_strlit("xlsx");
    reveal_strlit("json");
    reveal_strlit("xml");
    reveal_strlit("html");
    assert("txt"@.len() == 3 && "txt"@[0] == 't');
    assert("pdf"@.len() == 3 && "pdf"@[0] == 'p');
    assert("csv"@.len() == 3 && "csv"@[0] == 'c');
    assert("xml"@.len() == 3 && "xml"@[0] == 'x');
    assert("docx"@.len() == 4 && "docx"@[0] == 'd');
    assert("xlsx"@.len() == 4 && "xlsx"@[0] == 'x');
    assert("json"@.len() == 4 && "json"@[0] == 'j');
    assert("html"@.len() == 4 && "html"@[0] == 'h');
}

/// The tags of the supported set have three or four letters, all of them
/// lower-case.
pub proof fn lemma_supported_tags(tag: Seq<char>)
    requires
        supported(tag),
    ensures
        3 <= tag.len() <= 4,
        forall|i: int| 0 <= i < tag.len() ==> 'a' <= #[trigger] tag[i] <= 'z',
{
    reveal_strlit("txt");
    reveal_strlit("pdf");
    reveal_strlit("docx");
    reveal_strlit("csv");
    reveal_strlit("xlsx");
    reveal_strlit("json");
    reveal_strlit("xml");
    reveal_strlit("html");
}

/// A tag that names a format is that format's tag.
pub proof fn lemma_parsed_tag(tag: Seq<char>)
    requires
        supported(tag),
    ensures
        Format::parse(tag)->0.tag() == tag,
{
}

} // verus!
