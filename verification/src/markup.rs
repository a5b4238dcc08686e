//! JSON to XML and XML to JSON, through a generic tree of values.

use quickxml_to_serde::{xml_string_to_json, Config, NullValue};
use vstd::prelude::*;
use crate::error::{text_outcome, ConvertError, Failure};

verus! {

/// What becomes of an XML element without content.
#[derive(Clone, Copy, Debug, PartialEq, Eq, Structural)]
pub enum EmptyElement {
    /// It is left out.
    Ignore,
    /// It becomes `null`.
    Null,
    /// It becomes `{}`.
    EmptyObject,
    /// It becomes `""`.
    EmptyString,
}

/// How XML is read into a tree of values.
#[derive(Clone, Debug)]
pub struct XmlReading {
    /// A number with a leading zero is kept as a string.
    pub leading_zero_as_string: bool,
    /// What stands before the name of an attribute among the properties of
    /// its element.
    pub attribute_prefix: String,
    /// The name of the property that holds the text of an element with
    /// attributes or children.
    pub text_property: String,
    pub empty_element: EmptyElement,
}

impl XmlReading {
    /// The way this tool reads XML: numbers with a leading zero stay
    /// strings, attributes stand among the children under their own names,
    /// text stands under `txt`, an empty element is `null`.
    pub fn standard() -> (reading: XmlReading)
        ensures
            reading.leading_zero_as_string,
            reading.attribute_prefix@ == ""@,
            reading.text_property@ == "txt"@,
            reading.empty_element == EmptyElement::Null,
    {
        XmlReading {
            leading_zero_as_string: true,
            attribute_prefix: "".to_owned(),
            text_property: "txt".to_owned(),
            empty_element: EmptyElement::Null,
        }
    }
}

/// A tree of JSON values.
#[verifier::external_type_specification]
#[verifier::external_body]
pub struct ExJsonValue(serde_json::Value);

/// What a tree of values holds: its compact JSON text, as its `Display`
/// writes it.
pub uninterp spec fn json_content(value: serde_json::Value) -> Seq<char>;

/// The compact JSON text of the tree that `serde_json::from_str` reads from
/// a text, or the message of the error that it gives.
pub uninterp spec fn json_parsed(text: Seq<char>) -> Result<Seq<char>, Seq<char>>;

/// The XML that `serde_xml_rs::to_string` writes for the tree with the given
/// compact JSON text, or the message of the error that it gives.
pub uninterp spec fn xml_written(json: Seq<char>) -> Result<Seq<char>, Seq<char>>;

/// The compact JSON text of the tree that
/// `quickxml_to_serde::xml_string_to_json` reads from an XML text in the
/// given way, or the message of the error that it gives.
pub uninterp spec fn json_read(
    xml: Seq<char>,
    leading_zero_as_string: bool,
    attribute_prefix: Seq<char>,
    text_property: Seq<char>,
    empty_element: EmptyElement,
) -> Result<Seq<char>, Seq<char>>;

/// The model of a text that was written, or of the message of an error.
pub open spec fn written(outcome: Result<String, String>) -> Result<Seq<char>, Seq<char>> {
    match outcome {
        Ok(text) => Ok(text@),
        Err(message) => Err(message@),
    }
}

/// Calls `serde_json::from_str` for a tree of values and hands out the
/// tree, or the message of the error. The contract names the outcome
/// `json_parsed`, through the content of the tree.
#[verifier::external_body]
fn json_parse(text: &str) -> (tree: Result<serde_json::Value, String>)
    ensures
        match tree {
            Ok(value) => json_parsed(text@) == Ok::<Seq<char>, Seq<char>>(json_content(value)),
            Err(message) => json_parsed(text@) == Err::<Seq<char>, Seq<char>>(message@),
        },
{
    serde_json::from_str::<serde_json::Value>(text).map_err(|error| error.to_string())
}

/// Calls `serde_xml_rs::to_string` on a tree of values and hands out the
/// XML, or the message of the error. The contract names the outcome
/// `xml_written`, a function of the content of the tree.
#[verifier::external_body]
fn xml_from_json(value: &serde_json::Value) -> (xml: Result<String, String>)
    ensures
        written(xml) == xml_written(json_content(*value)),
{
    serde_xml_rs::to_string(value).map_err(|error| error.to_string())
}

/// Calls `quickxml_to_serde::xml_string_to_json` with a configuration made
/// of the four fields of `reading` by `Config::new_with_custom_values`, and
/// hands out the tree as its compact JSON text, or the message of the
/// error. The contract names the outcome `json_read`. The tree that is read
/// is an object with the root element as its one property, so its text is
/// not empty.
#[verifier::external_body]
fn json_from_xml(xml: &str, reading: &XmlReading) -> (json: Result<String, String>)
    ensures
        written(json) == json_read(
            xml@,
            reading.leading_zero_as_string,
            reading.attribute_prefix@,
            reading.text_property@,
            reading.empty_element,
        ),
        json matches Ok(text) ==> text@.len() > 0,
{
    let empty = match reading.empty_element {
        EmptyElement::Ignore => NullValue::Ignore,
        EmptyElement::Null => NullValue::Null,
        EmptyElement::EmptyObject => NullValue::EmptyObject,
        EmptyElement::EmptyString => NullValue::EmptyString,
    };
    let (prefix, property) = (&reading.attribute_prefix, &reading.text_property);
    let config = Config::new_with_custom_values(reading.leading_zero_as_string, prefix, property, empty);
    match xml_string_to_json(xml.to_owned(), &config) {
        Ok(value) => Ok(value.to_string()),
        Err(error) => Err(error.to_string()),
    }
}

/// The outcome of a conversion whose last step read or wrote XML: the
/// text, or the failure of that step as an XML error.
pub open spec fn xml_or_error(outcome: Result<Seq<char>, Seq<char>>) -> Result<Seq<char>, Failure> {
    match outcome {
        Ok(text) => Ok(text),
        Err(message) => Err(Failure::Xml(message)),
    }
}

/// The result of a conversion whose last step read or wrote XML, given
/// what that step gave.
pub fn xml_step(outcome: Result<String, String>) -> (result: Result<String, ConvertError>)
    ensures
        text_outcome(result) == xml_or_error(written(outcome)),
{
    match outcome {
        Ok(text) => Ok(text),
        Err(message) => Err(ConvertError::Xml(message)),
    }
}

/// The outcome of JSON to XML for a text: a JSON error where the text is
/// not JSON, else the XML of its tree or an XML error.
pub open spec fn json_as_xml(text: Seq<char>) -> Result<Seq<char>, Failure> {
    match json_parsed(text) {
        Ok(json) => xml_or_error(xml_written(json)),
        Err(message) => Err(Failure::Json(message)),
    }
}

/// The outcome of XML to JSON for a text: the compact JSON of its tree,
/// read in the standard way, or an XML error.
pub open spec fn xml_as_json(xml: Seq<char>) -> Result<Seq<char>, Failure> {
    xml_or_error(json_read(xml, true, ""@, "txt"@, EmptyElement::Null))
}

/// Converts a JSON text into XML: reads it into a tree of values and writes
/// the tree as XML.
pub fn json_to_xml(text: &str) -> (result: Result<String, ConvertError>)
    ensures
        text_outcome(result) == json_as_xml(text@),
{
    match json_parse(text) {
        Ok(value) => xml_step(xml_from_json(&value)),
        Err(message) => Err(ConvertError::Json(message)),
    }
}

/// Converts an XML text into JSON: reads it into a tree of values, in the
/// standard way, and writes the tree as compact JSON.
pub fn xml_to_json(xml: &str) -> (result: Result<String, ConvertError>)
    ensures
        text_outcome(result) == xml_as_json(xml@),
        result matches Ok(json) ==> json@.len() > 0,
{
    let reading = XmlReading::standard();
    xml_step(json_from_xml(xml, &reading))
}

} // verus!
