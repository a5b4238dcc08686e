use proc_doc::error::ConvertError;
use proc_doc::markup::{json_to_xml, xml_step, xml_to_json, EmptyElement, XmlReading};

#[test]
fn standard_reading_is_fixed() {
    let reading = XmlReading::standard();
    assert!(reading.leading_zero_as_string);
    assert_eq!(reading.attribute_prefix, "");
    assert_eq!(reading.text_property, "txt");
    assert_eq!(reading.empty_element, EmptyElement::Null);
}

#[test]
fn xml_becomes_json() {
    let json = xml_to_json("<a><b c=\"1\">x</b><d/></a>").unwrap();
    assert_eq!(json, "{\"a\":{\"b\":{\"c\":1,\"txt\":\"x\"},\"d\":null}}");
}

#[test]
fn leading_zero_stays_a_string() {
    let json = xml_to_json("<a><n>007</n><m>7</m></a>").unwrap();
    assert_eq!(json, "{\"a\":{\"m\":7,\"n\":\"007\"}}");
}

#[test]
fn repeated_elements_become_an_array() {
    let json = xml_to_json("<a><b>1</b><b>2</b></a>").unwrap();
    assert_eq!(json, "{\"a\":{\"b\":[1,2]}}");
}

#[test]
fn malformed_xml_is_an_error() {
    match xml_to_json("<a><b></a>") {
        Err(ConvertError::Xml(message)) => assert!(!message.is_empty()),
        other => panic!("unexpected: {:?}", other),
    }
    match xml_to_json("") {
        Err(ConvertError::Xml(message)) => assert!(!message.is_empty()),
        other => panic!("unexpected: {:?}", other),
    }
}

#[test]
fn json_becomes_xml() {
    let xml = json_to_xml("{\"a\":{\"b\":\"x\",\"c\":1}}").unwrap();
    assert_eq!(xml, "<?xml version=\"1.0\" encoding=\"UTF-8\"?><a><b>x</b><c>1</c></a>");
}

#[test]
fn malformed_json_is_an_error() {
    match json_to_xml("{\"a\":") {
        Err(ConvertError::Json(message)) => assert!(!message.is_empty()),
        other => panic!("unexpected: {:?}", other),
    }
}

#[test]
fn xml_step_keeps_text_and_wraps_message() {
    assert_eq!(xml_step(Ok("<a/>".to_string())).unwrap(), "<a/>");
    match xml_step(Err("broken".to_string())) {
        Err(ConvertError::Xml(message)) => assert_eq!(message, "broken"),
        other => panic!("unexpected: {:?}", other),
    }
}

#[test]
fn xml_to_json_to_xml_keeps_the_tree() {
    let xml = "<root><item id=\"1\"><name>n</name><tags><tag>a</tag><tag>b</tag></tags></item></root>";
    let json = xml_to_json(xml).unwrap();
    assert_eq!(
        json,
        "{\"root\":{\"item\":{\"id\":1,\"name\":\"n\",\"tags\":{\"tag\":[\"a\",\"b\"]}}}}"
    );
    let back = json_to_xml(&json).unwrap();
    let again = xml_to_json(&back).unwrap();
    assert_eq!(again, json);
}
