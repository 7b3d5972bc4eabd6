//! Typed custom properties on concrete documents: each type, the string
//! default, the duplicate-name rule, and coercion failures.

use tiled::{parse_map, Colour, PropertyValue, TiledError};

fn parse(doc: &str) -> Result<tiled::TileMap, TiledError> {
    let externals: Vec<(String, Vec<u8>)> = Vec::new();
    parse_map(doc.as_bytes(), &externals)
}

fn map_with_properties(block: &str) -> String {
    format!(
        "<?xml version=\"1.0\"?>\n<map orientation=\"orthogonal\" width=\"1\" height=\"1\" tilewidth=\"16\" tileheight=\"16\">\n <properties>\n{}\n </properties>\n</map>",
        block
    )
}

#[test]
fn test_duplicate_property_keeps_last() {
    let doc = map_with_properties(
        "  <property name=\"k\" value=\"first\"/>\n  <property name=\"k\" value=\"second\"/>",
    );
    let m = parse(&doc).unwrap();
    assert_eq!(
        m.properties.get("k"),
        Some(&PropertyValue::StringValue("second".to_string()))
    );
}

#[test]
fn test_property_types() {
    let doc = map_with_properties(
        r##"  <property name="s" value="hello"/>
  <property name="i" type="int" value="-42"/>
  <property name="b" type="bool" value="true"/>
  <property name="f" type="float" value="-1.25"/>
  <property name="c" type="color" value="#10ff20"/>
  <property name="p" type="file" value="a/b.png"/>"##,
    );
    let m = parse(&doc).unwrap();
    assert_eq!(m.properties.get("s"), Some(&PropertyValue::StringValue("hello".to_string())));
    assert_eq!(m.properties.get("i"), Some(&PropertyValue::IntValue(-42)));
    assert_eq!(m.properties.get("b"), Some(&PropertyValue::BoolValue(true)));
    assert_eq!(m.properties.get("f"), Some(&PropertyValue::FloatValue("-1.25".to_string())));
    assert_eq!(
        m.properties.get("c"),
        Some(&PropertyValue::ColourValue(Colour { red: 0x10, green: 0xff, blue: 0x20 }))
    );
    assert_eq!(m.properties.get("p"), Some(&PropertyValue::FileValue("a/b.png".to_string())));
    assert_eq!(m.properties.get("missing"), None);
}

#[test]
fn test_property_value_from_element_text() {
    let doc = map_with_properties("  <property name=\"k\">line one</property>");
    let m = parse(&doc).unwrap();
    assert_eq!(
        m.properties.get("k"),
        Some(&PropertyValue::StringValue("line one".to_string()))
    );
}

#[test]
fn test_unknown_property_type_fails() {
    let doc = map_with_properties("  <property name=\"k\" type=\"vector\" value=\"1\"/>");
    assert!(matches!(parse(&doc), Err(TiledError::MalformedAttributes(_))));
}

#[test]
fn test_uncoercible_int_property_fails() {
    let doc = map_with_properties("  <property name=\"k\" type=\"int\" value=\"abc\"/>");
    assert!(matches!(parse(&doc), Err(TiledError::MalformedAttributes(_))));
}

#[test]
fn test_property_without_name_fails() {
    let doc = map_with_properties("  <property value=\"1\"/>");
    assert!(matches!(parse(&doc), Err(TiledError::MalformedAttributes(_))));
}

#[test]
fn test_colour_from_str() {
    assert_eq!(
        Colour::from_str("#336699"),
        Ok(Colour { red: 0x33, green: 0x66, blue: 0x99 })
    );
    assert_eq!(
        Colour::from_str("AABBCC"),
        Ok(Colour { red: 0xaa, green: 0xbb, blue: 0xcc })
    );
    assert!(Colour::from_str("#12345").is_err());
    assert!(Colour::from_str("#12345g").is_err());
}
