//! One document for each failure kind of the map and tileset parsers.

use tiled::{parse_map, parse_tileset, TiledError};

fn parse(doc: &str) -> Result<tiled::TileMap, TiledError> {
    let externals: Vec<(String, Vec<u8>)> = Vec::new();
    parse_map(doc.as_bytes(), &externals)
}

const MAP_OPEN: &str = "<?xml version=\"1.0\"?>\n<map orientation=\"orthogonal\" width=\"1\" height=\"1\" tilewidth=\"16\" tileheight=\"16\">";

#[test]
fn test_malformed_xml() {
    let r = parse("<map orientation=");
    assert!(matches!(r, Err(TiledError::MalformedXml(_))));
}

#[test]
fn test_no_map_root_is_premature_end() {
    let r = parse("<?xml version=\"1.0\"?>\n<other></other>");
    assert!(matches!(r, Err(TiledError::PrematureEnd(_))));
}

#[test]
fn test_missing_map_attributes() {
    let r = parse("<?xml version=\"1.0\"?>\n<map orientation=\"orthogonal\"></map>");
    assert!(matches!(r, Err(TiledError::MalformedAttributes(_))));
}

#[test]
fn test_bad_orientation() {
    let r = parse(
        "<?xml version=\"1.0\"?>\n<map orientation=\"diagonal\" width=\"1\" height=\"1\" tilewidth=\"16\" tileheight=\"16\"></map>",
    );
    assert!(matches!(r, Err(TiledError::MalformedAttributes(_))));
}

#[test]
fn test_missing_tilewidth_internal_tileset() {
    let doc = format!(
        "{}\n <tileset firstgid=\"1\" name=\"t\" tileheight=\"16\"></tileset>\n</map>",
        MAP_OPEN
    );
    let r = parse(&doc);
    assert!(matches!(r, Err(TiledError::MalformedAttributes(_))));
}

#[test]
fn test_missing_tilewidth_external_tileset() {
    let tsx = "<?xml version=\"1.0\"?>\n<tileset name=\"t\" tileheight=\"16\"></tileset>";
    let r = parse_tileset(tsx.as_bytes(), 1);
    assert!(matches!(r, Err(TiledError::MalformedAttributes(_))));
}

#[test]
fn test_unresolved_external_reference() {
    let doc = format!(
        "{}\n <tileset firstgid=\"1\" source=\"missing.tsx\"/>\n</map>",
        MAP_OPEN
    );
    let r = parse(&doc);
    assert!(matches!(r, Err(TiledError::UnresolvedExternalReference(_))));
}

#[test]
fn test_tilesets_out_of_order() {
    let doc = format!(
        "{}\n <tileset firstgid=\"5\" name=\"a\" tilewidth=\"16\" tileheight=\"16\"></tileset>\n <tileset firstgid=\"1\" name=\"b\" tilewidth=\"16\" tileheight=\"16\"></tileset>\n</map>",
        MAP_OPEN
    );
    let r = parse(&doc);
    assert!(matches!(r, Err(TiledError::MalformedAttributes(_))));
}

#[test]
fn test_layer_without_data() {
    let doc = format!("{}\n <layer name=\"l\"></layer>\n</map>", MAP_OPEN);
    let r = parse(&doc);
    assert!(matches!(r, Err(TiledError::MalformedAttributes(_))));
}

#[test]
fn test_empty_document_is_premature_end_for_tileset() {
    let r = parse_tileset("<?xml version=\"1.0\"?>\n<x/>".as_bytes(), 1);
    assert!(matches!(r, Err(TiledError::PrematureEnd(_))));
}
