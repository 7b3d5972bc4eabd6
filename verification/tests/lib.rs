//! End-to-end behaviour: the four payload encodings agree, external and
//! inline tilesets agree, and tile properties survive decoding.

use std::io::Write;

use tiled::{parse_map, parse_tileset, PropertyValue, TileMap, TiledError};

fn le_bytes(gids: &[u32]) -> Vec<u8> {
    let mut out = Vec::new();
    for g in gids {
        out.extend_from_slice(&g.to_le_bytes());
    }
    out
}

fn zlib_compress(data: &[u8]) -> Vec<u8> {
    let mut enc = flate2::write::ZlibEncoder::new(Vec::new(), flate2::Compression::default());
    enc.write_all(data).unwrap();
    enc.finish().unwrap()
}

fn gzip_compress(data: &[u8]) -> Vec<u8> {
    let mut enc = flate2::write::GzEncoder::new(Vec::new(), flate2::Compression::default());
    enc.write_all(data).unwrap();
    enc.finish().unwrap()
}

const GIDS: [u32; 16] = [1, 0, 2, 0, 0, 3, 0, 4, 5, 0, 6, 0, 0, 7, 0, 8];

fn tileset_inline() -> &'static str {
    r#" <tileset firstgid="1" name="tilesheet" tilewidth="32" tileheight="32">
  <image source="tilesheet.png" width="448" height="192"/>
  <tile id="0">
   <properties>
    <property name="a tile property" value="123"/>
   </properties>
  </tile>
 </tileset>"#
}

fn tilesheet_tsx() -> String {
    let body = r#" <image source="tilesheet.png" width="448" height="192"/>
 <tile id="0">
  <properties>
   <property name="a tile property" value="123"/>
  </properties>
 </tile>"#;
    format!(
        "<?xml version=\"1.0\" encoding=\"UTF-8\"?>\n<tileset name=\"tilesheet\" tilewidth=\"32\" tileheight=\"32\">\n{}\n</tileset>\n",
        body
    )
}

fn map_doc(tileset: &str, data_element: &str) -> String {
    format!(
        "<?xml version=\"1.0\" encoding=\"UTF-8\"?>\n<map version=\"1.0\" orientation=\"orthogonal\" width=\"4\" height=\"4\" tilewidth=\"32\" tileheight=\"32\">\n{}\n <layer name=\"Layer 1\" width=\"4\" height=\"4\">\n  {}\n </layer>\n</map>\n",
        tileset, data_element
    )
}

fn parse(doc: &str) -> Result<TileMap, TiledError> {
    let externals: Vec<(String, Vec<u8>)> = Vec::new();
    parse_map(doc.as_bytes(), &externals)
}

fn csv_doc() -> String {
    let csv: Vec<String> = GIDS.iter().map(|g| g.to_string()).collect();
    map_doc(
        tileset_inline(),
        &format!("<data encoding=\"csv\">{}</data>", csv.join(",")),
    )
}

fn base64_doc() -> String {
    map_doc(
        tileset_inline(),
        &format!("<data encoding=\"base64\">{}</data>", base64::encode(le_bytes(&GIDS))),
    )
}

fn zlib_doc() -> String {
    map_doc(
        tileset_inline(),
        &format!(
            "<data encoding=\"base64\" compression=\"zlib\">{}</data>",
            base64::encode(zlib_compress(&le_bytes(&GIDS)))
        ),
    )
}

fn gzip_doc() -> String {
    map_doc(
        tileset_inline(),
        &format!(
            "<data encoding=\"base64\" compression=\"gzip\">{}</data>",
            base64::encode(gzip_compress(&le_bytes(&GIDS)))
        ),
    )
}

#[test]
fn test_gzip_and_zlib_encoded_and_raw_are_the_same() {
    let z = parse(&zlib_doc()).unwrap();
    let g = parse(&gzip_doc()).unwrap();
    let r = parse(&base64_doc()).unwrap();
    let c = parse(&csv_doc()).unwrap();
    assert_eq!(z, g);
    assert_eq!(z, r);
    assert_eq!(z, c);
}

#[test]
fn test_external_tileset() {
    let r = parse(&base64_doc()).unwrap();

    let reference = " <tileset firstgid=\"1\" source=\"tilesheet.tsx\"/>";
    let doc = map_doc(
        reference,
        &format!("<data encoding=\"base64\">{}</data>", base64::encode(le_bytes(&GIDS))),
    );
    let externals: Vec<(String, Vec<u8>)> =
        vec![("tilesheet.tsx".to_string(), tilesheet_tsx().into_bytes())];
    let e = parse_map(doc.as_bytes(), &externals).unwrap();
    assert_eq!(r, e);
}

#[test]
fn test_just_tileset() {
    let r = parse(&base64_doc()).unwrap();
    let t = parse_tileset(tilesheet_tsx().as_bytes(), 1).unwrap();
    assert_eq!(r.tilesets[0], t);
}

#[test]
fn test_image_layers() {
    let doc = format!(
        "<?xml version=\"1.0\" encoding=\"UTF-8\"?>\n<map version=\"1.0\" orientation=\"orthogonal\" width=\"4\" height=\"4\" tilewidth=\"32\" tileheight=\"32\">\n <imagelayer name=\"Image Layer 1\"/>\n <imagelayer name=\"Image Layer 2\">\n  <image source=\"tilesheet.png\" width=\"448\" height=\"192\"/>\n </imagelayer>\n</map>\n"
    );
    let r = parse(&doc).unwrap();
    assert_eq!(r.image_layers.len(), 2);
    {
        let first = &r.image_layers[0];
        assert_eq!(first.name, "Image Layer 1");
        assert!(
            first.image.is_none(),
            "{}'s image should be None",
            first.name
        );
    }
    {
        let second = &r.image_layers[1];
        assert_eq!(second.name, "Image Layer 2");
        let image = second
            .image
            .as_ref()
            .expect(&format!("{}'s image shouldn't be None", second.name));
        assert_eq!(image.source, "tilesheet.png");
        assert_eq!(image.width, 448);
        assert_eq!(image.height, 192);
    }
}

#[test]
fn test_tile_property() {
    let r = parse(&base64_doc()).unwrap();
    let prop_value: String = if let Some(&PropertyValue::StringValue(ref v)) =
        r.tilesets[0].tiles[0].properties.get("a tile property")
    {
        v.clone()
    } else {
        String::new()
    };
    assert_eq!("123", prop_value);
}
