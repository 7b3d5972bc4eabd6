//! GID resolution, layer defaults, object shapes and orientations on
//! concrete documents.

use tiled::{parse_map, ObjectShape, Orientation, TiledError};

fn parse(doc: &str) -> Result<tiled::TileMap, TiledError> {
    let externals: Vec<(String, Vec<u8>)> = Vec::new();
    parse_map(doc.as_bytes(), &externals)
}

fn two_tileset_map() -> tiled::TileMap {
    let doc = r#"<?xml version="1.0"?>
<map orientation="orthogonal" width="2" height="1" tilewidth="16" tileheight="16">
 <tileset firstgid="1" name="a" tilewidth="16" tileheight="16">
  <tile id="0"/>
  <tile id="1"/>
 </tileset>
 <tileset firstgid="11" name="b" tilewidth="16" tileheight="16">
  <tile id="0"/>
 </tileset>
 <layer name="l" width="2" height="1">
  <data encoding="csv">1,11</data>
 </layer>
</map>"#;
    parse(doc).unwrap()
}

#[test]
fn test_resolve_zero_is_none() {
    let m = two_tileset_map();
    assert!(m.resolve_tileset(0).is_none());
}

#[test]
fn test_resolve_within_ranges() {
    let m = two_tileset_map();
    assert_eq!(m.resolve_tileset(1).unwrap().name, "a");
    assert_eq!(m.resolve_tileset(2).unwrap().name, "a");
    assert_eq!(m.resolve_tileset(11).unwrap().name, "b");
}

#[test]
fn test_resolve_outside_all_ranges_is_none() {
    let m = two_tileset_map();
    assert!(m.resolve_tileset(3).is_none());
    assert!(m.resolve_tileset(10).is_none());
    assert!(m.resolve_tileset(12).is_none());
    assert!(m.resolve_tileset(4000).is_none());
}

#[test]
fn test_local_tile_id_offset() {
    let m = two_tileset_map();
    let ts = m.resolve_tileset(2).unwrap();
    assert_eq!(2 - ts.first_gid, 1);
}

#[test]
fn test_layer_defaults_and_grid() {
    let m = two_tileset_map();
    assert_eq!(m.layers.len(), 1);
    let l = &m.layers[0];
    assert_eq!(l.name, "l");
    assert_eq!(l.opacity, "1");
    assert!(l.visible);
    assert_eq!(l.tiles, vec![vec![1, 11]]);
}

#[test]
fn test_optional_attribute_coercion_failure_counts_as_absent() {
    let doc = r#"<?xml version="1.0"?>
<map orientation="orthogonal" width="1" height="1" tilewidth="16" tileheight="16" backgroundcolor="nonsense">
 <tileset firstgid="1" name="a" tilewidth="16" tileheight="16" spacing="wide" margin="3"/>
 <layer name="l" width="1" height="1" visible="maybe" opacity="0.33">
  <data encoding="csv">1</data>
 </layer>
</map>"#;
    let m = parse(doc).unwrap();
    assert_eq!(m.background_colour, None);
    assert_eq!(m.tilesets[0].spacing, 0);
    assert_eq!(m.tilesets[0].margin, 3);
    let l = &m.layers[0];
    assert!(l.visible);
    assert_eq!(l.opacity, "0.33");
}

#[test]
fn test_orientation_values() {
    assert_eq!(Orientation::from_str("orthogonal"), Ok(Orientation::Orthogonal));
    assert_eq!(Orientation::from_str("isometric"), Ok(Orientation::Isometric));
    assert_eq!(Orientation::from_str("staggered"), Ok(Orientation::Staggered));
    assert_eq!(Orientation::from_str("hexagonal"), Ok(Orientation::Hexagonal));
    assert!(Orientation::from_str("Orthogonal").is_err());
}

#[test]
fn test_object_shapes() {
    let doc = r##"<?xml version="1.0"?>
<map orientation="orthogonal" width="1" height="1" tilewidth="16" tileheight="16">
 <objectgroup name="g" color="#ff0000">
  <object x="1" y="2" width="3" height="4"/>
  <object x="5" y="6" width="7" height="8"><ellipse/></object>
  <object x="0" y="0"><polygon points="0,0 10,-5 3,12"/></object>
  <object x="0" y="0"><polyline points="0,0 4,4"/></object>
  <object x="9" y="9"><point/></object>
 </objectgroup>
</map>"##;
    let m = parse(doc).unwrap();
    assert_eq!(m.object_groups.len(), 1);
    let g = &m.object_groups[0];
    assert_eq!(g.name, "g");
    assert_eq!(g.colour, Some(tiled::Colour { red: 0xff, green: 0, blue: 0 }));
    assert_eq!(g.objects.len(), 5);
    assert_eq!(g.objects[0].shape, ObjectShape::Rect { width: 3, height: 4 });
    assert_eq!(g.objects[1].shape, ObjectShape::Ellipse { width: 7, height: 8 });
    assert_eq!(
        g.objects[2].shape,
        ObjectShape::Polygon { points: vec![(0, 0), (10, -5), (3, 12)] }
    );
    assert_eq!(g.objects[3].shape, ObjectShape::Polyline { points: vec![(0, 0), (4, 4)] });
    assert_eq!(g.objects[4].shape, ObjectShape::Point);
    assert_eq!(g.objects[1].x, 5);
    assert_eq!(g.objects[1].y, 6);
}

#[test]
fn test_tile_animation() {
    let doc = r#"<?xml version="1.0"?>
<map orientation="orthogonal" width="1" height="1" tilewidth="16" tileheight="16">
 <tileset firstgid="1" name="a" tilewidth="16" tileheight="16">
  <tile id="0">
   <animation>
    <frame tileid="0" duration="100"/>
    <frame tileid="1" duration="200"/>
   </animation>
  </tile>
 </tileset>
</map>"#;
    let m = parse(doc).unwrap();
    let frames = m.tilesets[0].tiles[0].animation.as_ref().unwrap();
    assert_eq!(frames.len(), 2);
    assert_eq!(frames[0], tiled::Frame { tile_id: 0, duration: 100 });
    assert_eq!(frames[1], tiled::Frame { tile_id: 1, duration: 200 });
}
