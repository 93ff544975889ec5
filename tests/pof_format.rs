use pof::bsp::parse_bsp_data;
use pof::bytes::{u16_at_pos, u32_at_pos};
use pof::hierarchy::link_subobjects;
use pof::shield::parse_shield_node;
use pof::{
    flip_y_z, BspNode, ObjectId, ParseError, Parser, PolygonId, ShieldNode, SubsysMovementAxis, Texturing, Vec3d,
    Version,
};

fn u32s(out: &mut Vec<u8>, v: u32) {
    out.extend_from_slice(&v.to_le_bytes());
}

fn i32s(out: &mut Vec<u8>, v: i32) {
    out.extend_from_slice(&v.to_le_bytes());
}

fn f32s(out: &mut Vec<u8>, v: f32) {
    out.extend_from_slice(&v.to_le_bytes());
}

fn vec3(out: &mut Vec<u8>, x: f32, y: f32, z: f32) {
    f32s(out, x);
    f32s(out, y);
    f32s(out, z);
}

fn string(out: &mut Vec<u8>, s: &str) {
    u32s(out, s.len() as u32);
    out.extend_from_slice(s.as_bytes());
}

fn chunk(out: &mut Vec<u8>, id: &[u8; 4], body: &[u8]) {
    out.extend_from_slice(id);
    i32s(out, body.len() as i32);
    out.extend_from_slice(body);
}

fn file(version: i32) -> Vec<u8> {
    let mut out = b"PSPO".to_vec();
    i32s(&mut out, version);
    out
}

fn header_body(details: &[u32], debris: &[u32]) -> Vec<u8> {
    let mut b = Vec::new();
    f32s(&mut b, 10.0);
    u32s(&mut b, 0);
    u32s(&mut b, 1);
    vec3(&mut b, -1.0, -1.0, -1.0);
    vec3(&mut b, 1.0, 1.0, 1.0);
    u32s(&mut b, details.len() as u32);
    for d in details {
        u32s(&mut b, *d);
    }
    u32s(&mut b, debris.len() as u32);
    for d in debris {
        u32s(&mut b, *d);
    }
    f32s(&mut b, 5.0);
    vec3(&mut b, 0.0, 0.0, 0.0);
    vec3(&mut b, 1.0, 0.0, 0.0);
    vec3(&mut b, 0.0, 1.0, 0.0);
    vec3(&mut b, 0.0, 0.0, 1.0);
    u32s(&mut b, 0);
    u32s(&mut b, 0);
    b
}

/// A geometry buffer with no vertices and a single empty leaf.
fn empty_bsp() -> Vec<u8> {
    let mut b = Vec::new();
    u32s(&mut b, 1);
    u32s(&mut b, 20);
    u32s(&mut b, 0);
    u32s(&mut b, 0);
    u32s(&mut b, 20);
    u32s(&mut b, 5);
    u32s(&mut b, 32);
    vec3(&mut b, 0.0, 0.0, 0.0);
    vec3(&mut b, 0.0, 0.0, 0.0);
    u32s(&mut b, 0);
    u32s(&mut b, 0);
    b
}

fn subobject_body(id: u32, parent: u32, name: &str, bsp: &[u8]) -> Vec<u8> {
    let mut b = Vec::new();
    u32s(&mut b, id);
    f32s(&mut b, 2.0);
    u32s(&mut b, parent);
    vec3(&mut b, 0.0, 1.0, 2.0);
    vec3(&mut b, 0.0, 0.0, 0.0);
    vec3(&mut b, -1.0, -1.0, -1.0);
    vec3(&mut b, 1.0, 1.0, 1.0);
    string(&mut b, name);
    string(&mut b, "");
    i32s(&mut b, -1);
    i32s(&mut b, 1);
    i32s(&mut b, 0);
    u32s(&mut b, bsp.len() as u32);
    b.extend_from_slice(bsp);
    b
}

fn minimal(version: i32) -> Vec<u8> {
    let mut f = file(version);
    chunk(&mut f, b"HDR2", &header_body(&[0], &[]));
    chunk(&mut f, b"OBJ2", &subobject_body(0, u32::MAX, "hull", &empty_bsp()));
    f
}

fn parse(bytes: Vec<u8>) -> Result<pof::Model, ParseError> {
    let mut p = Parser::new(bytes)?;
    p.parse()
}

#[test]
fn minimal_model() {
    let m = parse(minimal(2117)).unwrap();
    assert_eq!(m.sub_objects.len(), 1);
    assert!(m.sub_objects[0].bsp_data.verts.is_empty());
    assert_eq!(m.header.detail_levels, vec![ObjectId(0)]);
    assert_eq!(m.sub_objects[0].name, "hull");
    assert_eq!(m.sub_objects[0].parent, None);
    assert_eq!(m.sub_objects[0].movement_axis, SubsysMovementAxis::ZAXIS);
    assert_eq!(m.header.max_radius, 10.0f32.to_bits());
    assert!(matches!(m.sub_objects[0].bsp_data.collision_tree, BspNode::Leaf { ref poly_list, .. } if poly_list.is_empty()));
    assert!(m.shield_data.is_none());
}

fn gun_points(version: i32, with_offset: bool) -> Vec<u8> {
    let mut f = minimal(version);
    let mut b = Vec::new();
    u32s(&mut b, 1);
    u32s(&mut b, 1);
    vec3(&mut b, 1.0, 2.0, 3.0);
    vec3(&mut b, 0.0, 0.0, 1.0);
    if with_offset {
        f32s(&mut b, 0.5);
    }
    chunk(&mut f, b"GPNT", &b);
    f
}

#[test]
fn weapon_offset_absent_before_2201() {
    let m = parse(gun_points(2116, false)).unwrap();
    assert_eq!(m.primary_weps.len(), 1);
    assert_eq!(m.primary_weps[0].len(), 1);
    assert_eq!(m.primary_weps[0][0].offset, 0.0f32.to_bits());
    assert_eq!(m.primary_weps[0][0].position, Vec3d { x: 1.0f32.to_bits(), y: 2.0f32.to_bits(), z: 3.0f32.to_bits() });
}

#[test]
fn weapon_offset_read_from_2201() {
    let m = parse(gun_points(2201, true)).unwrap();
    assert_eq!(m.primary_weps[0][0].offset, 0.5f32.to_bits());
    assert_eq!(m.primary_weps[0][0].normal, Vec3d { x: 0, y: 0, z: 1.0f32.to_bits() });
}

fn shield_model(version: i32, tree_id: &[u8; 4], narrow: bool) -> Vec<u8> {
    let mut f = minimal(version);
    let mut b = Vec::new();
    u32s(&mut b, 3);
    vec3(&mut b, 0.0, 0.0, 0.0);
    vec3(&mut b, 1.0, 0.0, 0.0);
    vec3(&mut b, 0.0, 1.0, 0.0);
    u32s(&mut b, 1);
    vec3(&mut b, 0.0, 0.0, 1.0);
    u32s(&mut b, 0);
    u32s(&mut b, 1);
    u32s(&mut b, 2);
    u32s(&mut b, 0);
    u32s(&mut b, 0);
    u32s(&mut b, 0);
    chunk(&mut f, b"SHLD", &b);
    let mut tree = Vec::new();
    if narrow {
        tree.push(1u8);
    } else {
        u32s(&mut tree, 1);
    }
    u32s(&mut tree, 0);
    vec3(&mut tree, 0.0, 0.0, 0.0);
    vec3(&mut tree, 1.0, 1.0, 0.0);
    u32s(&mut tree, 1);
    u32s(&mut tree, 0);
    let mut t = Vec::new();
    u32s(&mut t, tree.len() as u32);
    t.extend_from_slice(&tree);
    chunk(&mut f, tree_id, &t);
    f
}

#[test]
fn shield_tree_narrow_tags() {
    let m = parse(shield_model(2117, b"SLDC", true)).unwrap();
    let sd = m.shield_data.unwrap();
    assert_eq!(sd.verts.len(), 3);
    assert_eq!(sd.polygons.len(), 1);
    assert_eq!(sd.polygons[0].verts.2 .0, 2);
    match sd.collision_tree {
        Some(ShieldNode::Leaf { bbox, poly_list }) => {
            assert!(bbox.is_some());
            assert_eq!(poly_list, vec![PolygonId(0)]);
        }
        _ => panic!("expected a leaf"),
    }
}

#[test]
fn shield_tree_wide_tags_parse_identically() {
    let a = parse(shield_model(2117, b"SLDC", true)).unwrap();
    let b = parse(shield_model(2200, b"SLC2", false)).unwrap();
    assert_eq!(a.shield_data, b.shield_data);
}

#[test]
fn wide_shield_tree_chunk_rejected_before_2200() {
    assert_eq!(parse(shield_model(2118, b"SLC2", false)).unwrap_err(), ParseError::MalformedChunk);
}

#[test]
fn shield_tree_without_mesh_is_malformed() {
    let mut f = minimal(2117);
    let mut t = Vec::new();
    u32s(&mut t, 0);
    chunk(&mut f, b"SLDC", &t);
    assert_eq!(parse(f).unwrap_err(), ParseError::MalformedChunk);
}

#[test]
fn unknown_chunk_is_skipped() {
    let plain = parse(gun_points(2117, false)).unwrap();
    let mut f = file(2117);
    chunk(&mut f, b"HDR2", &header_body(&[0], &[]));
    chunk(&mut f, b"XXXX", &[9, 8, 7, 6, 5, 4, 3]);
    chunk(&mut f, b"OBJ2", &subobject_body(0, u32::MAX, "hull", &empty_bsp()));
    let mut b = Vec::new();
    u32s(&mut b, 1);
    u32s(&mut b, 1);
    vec3(&mut b, 1.0, 2.0, 3.0);
    vec3(&mut b, 0.0, 0.0, 1.0);
    chunk(&mut f, b"GPNT", &b);
    assert_eq!(parse(f).unwrap(), plain);
}

#[test]
fn invalid_magic() {
    let mut f = b"NOPE".to_vec();
    i32s(&mut f, 2117);
    assert_eq!(Parser::new(f).err(), Some(ParseError::InvalidMagic));
}

#[test]
fn unknown_version() {
    assert_eq!(Parser::new(file(1234)).err(), Some(ParseError::UnknownVersion));
}

#[test]
fn short_input_is_io_error() {
    assert_eq!(Parser::new(b"PSP".to_vec()).err(), Some(ParseError::Io));
    assert_eq!(Parser::new(b"PSPO\x45".to_vec()).err(), Some(ParseError::Io));
}

#[test]
fn missing_header() {
    let mut f = file(2117);
    chunk(&mut f, b"OBJ2", &subobject_body(0, u32::MAX, "hull", &empty_bsp()));
    assert_eq!(parse(f).unwrap_err(), ParseError::MissingHeader);
}

#[test]
fn truncated_chunk_is_io_error() {
    let mut f = minimal(2117);
    f.extend_from_slice(b"TXTR");
    i32s(&mut f, 20);
    u32s(&mut f, 2);
    assert_eq!(parse(f).unwrap_err(), ParseError::Io);
}

#[test]
fn trailing_partial_id_ends_the_file() {
    let mut f = minimal(2117);
    f.extend_from_slice(b"TX");
    assert!(parse(f).is_ok());
}

#[test]
fn duplicate_header_is_malformed() {
    let mut f = minimal(2117);
    chunk(&mut f, b"HDR2", &header_body(&[0], &[]));
    assert_eq!(parse(f).unwrap_err(), ParseError::MalformedChunk);
}

#[test]
fn children_and_debris_are_linked() {
    let mut f = file(2117);
    chunk(&mut f, b"HDR2", &header_body(&[0], &[2]));
    chunk(&mut f, b"OBJ2", &subobject_body(0, u32::MAX, "hull", &empty_bsp()));
    chunk(&mut f, b"OBJ2", &subobject_body(1, 0, "turret", &empty_bsp()));
    chunk(&mut f, b"OBJ2", &subobject_body(2, 0, "debris01", &empty_bsp()));
    let m = parse(f).unwrap();
    assert_eq!(m.sub_objects[0].children, vec![ObjectId(1), ObjectId(2)]);
    assert!(m.sub_objects[1].children.is_empty());
    assert_eq!(m.sub_objects[1].parent, Some(ObjectId(0)));
    assert!(!m.sub_objects[0].is_debris_model);
    assert!(!m.sub_objects[1].is_debris_model);
    assert!(m.sub_objects[2].is_debris_model);
}

#[test]
fn parent_out_of_range_is_malformed() {
    let mut f = file(2117);
    chunk(&mut f, b"HDR2", &header_body(&[0], &[]));
    chunk(&mut f, b"OBJ2", &subobject_body(0, 7, "hull", &empty_bsp()));
    assert_eq!(parse(f).unwrap_err(), ParseError::MalformedChunk);
}

#[test]
fn subobjects_out_of_order_are_malformed() {
    let mut f = file(2117);
    chunk(&mut f, b"HDR2", &header_body(&[0], &[]));
    chunk(&mut f, b"OBJ2", &subobject_body(1, u32::MAX, "hull", &empty_bsp()));
    assert_eq!(parse(f).unwrap_err(), ParseError::MalformedChunk);
}

#[test]
fn strings_stop_at_nul_and_comments_use_chunk_length() {
    let mut f = minimal(2117);
    let mut t = Vec::new();
    u32s(&mut t, 1);
    u32s(&mut t, 8);
    t.extend_from_slice(b"hull\0xyz");
    chunk(&mut f, b"TXTR", &t);
    chunk(&mut f, b"PINF", b"made by hand\0\0\0");
    let m = parse(f).unwrap();
    assert_eq!(m.textures, vec!["hull".to_string()]);
    assert_eq!(m.comments, "made by hand");
}

#[test]
fn invalid_utf8_is_malformed() {
    let mut f = minimal(2117);
    let mut t = Vec::new();
    u32s(&mut t, 1);
    u32s(&mut t, 2);
    t.extend_from_slice(&[0xff, 0xfe]);
    chunk(&mut f, b"TXTR", &t);
    assert_eq!(parse(f).unwrap_err(), ParseError::MalformedChunk);
}

#[test]
fn glow_count_precedes_properties() {
    let mut f = minimal(2117);
    let mut b = Vec::new();
    u32s(&mut b, 1);
    i32s(&mut b, -1);
    u32s(&mut b, 100);
    u32s(&mut b, 200);
    u32s(&mut b, 0);
    u32s(&mut b, 0);
    u32s(&mut b, 1);
    u32s(&mut b, 2);
    string(&mut b, "$glow");
    for _ in 0..2 {
        vec3(&mut b, 1.0, 1.0, 1.0);
        vec3(&mut b, 0.0, 1.0, 0.0);
        f32s(&mut b, 0.25);
    }
    chunk(&mut f, b"GLOW", &b);
    let m = parse(f).unwrap();
    assert_eq!(m.glow_banks.len(), 1);
    assert_eq!(m.glow_banks[0].properties, "$glow");
    assert_eq!(m.glow_banks[0].glow_points.len(), 2);
    assert_eq!(m.glow_banks[0].disp_time, -1);
    assert_eq!(m.glow_banks[0].glow_points[1].radius, 0.25f32.to_bits());
}

#[test]
fn thruster_properties_from_2117() {
    let mut f = minimal(2117);
    let mut b = Vec::new();
    u32s(&mut b, 1);
    u32s(&mut b, 1);
    string(&mut b, "$engine");
    vec3(&mut b, 0.0, 0.0, -5.0);
    vec3(&mut b, 0.0, 0.0, -1.0);
    f32s(&mut b, 1.5);
    chunk(&mut f, b"FUEL", &b);
    let m = parse(f).unwrap();
    assert_eq!(m.thruster_banks[0].properties, "$engine");
    assert_eq!(m.thruster_banks[0].glows.len(), 1);
}

#[test]
fn dock_keeps_first_path() {
    let mut f = minimal(2117);
    let mut b = Vec::new();
    u32s(&mut b, 1);
    string(&mut b, "$name=dock");
    u32s(&mut b, 2);
    u32s(&mut b, 4);
    u32s(&mut b, 9);
    u32s(&mut b, 2);
    vec3(&mut b, 0.0, 0.0, 0.0);
    vec3(&mut b, 0.0, 1.0, 0.0);
    vec3(&mut b, 1.0, 0.0, 0.0);
    vec3(&mut b, 0.0, 1.0, 0.0);
    chunk(&mut f, b"DOCK", &b);
    let m = parse(f).unwrap();
    assert_eq!(m.docking_bays[0].path, Some(pof::PathId(4)));
    assert_eq!(m.docking_bays[0].points.len(), 2);
}

#[test]
fn dock_with_three_points_is_malformed() {
    let mut f = minimal(2117);
    let mut b = Vec::new();
    u32s(&mut b, 1);
    string(&mut b, "");
    u32s(&mut b, 0);
    u32s(&mut b, 3);
    for _ in 0..3 {
        vec3(&mut b, 0.0, 0.0, 0.0);
        vec3(&mut b, 0.0, 1.0, 0.0);
    }
    chunk(&mut f, b"DOCK", &b);
    assert_eq!(parse(f).unwrap_err(), ParseError::MalformedChunk);
}

#[test]
fn insignia_face_count_is_separate_from_vertices() {
    let mut f = minimal(2117);
    let mut b = Vec::new();
    u32s(&mut b, 1);
    u32s(&mut b, 0);
    u32s(&mut b, 1);
    u32s(&mut b, 3);
    vec3(&mut b, 0.0, 0.0, 0.0);
    vec3(&mut b, 1.0, 0.0, 0.0);
    vec3(&mut b, 0.0, 1.0, 0.0);
    vec3(&mut b, 0.0, 0.0, 0.5);
    for v in 0..3u32 {
        u32s(&mut b, v);
        f32s(&mut b, 0.0);
        f32s(&mut b, 1.0);
    }
    chunk(&mut f, b"INSG", &b);
    let m = parse(f).unwrap();
    assert_eq!(m.insignias[0].vertices.len(), 3);
    assert_eq!(m.insignias[0].faces.len(), 1);
    assert_eq!(m.insignias[0].faces[0].2.vertex_id.0, 2);
}

#[test]
fn turrets_from_both_chunks_append() {
    let mut f = minimal(2117);
    let mut b = Vec::new();
    u32s(&mut b, 1);
    u32s(&mut b, 0);
    u32s(&mut b, 0);
    vec3(&mut b, 0.0, 1.0, 0.0);
    u32s(&mut b, 1);
    vec3(&mut b, 0.0, 2.0, 0.0);
    chunk(&mut f, b"TGUN", &b);
    chunk(&mut f, b"TMIS", &b);
    let m = parse(f).unwrap();
    assert_eq!(m.turrets.len(), 2);
    assert_eq!(m.turrets[1].fire_points.len(), 1);
}

fn textured_bsp(vertex_id: u16) -> Vec<u8> {
    // Vertex and normal definitions: 2 vertices with 1 normal each, blob at 32.
    let mut b = Vec::new();
    u32s(&mut b, 1);
    u32s(&mut b, 80);
    u32s(&mut b, 2);
    u32s(&mut b, 2);
    u32s(&mut b, 32);
    b.extend_from_slice(&[1, 1, 0, 0, 0, 0, 0, 0, 0, 0, 0, 0]);
    for k in 0..2 {
        vec3(&mut b, k as f32, 0.0, 0.0);
        vec3(&mut b, 0.0, 0.0, 1.0);
    }
    // Split at 80; front leaf at 160, back leaf at 280.
    assert_eq!(b.len(), 80);
    u32s(&mut b, 4);
    u32s(&mut b, 80);
    vec3(&mut b, 0.0, 1.0, 0.0);
    vec3(&mut b, 0.0, 0.0, 0.0);
    u32s(&mut b, 0);
    u32s(&mut b, 80);
    u32s(&mut b, 200);
    u32s(&mut b, 0);
    u32s(&mut b, 0);
    u32s(&mut b, 0);
    vec3(&mut b, -1.0, -1.0, -1.0);
    vec3(&mut b, 1.0, 1.0, 1.0);
    assert_eq!(b.len(), 160);
    u32s(&mut b, 5);
    u32s(&mut b, 32);
    vec3(&mut b, 0.0, 0.0, 0.0);
    vec3(&mut b, 1.0, 1.0, 1.0);
    u32s(&mut b, 3);
    u32s(&mut b, 80);
    vec3(&mut b, 0.0, 0.0, 1.0);
    vec3(&mut b, 0.5, 0.5, 0.0);
    f32s(&mut b, 1.0);
    u32s(&mut b, 3);
    u32s(&mut b, 7);
    for v in [0u16, 1, vertex_id] {
        b.extend_from_slice(&v.to_le_bytes());
        b.extend_from_slice(&1u16.to_le_bytes());
        f32s(&mut b, 0.25);
        f32s(&mut b, 0.75);
    }
    u32s(&mut b, 0);
    u32s(&mut b, 0);
    assert_eq!(b.len(), 280);
    u32s(&mut b, 5);
    u32s(&mut b, 32);
    vec3(&mut b, 0.0, 0.0, 0.0);
    vec3(&mut b, 1.0, 1.0, 1.0);
    u32s(&mut b, 2);
    u32s(&mut b, 56);
    vec3(&mut b, 0.0, 0.0, 1.0);
    vec3(&mut b, 0.5, 0.5, 0.0);
    f32s(&mut b, 1.0);
    u32s(&mut b, 3);
    b.extend_from_slice(&[10, 20, 30, 0]);
    for v in [1u16, 0, 1] {
        b.extend_from_slice(&v.to_le_bytes());
        b.extend_from_slice(&0u16.to_le_bytes());
    }
    u32s(&mut b, 0);
    u32s(&mut b, 0);
    b
}

#[test]
fn bsp_split_with_two_leaves() {
    let buf = textured_bsp(1);
    let d = parse_bsp_data(&buf).unwrap();
    assert_eq!(d.verts.len(), 2);
    assert_eq!(d.norms.len(), 2);
    assert_eq!(d.verts[1].x, 1.0f32.to_bits());
    match d.collision_tree {
        BspNode::Split { front, back, normal, .. } => {
            assert_eq!(normal.y, 1.0f32.to_bits());
            match *front {
                BspNode::Leaf { poly_list, .. } => {
                    assert_eq!(poly_list.len(), 1);
                    assert_eq!(poly_list[0].texture, Texturing::Texture(pof::TextureId(7)));
                    assert_eq!(poly_list[0].verts[2].vertex_id.0, 1);
                    assert_eq!(poly_list[0].verts[0].uv, (0.25f32.to_bits(), 0.75f32.to_bits()));
                }
                _ => panic!("front should be a leaf"),
            }
            match *back {
                BspNode::Leaf { poly_list, .. } => {
                    assert_eq!(poly_list.len(), 1);
                    assert_eq!(poly_list[0].texture, Texturing::Flat(pof::Color { red: 10, green: 20, blue: 30 }));
                    assert_eq!(poly_list[0].verts[0].uv, (0, 0));
                    assert_eq!(poly_list[0].verts[1].vertex_id.0, 0);
                }
                _ => panic!("back should be a leaf"),
            }
        }
        _ => panic!("root should be a split"),
    }
}

#[test]
fn bsp_vertex_out_of_range_is_malformed() {
    let buf = textured_bsp(5);
    assert_eq!(parse_bsp_data(&buf).unwrap_err(), ParseError::MalformedChunk);
}

#[test]
fn bsp_zero_child_offset_is_malformed() {
    let mut buf = textured_bsp(1);
    buf[80 + 36..80 + 40].copy_from_slice(&0u32.to_le_bytes());
    assert_eq!(parse_bsp_data(&buf).unwrap_err(), ParseError::MalformedChunk);
}

#[test]
fn bsp_root_must_define_points() {
    let mut buf = empty_bsp();
    buf[0] = 2;
    assert_eq!(parse_bsp_data(&buf).unwrap_err(), ParseError::MalformedChunk);
}

#[test]
fn bsp_unknown_polygon_tag_is_malformed() {
    let mut buf = empty_bsp();
    buf[52] = 9;
    assert_eq!(parse_bsp_data(&buf).unwrap_err(), ParseError::MalformedChunk);
}

#[test]
fn shield_split_decodes_both_children() {
    let mut b = Vec::new();
    u32s(&mut b, 0);
    u32s(&mut b, 40);
    vec3(&mut b, 0.0, 0.0, 0.0);
    vec3(&mut b, 1.0, 1.0, 1.0);
    u32s(&mut b, 40);
    u32s(&mut b, 40 + 40);
    for id in [3u32, 4] {
        u32s(&mut b, 1);
        u32s(&mut b, 40);
        vec3(&mut b, 0.0, 0.0, 0.0);
        vec3(&mut b, 1.0, 1.0, 1.0);
        u32s(&mut b, 1);
        u32s(&mut b, id);
    }
    match parse_shield_node(&b, 0, Version::V22_01).unwrap() {
        ShieldNode::Split { front, back, .. } => {
            assert_eq!(*front, ShieldNode::Leaf { bbox: Some(pof::BBox { min: Vec3d { x: 0, y: 0, z: 0 }, max: Vec3d { x: 1.0f32.to_bits(), y: 1.0f32.to_bits(), z: 1.0f32.to_bits() } }), poly_list: vec![PolygonId(3)] });
            assert!(matches!(*back, ShieldNode::Leaf { ref poly_list, .. } if poly_list == &vec![PolygonId(4)]));
        }
        _ => panic!("expected a split"),
    }
}

#[test]
fn shield_unknown_tag_is_malformed() {
    let mut b = Vec::new();
    u32s(&mut b, 7);
    u32s(&mut b, 0);
    assert_eq!(parse_shield_node(&b, 0, Version::V22_00).unwrap_err(), ParseError::MalformedChunk);
}

#[test]
fn little_endian_round_trip() {
    for v in [0u32, 1, 0x0403_0201, u32::MAX, 0.5f32.to_bits()] {
        assert_eq!(u32_at_pos(&v.to_le_bytes(), 0), Ok(v));
    }
    assert_eq!(u32_at_pos(&[1, 2, 3, 4], 0), Ok(0x0403_0201));
    assert_eq!(u32_at_pos(&[1, 2, 3], 0), Err(ParseError::Io));
    assert_eq!(u16_at_pos(&[0x34, 0x12], 0), Ok(0x1234));
    assert_eq!(u32_at_pos(&(-2i32).to_le_bytes(), 0).map(|v| v as i32), Ok(-2));
}

#[test]
fn flip_twice_is_identity() {
    let v = Vec3d { x: 1, y: 2, z: 3 };
    assert_eq!(flip_y_z(v), Vec3d { x: 1, y: 3, z: 2 });
    assert_eq!(flip_y_z(flip_y_z(v)), v);
}

#[test]
fn link_rejects_debris_out_of_range() {
    assert_eq!(link_subobjects(Vec::new(), &vec![ObjectId(0)]).unwrap_err(), ParseError::MalformedChunk);
}

#[test]
fn shield_size_past_end_is_io() {
    let mut b = Vec::new();
    u32s(&mut b, 1);
    u32s(&mut b, 1000);
    vec3(&mut b, 0.0, 0.0, 0.0);
    vec3(&mut b, 1.0, 1.0, 1.0);
    u32s(&mut b, 0);
    assert_eq!(parse_shield_node(&b, 0, Version::V22_00).unwrap_err(), ParseError::Io);
}

#[test]
fn shield_zero_child_offset_is_malformed() {
    let mut b = Vec::new();
    u32s(&mut b, 0);
    u32s(&mut b, 40);
    vec3(&mut b, 0.0, 0.0, 0.0);
    vec3(&mut b, 1.0, 1.0, 1.0);
    u32s(&mut b, 0);
    u32s(&mut b, 40);
    assert_eq!(parse_shield_node(&b, 0, Version::V22_00).unwrap_err(), ParseError::MalformedChunk);
}

#[test]
fn only_unknown_chunks_give_missing_header() {
    let mut f = file(2117);
    chunk(&mut f, b"XXXX", &[1, 2, 3]);
    chunk(&mut f, b"YYYY", &[]);
    assert_eq!(parse(f).unwrap_err(), ParseError::MissingHeader);
}
