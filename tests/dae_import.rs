use pof::dae::{fan_triangles, make_corner, material_index};
use pof::{
    import_dae, BspNode, DaeCorner, DaeMaterial, DaeMesh, DaeNode, DaePrimitive, DaeScene, ObjectId, ParseError,
    PrimitiveKind, Texturing, Vec3d, VertexId,
};

fn v(x: f32, y: f32, z: f32) -> Vec3d {
    Vec3d { x: x.to_bits(), y: y.to_bits(), z: z.to_bits() }
}

fn corner(position: u32, normal: u32) -> DaeCorner {
    DaeCorner { position, normal: Some(normal), uv: None }
}

fn quad_node(name: &str, positions_in_order: [u32; 4]) -> DaeNode {
    DaeNode {
        name: name.to_string(),
        center: v(1.0, 2.0, 3.0),
        meshes: vec![DaeMesh {
            positions: vec![v(0.0, 0.0, 0.0), v(1.0, 0.0, 0.0), v(1.0, 1.0, 0.0), v(0.0, 1.0, 0.0)],
            primitives: vec![DaePrimitive {
                kind: PrimitiveKind::PolyList,
                material: None,
                normals: Some(vec![v(0.0, 0.0, 1.0)]),
                vcount: vec![4],
                corners: positions_in_order.iter().map(|&p| corner(p, 0)).collect(),
            }],
        }],
    }
}

#[test]
fn shield_fan_of_a_quad() {
    // Corners arrive as D, C, B, A; reversing gives the polygon A, B, C, D.
    let scene = DaeScene { materials: vec![], nodes: vec![quad_node("shield", [3, 2, 1, 0])] };
    let m = import_dae(&scene).unwrap();
    assert!(m.sub_objects.is_empty());
    let sd = m.shield_data.unwrap();
    assert_eq!(sd.polygons.len(), 2);
    assert_eq!(sd.polygons[0].verts, (VertexId(0), VertexId(1), VertexId(2)));
    assert_eq!(sd.polygons[1].verts, (VertexId(0), VertexId(2), VertexId(3)));
    assert!(sd.collision_tree.is_none());
    assert_eq!(sd.verts[2], v(1.0, 0.0, 1.0));
}

#[test]
fn subobjects_flags_and_detail_order() {
    let scene = DaeScene {
        materials: vec![],
        nodes: vec![
            quad_node("detail1", [0, 1, 2, 3]),
            quad_node("debris-a", [0, 1, 2, 3]),
            quad_node("detail0", [0, 1, 2, 3]),
        ],
    };
    let m = import_dae(&scene).unwrap();
    assert_eq!(m.sub_objects.len(), 3);
    assert_eq!(m.header.detail_levels, vec![ObjectId(2), ObjectId(0)]);
    assert!(m.sub_objects[1].is_debris_model);
    assert!(!m.sub_objects[0].is_debris_model);
    assert_eq!(m.sub_objects[0].offset, v(1.0, 3.0, 2.0));
    assert_eq!(m.header.max_radius, 1.0f32.to_bits());
    assert_eq!(m.header.num_subobjects, 3);
    match &m.sub_objects[0].bsp_data.collision_tree {
        BspNode::Leaf { poly_list, .. } => {
            assert_eq!(poly_list.len(), 1);
            let ids: Vec<u16> = poly_list[0].verts.iter().map(|c| c.vertex_id.0).collect();
            assert_eq!(ids, vec![3, 2, 1, 0]);
            assert_eq!(poly_list[0].texture, Texturing::Flat(pof::Color { red: 0, green: 0, blue: 0 }));
        }
        _ => panic!("expected a single leaf"),
    }
    assert_eq!(m.sub_objects[0].bsp_data.norms, vec![v(0.0, 1.0, 0.0)]);
}

#[test]
fn materials_give_textures_in_order() {
    let mut node = quad_node("hull", [0, 1, 2, 3]);
    node.meshes[0].primitives[0].material = Some("mat-b".to_string());
    let scene = DaeScene {
        materials: vec![
            DaeMaterial { id: "mat-a".to_string(), name: "Hull".to_string() },
            DaeMaterial { id: "mat-b".to_string(), name: "Glass".to_string() },
        ],
        nodes: vec![node],
    };
    let m = import_dae(&scene).unwrap();
    assert_eq!(m.textures, vec!["Hull".to_string(), "Glass".to_string()]);
    match &m.sub_objects[0].bsp_data.collision_tree {
        BspNode::Leaf { poly_list, .. } => assert_eq!(poly_list[0].texture, Texturing::Texture(pof::TextureId(1))),
        _ => panic!("expected a single leaf"),
    }
}

#[test]
fn unknown_material_is_malformed() {
    let mut node = quad_node("hull", [0, 1, 2, 3]);
    node.meshes[0].primitives[0].material = Some("missing".to_string());
    let scene = DaeScene { materials: vec![], nodes: vec![node] };
    assert_eq!(import_dae(&scene).unwrap_err(), ParseError::MalformedChunk);
}

#[test]
fn triangles_without_normals_are_malformed() {
    let mut node = quad_node("hull", [0, 1, 2, 3]);
    node.meshes[0].primitives[0].kind = PrimitiveKind::Triangles;
    node.meshes[0].primitives[0].normals = None;
    let scene = DaeScene { materials: vec![], nodes: vec![node] };
    assert_eq!(import_dae(&scene).unwrap_err(), ParseError::MalformedChunk);
}

#[test]
fn triangle_list_is_cut_in_threes() {
    let mut node = quad_node("hull", [0, 1, 2, 3]);
    let prim = &mut node.meshes[0].primitives[0];
    prim.kind = PrimitiveKind::Triangles;
    prim.corners = [0u32, 1, 2, 0, 2, 3].iter().map(|&p| corner(p, 0)).collect();
    let scene = DaeScene { materials: vec![], nodes: vec![node] };
    let m = import_dae(&scene).unwrap();
    match &m.sub_objects[0].bsp_data.collision_tree {
        BspNode::Leaf { poly_list, .. } => {
            assert_eq!(poly_list.len(), 2);
            assert_eq!(poly_list[1].verts[0].vertex_id.0, 3);
        }
        _ => panic!("expected a single leaf"),
    }
}

#[test]
fn second_mesh_indices_are_offset() {
    let mut node = quad_node("hull", [0, 1, 2, 3]);
    let second = quad_node("x", [0, 1, 2, 3]).meshes.remove(0);
    node.meshes.push(second);
    let scene = DaeScene { materials: vec![], nodes: vec![node] };
    let m = import_dae(&scene).unwrap();
    let s = &m.sub_objects[0];
    assert_eq!(s.bsp_data.verts.len(), 8);
    assert_eq!(s.bsp_data.norms.len(), 2);
    match &s.bsp_data.collision_tree {
        BspNode::Leaf { poly_list, .. } => {
            assert_eq!(poly_list[1].verts[0].vertex_id.0, 7);
            assert_eq!(poly_list[1].verts[0].normal_id.0, 1);
        }
        _ => panic!("expected a single leaf"),
    }
}

#[test]
fn corner_out_of_range_is_malformed() {
    assert_eq!(make_corner(corner(4, 0), 0, 0, 4, 1), Err(ParseError::MalformedChunk));
    let c = make_corner(DaeCorner { position: 1, normal: Some(0), uv: Some((5, 6)) }, 2, 1, 4, 2).unwrap();
    assert_eq!(c.vertex_id.0, 3);
    assert_eq!(c.normal_id.0, 1);
    assert_eq!(c.uv, (5, 6));
}

#[test]
fn last_material_with_an_id_wins() {
    let mats = vec![
        DaeMaterial { id: "m".to_string(), name: "a".to_string() },
        DaeMaterial { id: "m".to_string(), name: "b".to_string() },
    ];
    assert_eq!(material_index(&mats, &"m".to_string()), Some(1));
    assert_eq!(material_index(&mats, &"n".to_string()), None);
}

#[test]
fn fan_of_short_polygons_is_empty() {
    assert!(fan_triangles(&vec![]).is_empty());
}

#[test]
fn equal_detail_names_keep_node_order() {
    let scene = DaeScene {
        materials: vec![],
        nodes: vec![
            quad_node("detailB", [0, 1, 2, 3]),
            quad_node("detailA", [0, 1, 2, 3]),
            quad_node("detailA", [0, 1, 2, 3]),
        ],
    };
    let m = import_dae(&scene).unwrap();
    assert_eq!(m.header.detail_levels, vec![ObjectId(1), ObjectId(2), ObjectId(0)]);
    assert!(m.sub_objects.iter().all(|s| s.parent.is_none() && s.children.is_empty()));
}
