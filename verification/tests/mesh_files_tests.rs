use smq_engine::bvh::{
    bvh_data_is_complete, bvh_payload, layout_bvh_nodes, load_bvh_data, words_to_bytes, BvhNode,
    MegaGeometry, Vec3Bits,
};
use smq_engine::smf::{
    mesh_smf, parse_smf, safe_mesh_name, smf_payload, PrimitiveData, SmfError, SmfMesh, Vec2Bits,
    ONE_BITS,
};

fn node(left_first: u32, tri_count: u32, seed: u32) -> BvhNode {
    BvhNode {
        aabb_min: Vec3Bits { x: seed, y: seed + 1, z: seed + 2 },
        left_first,
        aabb_max: Vec3Bits { x: seed + 3, y: seed + 4, z: seed + 5 },
        tri_count,
    }
}

#[test]
fn smf_header_layout() {
    let p = smf_payload(3, &[1, 2, 3, 4, 5, 6]);
    assert_eq!(p, vec![0b10110000, 3, 0, 0, 0, 0, 0, 0, 0, 1, 2, 3, 4, 5, 6]);
}

#[test]
fn smf_round_trip() {
    let data: Vec<u8> = (0..64u8).collect();
    let p = smf_payload(2, &data);
    let m = parse_smf(&p, 32).unwrap();
    assert_eq!(m, SmfMesh { vertex_count: 2, vertex_data: data });
}

#[test]
fn smf_ignores_trailing_bytes() {
    let mut p = smf_payload(1, &[9, 9, 9, 9]);
    p.push(7);
    let m = parse_smf(&p, 4).unwrap();
    assert_eq!(m.vertex_data, vec![9, 9, 9, 9]);
}

#[test]
fn smf_too_short() {
    assert_eq!(parse_smf(&[0b10110000, 1, 0, 0], 32), Err(SmfError::TooShort));
    let mut p = smf_payload(0, &[]);
    p[0] = 0;
    assert_eq!(parse_smf(&p, 32), Err(SmfError::TooShort));
    assert_eq!(
        SmfError::TooShort.message(),
        "failed to parse smf file: file too short".to_string()
    );
}

#[test]
fn smf_missing_vertex_data() {
    let p = smf_payload(2, &[0; 63]);
    assert_eq!(parse_smf(&p, 32), Err(SmfError::MissingVertexData));
    assert_eq!(
        SmfError::MissingVertexData.message(),
        "declared more vertex thata than exists".to_string()
    );
}

#[test]
fn bvh_file_layout() {
    let bytes = bvh_payload(&[node(7, 2, 100)], &[0, 5]);
    assert_eq!(bytes.len(), 4 + 32 + 4 + 8);
    assert_eq!(&bytes[0..4], &[1, 0, 0, 0]);
    assert_eq!(&bytes[4..8], &[100, 0, 0, 0]);
    assert_eq!(&bytes[16..20], &[7, 0, 0, 0]);
    assert_eq!(&bytes[32..36], &[2, 0, 0, 0]);
    assert_eq!(&bytes[36..40], &[2, 0, 0, 0]);
    assert_eq!(&bytes[44..48], &[5, 0, 0, 0]);
}

#[test]
fn bvh_file_round_trip() {
    let nodes = vec![node(1, 0, 10), node(0, 2, 20), node(2, 1, 0xFFFF_FFF0)];
    let roots = vec![0, 3];
    let bytes = bvh_payload(&nodes, &roots);
    assert!(bvh_data_is_complete(&bytes));
    let loaded = load_bvh_data(&bytes);
    assert_eq!(loaded.mega_nodes, nodes);
    assert_eq!(loaded.bvh_roots, roots);
}

#[test]
fn bvh_file_incomplete() {
    let bytes = bvh_payload(&[node(0, 1, 0)], &[0]);
    assert!(!bvh_data_is_complete(&bytes[..bytes.len() - 1]));
    assert!(!bvh_data_is_complete(&bytes[..3]));
    assert!(!bvh_data_is_complete(&[]));
}

#[test]
fn bvh_layout_of_five_triangles() {
    let nodes = layout_bvh_nodes(5);
    let spans: Vec<(u32, u32)> = nodes.iter().map(|n| (n.left_first, n.tri_count)).collect();
    // root splits 5 into 2 + 3; the 3 splits into 1 + 2
    assert_eq!(spans, vec![(1, 0), (0, 2), (3, 0), (2, 1), (3, 2)]);
    assert!(nodes.iter().all(|n| n.aabb_min == Vec3Bits { x: 0, y: 0, z: 0 }));
}

#[test]
fn bvh_layout_small_meshes() {
    let one = layout_bvh_nodes(1);
    assert_eq!(one.len(), 1);
    assert_eq!((one[0].left_first, one[0].tri_count), (0, 1));
    let two = layout_bvh_nodes(2);
    assert_eq!(two.len(), 1);
    assert_eq!((two[0].left_first, two[0].tri_count), (0, 2));
}

#[test]
fn bvh_layout_leaves_cover_all_triangles() {
    let n = 37u32;
    let nodes = layout_bvh_nodes(n as usize);
    assert!(nodes.len() <= 2 * n as usize - 1);
    let mut covered = vec![0u32; n as usize];
    for nd in &nodes {
        if nd.tri_count > 0 {
            assert!(nd.tri_count <= 2);
            for t in nd.left_first..nd.left_first + nd.tri_count {
                covered[t as usize] += 1;
            }
        }
    }
    assert!(covered.iter().all(|&c| c == 1));
}

#[test]
fn mega_geometry_relocates_nodes() {
    let mut g = MegaGeometry::new();
    let first = vec![node(1, 0, 0), node(0, 1, 0), node(1, 1, 0)];
    g.add_mesh(&first, &[1u32; 48], 6);
    let second = vec![node(1, 0, 0), node(0, 2, 0), node(2, 1, 0)];
    g.add_mesh(&second, &[2u32; 72], 9);
    assert_eq!(g.bvh_roots, vec![0, 3]);
    assert_eq!(g.vertex_count, 15);
    assert_eq!(g.mega_vertices.len(), 120);
    let spans: Vec<(u32, u32)> = g.mega_nodes.iter().map(|n| (n.left_first, n.tri_count)).collect();
    assert_eq!(spans, vec![(1, 0), (0, 1), (1, 1), (4, 0), (2, 2), (4, 1)]);
}

#[test]
fn words_are_little_endian() {
    assert_eq!(words_to_bytes(&[0x0403_0201, ONE_BITS]), vec![1, 2, 3, 4, 0, 0, 0x80, 0x3F]);
}

#[test]
fn mesh_smf_interleaves_attributes() {
    let prim = PrimitiveData {
        positions: vec![Vec3Bits { x: 1, y: 2, z: 3 }, Vec3Bits { x: 4, y: 5, z: 6 }],
        tex_coords: Some(vec![Vec2Bits { x: 7, y: 8 }, Vec2Bits { x: 9, y: 10 }]),
        normals: None,
        indices: Some(vec![1, 0, 1]),
    };
    let bytes = mesh_smf(&[prim]).unwrap();
    let words: Vec<u32> = vec![
        4, 5, 6, 9, 10, 0, ONE_BITS, 0, //
        1, 2, 3, 7, 8, 0, ONE_BITS, 0, //
        4, 5, 6, 9, 10, 0, ONE_BITS, 0,
    ];
    assert_eq!(bytes, smf_payload(3, &words_to_bytes(&words)));
}

#[test]
fn mesh_smf_without_indices() {
    let prim = PrimitiveData {
        positions: vec![Vec3Bits { x: 1, y: 2, z: 3 }],
        tex_coords: None,
        normals: Some(vec![Vec3Bits { x: 11, y: 12, z: 13 }]),
        indices: None,
    };
    let bytes = mesh_smf(&[prim]).unwrap();
    assert_eq!(bytes, smf_payload(1, &words_to_bytes(&[1, 2, 3, 0, 0, 11, 12, 13])));
}

#[test]
fn mesh_smf_empty() {
    let prim = PrimitiveData { positions: vec![], tex_coords: None, normals: None, indices: None };
    assert!(mesh_smf(&[prim]).is_none());
    assert!(mesh_smf(&[]).is_none());
}

#[test]
fn safe_names() {
    assert_eq!(safe_mesh_name("Cube.001"), "Cube_001");
    assert_eq!(safe_mesh_name("my mesh-2"), "my_mesh_2");
    assert_eq!(safe_mesh_name("łódź"), "łódź");
    assert_eq!(safe_mesh_name(""), "");
}
