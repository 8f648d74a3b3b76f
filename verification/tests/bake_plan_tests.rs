use smq_engine::bvh::{layout_bvh_nodes, node_spans, BvhNode, Vec3Bits};
use smq_engine::input::Inputs;
use smq_engine::layout::create_rust_ubo_structs;
use smq_engine::plan::{asset_kind, gather_analyses, AssetKind, AssetSlots};
use smq_engine::config::TextureJson;
use smq_engine::smf::{parse_smf, read_smf_vertices, safe_mesh_name, smf_payload, SmfError, SmfMesh};
use smq_engine::wgsl::{WgslStruct, WgslStructVar, WgslStructVarType};

fn leaf(first: u32, count: u32) -> BvhNode {
    BvhNode {
        aabb_min: Vec3Bits { x: 0, y: 0, z: 0 },
        left_first: first,
        aabb_max: Vec3Bits { x: 0, y: 0, z: 0 },
        tri_count: count,
    }
}

fn one_struct(name: &str) -> WgslStruct {
    WgslStruct {
        name: name.to_string(),
        vars: vec![WgslStructVar {
            name: "v".to_string(),
            type_: WgslStructVarType { rusty: "f32".to_string(), required_structs: Vec::new() },
            offset: 0,
        }],
    }
}

#[test]
fn asset_kinds_by_extension() {
    assert_eq!(asset_kind("wgsl"), AssetKind::Shader);
    assert_eq!(asset_kind("png"), AssetKind::Texture);
    assert_eq!(asset_kind("renderTexture"), AssetKind::RenderTexture);
    assert_eq!(asset_kind("blend"), AssetKind::Model);
    assert_eq!(asset_kind("PNG"), AssetKind::Other);
    assert_eq!(asset_kind("smf"), AssetKind::Other);
    assert_eq!(asset_kind(""), AssetKind::Other);
}

#[test]
fn slots_follow_listing_order() {
    let t = TextureJson {
        sampler: "Bilinear".to_string(),
        repeater: "Clamp".to_string(),
        format: "Rgba8UnormSrgb".to_string(),
        mipmaps: 3,
    };
    let (mut f, mut r, mut rs) = (String::new(), String::new(), String::new());
    let (mut g, mut e) = (String::new(), String::new());
    let mut s = AssetSlots::new();
    s.push_texture("a/wall.png", "wall_png", &t, &mut f, &mut r, &mut rs);
    s.push_mesh("a/car/Wheel.smf", "car_Wheel_smf", &mut g, &mut e);
    s.push_mesh("a/car/Body.smf", "car_Body_smf", &mut g, &mut e);
    s.push_texture("a/sky.png", "sky_png", &t, &mut f, &mut r, &mut rs);
    assert_eq!(s.files, vec!["a/wall.png", "a/car/Wheel.smf", "a/car/Body.smf", "a/sky.png"]);
    assert_eq!(s.meshes, 2);
    assert!(f.starts_with("\nlet wall_png = TextureS::new(context, ssf_data[0].as_ref(), "));
    assert!(f.contains("\nlet sky_png = TextureS::new(context, ssf_data[3].as_ref(), "));
    assert_eq!(
        g,
        "\nMesh::new(context, ssf_data[1].as_ref(), 32, Some(\"car_Wheel_smf\")).unwrap(),\nMesh::new(context, ssf_data[2].as_ref(), 32, Some(\"car_Body_smf\")).unwrap(),"
    );
    assert_eq!(e, "car_Wheel_smf = 0,car_Body_smf = 1,");
    assert_eq!(r, "\nwall_png,\nsky_png,");
    assert_eq!(rs, "\npub wall_png: TextureS,\npub sky_png: TextureS,");
}

#[test]
fn hierarchy_reader_ignores_marker_byte() {
    let mut p = smf_payload(1, &[1, 2, 3]);
    p[0] = 0;
    assert_eq!(parse_smf(&p, 3), Err(SmfError::TooShort));
    assert_eq!(read_smf_vertices(&p, 3), Some(SmfMesh { vertex_count: 1, vertex_data: vec![1, 2, 3] }));
    assert_eq!(read_smf_vertices(&p, 4), None);
    assert_eq!(read_smf_vertices(&p[..8], 0), None);
    assert_eq!(read_smf_vertices(&p[..9], 0), Some(SmfMesh { vertex_count: 1, vertex_data: Vec::new() }));
}

#[test]
fn analyses_of_a_clean_run_are_kept_in_order() {
    let runs = vec![Ok(vec![one_struct("UboA")]), Ok(Vec::new()), Ok(vec![one_struct("UboB")])];
    let got = gather_analyses(runs).unwrap();
    assert_eq!(got.len(), 3);
    assert_eq!(got[0][0].name, "UboA");
    assert!(got[1].is_empty());
    assert_eq!(got[2][0].name, "UboB");
    assert!(gather_analyses(Vec::new()).unwrap().is_empty());
}

#[test]
fn one_failed_shader_fails_the_run() {
    let runs = vec![Ok(vec![one_struct("UboA")]), Err("bad".to_string()), Ok(Vec::new())];
    assert_eq!(gather_analyses(runs).unwrap_err(), "errors while compiling wgsl");
}

#[test]
fn spans_of_laid_out_hierarchy() {
    for n in [1usize, 2, 3, 5, 8, 13] {
        let nodes = layout_bvh_nodes(n);
        let spans = node_spans(&nodes).unwrap();
        assert_eq!(spans.len(), nodes.len());
        assert_eq!(spans[0], (0, n as u32));
        for (i, node) in nodes.iter().enumerate() {
            if node.tri_count > 0 {
                assert_eq!(spans[i], (node.left_first, node.tri_count));
            } else {
                let c = node.left_first as usize;
                assert_eq!(spans[i], (spans[c].0, spans[c].1 + spans[c + 1].1));
            }
        }
    }
}

#[test]
fn spans_need_children_after_parent() {
    assert_eq!(node_spans(&vec![leaf(0, 0)]), None);
    assert_eq!(node_spans(&vec![leaf(1, 0), leaf(0, 1)]), None);
    assert_eq!(node_spans(&Vec::new()), Some(Vec::new()));
}

#[test]
fn spans_refuse_counts_past_u32() {
    let nodes = vec![leaf(1, 0), leaf(0, u32::MAX), leaf(0, 1)];
    assert_eq!(node_spans(&nodes), None);
    let nodes = vec![leaf(1, 0), leaf(0, 3), leaf(3, 4)];
    assert_eq!(node_spans(&nodes), Some(vec![(0, 7), (0, 3), (3, 4)]));
}

#[test]
fn any_stride_reads_a_file_without_vertices() {
    let p = smf_payload(0, &[]);
    assert_eq!(parse_smf(&p, u64::MAX), Ok(SmfMesh { vertex_count: 0, vertex_data: Vec::new() }));
}

#[test]
fn huge_stride_with_vertices_is_missing_data() {
    let p = smf_payload(1, &[1, 2, 3]);
    assert_eq!(parse_smf(&p, u64::MAX), Err(SmfError::MissingVertexData));
    assert_eq!(parse_smf(&p, 3), Ok(SmfMesh { vertex_count: 1, vertex_data: vec![1, 2, 3] }));
}

#[test]
fn ascii_punctuation_becomes_underscore() {
    assert_eq!(safe_mesh_name("a!b@c#1~Z"), "a_b_c_1_Z");
}

#[test]
fn end_frame_resets_mouse_movement() {
    let mut i = Inputs::default();
    assert_eq!(i.mouse_delta, (0, 0));
    i.mouse_delta = (1.5f32.to_bits(), (-2.0f32).to_bits());
    i.end_frame();
    assert_eq!(i.mouse_delta, (0, 0));
}

#[test]
fn ubo_entry_name_is_lower_cased() {
    let mut s = String::new();
    let mut f = String::new();
    let mut r = String::new();
    let mut rs = String::new();
    let res = create_rust_ubo_structs(&[one_struct("UboCamERA")], &mut s, &mut f, &mut r, &mut rs);
    assert_eq!(res, Ok(()));
    assert_eq!(r, "\nubocamera,");
    assert_eq!(rs, "\npub ubocamera: Ubo<UboCamERA>,");
}
