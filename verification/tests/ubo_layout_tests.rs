use smq_engine::analysis::wgsl_analisys_to_ubos;
use smq_engine::layout::{create_rust_ubo_structs, get_var_size_anigment, try_create_rust_ubo_structs};
use smq_engine::wgsl::{WgslStruct, WgslStructVar, WgslStructVarType};

fn var(name: &str, rusty: &str, required: &[&str], offset: u32) -> WgslStructVar {
    WgslStructVar {
        name: name.to_string(),
        type_: WgslStructVarType {
            rusty: rusty.to_string(),
            required_structs: required.iter().map(|s| s.to_string()).collect(),
        },
        offset,
    }
}

fn strukt(name: &str, vars: Vec<WgslStructVar>) -> WgslStruct {
    WgslStruct { name: name.to_string(), vars }
}

fn emit(ubos: &[WgslStruct]) -> (Result<(), String>, String, String, String, String) {
    let mut s = String::new();
    let mut f = String::new();
    let mut r = String::new();
    let mut rs = String::new();
    let res = create_rust_ubo_structs(ubos, &mut s, &mut f, &mut r, &mut rs);
    (res, s, f, r, rs)
}

const HEADER: &str = "\n#[repr(C)]\n#[derive(Copy, Clone, bytemuck::Pod, bytemuck::Zeroable)]\npub struct ";

fn default_header(name: &str) -> String {
    format!(
        "\n        impl Default for {} {{\n            fn default() -> Self {{\n                Self {{",
        name
    )
}

#[test]
fn builtin_member_layouts() {
    let cases: [(&str, u32, u32); 12] = [
        ("i32", 4, 4),
        ("u32", 4, 4),
        ("f32", 4, 4),
        ("Vec2", 8, 8),
        ("IVec2", 8, 8),
        ("UVec2", 8, 8),
        ("Vec3", 12, 16),
        ("UVec3", 12, 16),
        ("Vec4", 16, 16),
        ("IVec4", 16, 16),
        ("Mat3", 48, 16),
        ("Mat4", 64, 16),
    ];
    for (rusty, size, align) in cases {
        let mut s = String::new();
        let mut f = String::new();
        let mut r = String::new();
        let mut rs = String::new();
        let got = get_var_size_anigment(&var("x", rusty, &[], 0), &[], &mut s, &mut f, &mut r, &mut rs);
        assert_eq!(got, Ok((size, align)), "{}", rusty);
        assert!(s.is_empty() && f.is_empty() && r.is_empty() && rs.is_empty());
    }
}

#[test]
fn array_member_layouts() {
    let mut s = String::new();
    let mut f = String::new();
    let mut r = String::new();
    let mut rs = String::new();
    assert_eq!(
        get_var_size_anigment(&var("a", "[Vec3; 4]", &["Vec3"], 0), &[], &mut s, &mut f, &mut r, &mut rs),
        Ok((64, 16))
    );
    assert_eq!(
        get_var_size_anigment(&var("a", "[f32; 3]", &["f32"], 0), &[], &mut s, &mut f, &mut r, &mut rs),
        Ok((12, 4))
    );
    // a length that does not parse counts as 1
    assert_eq!(
        get_var_size_anigment(&var("a", "[Vec2; n]", &["Vec2"], 0), &[], &mut s, &mut f, &mut r, &mut rs),
        Ok((8, 8))
    );
}

#[test]
fn unknown_member_types() {
    let mut s = String::new();
    let mut f = String::new();
    let mut r = String::new();
    let mut rs = String::new();
    assert_eq!(
        get_var_size_anigment(&var("a", "Foo", &[], 0), &[], &mut s, &mut f, &mut r, &mut rs),
        Err("cant give aligment for something unknown: Foo".to_string())
    );
    assert_eq!(
        get_var_size_anigment(&var("a", "[Bar; 2]", &["Bar"], 0), &[], &mut s, &mut f, &mut r, &mut rs),
        Err("required struct doesnt exist: Bar".to_string())
    );
}

#[test]
fn ubo_struct_without_padding() {
    let ubo = strukt(
        "UboCamera",
        vec![var("view", "Mat4", &[], 0), var("pos", "Vec3", &[], 64), var("time", "f32", &[], 76)],
    );
    let (res, s, f, r, rs) = emit(&[ubo]);
    assert_eq!(res, Ok(()));
    let expected = format!(
        "{HEADER}UboCamera {{\npub view: Mat4,\npub pos: Vec3,\npub time: f32,\n}}\n{}\nview: Mat4::IDENTITY,\npos: Vec3::ZERO,\ntime: 0.0,\n}}\n}}\n}}\n\n",
        default_header("UboCamera")
    );
    assert_eq!(s, expected);
    assert_eq!(f, "\nlet mut ubocamera = Ubo::new(context, UboCamera::default());");
    assert_eq!(r, "\nubocamera,");
    assert_eq!(rs, "\npub ubocamera: Ubo<UboCamera>,");
}

#[test]
fn ubo_struct_with_inner_and_tail_padding() {
    let ubo = strukt("UboPad", vec![var("a", "f32", &[], 0), var("b", "Vec3", &[], 16)]);
    let (res, s, _, _, _) = emit(&[ubo]);
    assert_eq!(res, Ok(()));
    let expected = format!(
        "{HEADER}UboPad {{\npub a: f32,\npub _pad0: [u8; 12],\npub b: Vec3,\npub _pad1: [u8; 4],\n}}\n{}\na: 0.0,\n_pad0: [0; 12],\nb: Vec3::ZERO,\n_pad1: [0; 4],\n}}\n}}\n}}\n\n",
        default_header("UboPad")
    );
    assert_eq!(s, expected);
}

#[test]
fn overlapping_members_are_an_error() {
    let ubo = strukt("UboBad", vec![var("a", "Vec4", &[], 0), var("b", "f32", &[], 8)]);
    let (res, _, _, _, _) = emit(&[ubo]);
    assert_eq!(res, Err("overlap in: UboBad at: b".to_string()));
}

#[test]
fn nested_uniform_struct_array() {
    let light = strukt("UcLight", vec![var("color", "Vec3", &[], 0), var("power", "f32", &[], 12)]);
    let scene = strukt("UboScene", vec![var("lights", "[UcLight; 2]", &["UcLight"], 0), var("count", "u32", &[], 32)]);
    let (res, s, f, r, rs) = emit(&[light, scene]);
    assert_eq!(res, Ok(()));
    let light_code = format!(
        "{HEADER}UcLight {{\npub color: Vec3,\npub power: f32,\n}}\n{}\ncolor: Vec3::ZERO,\npower: 0.0,\n}}\n}}\n}}\n\n",
        default_header("UcLight")
    );
    let scene_code = format!(
        "{HEADER}UboScene {{\npub lights: [UcLight; 2],\npub count: u32,\npub _pad0: [u8; 12],\n}}\n{}\nlights: Default::default(),\ncount: 0,\n_pad0: [0; 12],\n}}\n}}\n}}\n\n",
        default_header("UboScene")
    );
    assert_eq!(s, format!("{light_code}{scene_code}"));
    assert_eq!(f, "\nlet mut uboscene = Ubo::new(context, UboScene::default());");
    assert_eq!(r, "\nuboscene,");
    assert_eq!(rs, "\npub uboscene: Ubo<UboScene>,");
}

#[test]
fn empty_struct_has_no_size() {
    let (res, s, _, _, _) = emit(&[strukt("UboEmpty", vec![])]);
    assert_eq!(res, Ok(()));
    let expected = format!("{HEADER}UboEmpty {{\n}}\n{}\n}}\n}}\n}}\n\n", default_header("UboEmpty"));
    assert_eq!(s, expected);
}

#[test]
fn merge_keeps_first_of_each_uniform_name() {
    let a = strukt("UboA", vec![var("x", "f32", &[], 0)]);
    let b = strukt("UcB", vec![var("y", "u32", &[], 0)]);
    let other = strukt("Vertex", vec![var("p", "Vec3", &[], 0)]);
    let groups = vec![vec![a.clone(), other.clone()], vec![b.clone(), a.clone()]];
    let merged = wgsl_analisys_to_ubos(&groups).unwrap();
    let names: Vec<&str> = merged.iter().map(|s| s.name.as_str()).collect();
    assert_eq!(names, vec!["UboA", "UcB"]);
}

#[test]
fn merge_refuses_conflicting_members() {
    let a = strukt("UboA", vec![var("x", "f32", &[], 0)]);
    let a2 = strukt("UboA", vec![var("x", "u32", &[], 0)]);
    let groups = vec![vec![a], vec![a2]];
    assert_eq!(
        wgsl_analisys_to_ubos(&groups).err(),
        Some("two structs with the same name have diffrent containts: UboA".to_string())
    );
}

#[test]
fn merge_of_nothing() {
    assert_eq!(wgsl_analisys_to_ubos(&[]).unwrap().len(), 0);
}

#[test]
fn struct_sizes_round_up_to_alignment() {
    let odd = strukt("UcOdd", vec![var("a", "Vec3", &[], 0)]);
    let small = strukt("UcSmall", vec![var("a", "f32", &[], 0), var("b", "Vec2", &[], 8)]);
    let ubos = vec![odd, small];
    for (name, expected) in [("UcOdd", (16u32, 16u32)), ("UcSmall", (16, 8))] {
        let mut s = String::new();
        let mut f = String::new();
        let mut r = String::new();
        let mut rs = String::new();
        let got = get_var_size_anigment(&var("x", name, &[name], 0), &ubos, &mut s, &mut f, &mut r, &mut rs).unwrap();
        assert_eq!(got, expected);
        assert_eq!(got.0 % got.1, 0);
        assert!(f.is_empty());
    }
}

fn try_emit(ubos: &[WgslStruct]) -> Option<Result<(), String>> {
    let mut s = String::new();
    let mut f = String::new();
    let mut r = String::new();
    let mut rs = String::new();
    try_create_rust_ubo_structs(ubos, &mut s, &mut f, &mut r, &mut rs)
}

#[test]
fn self_containing_struct_has_no_layout() {
    let ubos = vec![strukt("UboLoop", vec![var("next", "UboLoop", &["UboLoop"], 0)])];
    assert_eq!(try_emit(&ubos), None);
}

#[test]
fn mutually_containing_structs_have_no_layout() {
    let ubos = vec![
        strukt("UcA", vec![var("b", "UboB", &["UboB"], 0)]),
        strukt("UboB", vec![var("a", "UcA", &["UcA"], 0)]),
    ];
    assert_eq!(try_emit(&ubos), None);
}

#[test]
fn member_past_u32_has_no_layout() {
    let ubos = vec![strukt("UboFar", vec![var("x", "Vec4", &[], 0xffff_fff8)])];
    assert_eq!(try_emit(&ubos), None);
}

#[test]
fn array_past_u32_has_no_layout() {
    let ubos = vec![strukt("UboBig", vec![var("x", "[Vec4; 4294967295]", &["Vec4"], 0)])];
    assert_eq!(try_emit(&ubos), None);
}

#[test]
fn try_emit_matches_emit_when_layout_exists() {
    let ubos = vec![strukt("UboCam", vec![var("pos", "Vec3", &[], 0), var("fov", "f32", &[], 12)])];
    assert_eq!(try_emit(&ubos), Some(Ok(())));
    let (res, s, f, _r, _rs) = emit(&ubos);
    assert_eq!(res, Ok(()));
    assert!(s.contains("pub struct UboCam {"));
    assert!(f.contains("let mut ubocam = Ubo::new(context, UboCam::default());"));
    let bad = vec![strukt("UboBad", vec![var("a", "Foo", &[], 0)])];
    assert_eq!(try_emit(&bad), Some(Err("cant give aligment for something unknown: Foo".to_string())));
}

fn names_of(list: &[WgslStruct]) -> Vec<String> {
    list.iter().map(|s| s.name.clone()).collect()
}

#[test]
fn merge_ignores_how_structs_are_grouped() {
    let a = strukt("UboA", vec![var("x", "f32", &[], 0)]);
    let b = strukt("UcB", vec![var("y", "u32", &[], 0)]);
    let c = strukt("UboC", vec![var("z", "Vec4", &[], 0)]);
    let other = strukt("Vertex", vec![var("p", "Vec3", &[], 0)]);
    let grouped = vec![vec![a.clone(), other.clone()], vec![b.clone()], vec![a.clone(), c.clone()]];
    let flat = vec![vec![a.clone(), other.clone(), b.clone(), a.clone(), c.clone()]];
    let g = wgsl_analisys_to_ubos(&grouped).unwrap();
    let f = wgsl_analisys_to_ubos(&flat).unwrap();
    assert_eq!(names_of(&g), names_of(&f));
    assert_eq!(names_of(&g), vec!["UboA", "UcB", "UboC"]);
}

#[test]
fn second_merge_keeps_the_result() {
    let a = strukt("UboA", vec![var("x", "f32", &[], 0)]);
    let b = strukt("UcB", vec![var("y", "u32", &[], 0)]);
    let groups = vec![vec![a.clone(), strukt("Light", vec![])], vec![b.clone(), a.clone()]];
    let once = wgsl_analisys_to_ubos(&groups).unwrap();
    let twice = wgsl_analisys_to_ubos(&[once.clone()]).unwrap();
    assert_eq!(names_of(&once), names_of(&twice));
    assert_eq!(twice.len(), 2);
    assert_eq!(twice[0].vars.len(), 1);
    assert_eq!(twice[0].vars[0].name, "x");
    assert_eq!(twice[1].vars[0].type_.rusty, "u32");
}
