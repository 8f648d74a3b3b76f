use smq_engine::bake::descriptor_targets;
use smq_engine::analysis::{
    get_element_type, structs_from_types, ArraySizeModel, MemberRecord, ScalarKindModel, TypeRecord,
    TypeShape,
};
use smq_engine::bake::{
    adresat_str_to_code, append_blit_code, append_mesh_asset, append_render_texture_asset,
    append_texture_asset, archive_asset_name, descriptor_relative_path, is_known_address_mode,
    is_known_sampler, is_known_texture_format, path_to_var, sampler_str_to_code,
    texture_format_str_to_code,
};
use smq_engine::config::{BakeSettings, RenderTextureJson, TextureJson};
use smq_engine::shader::analize_wgsl_source;

const CAMERA_SHADER: &str = "
struct UcLight {
    color: vec3<f32>,
    power: f32,
}

struct UboCamera {
    view: mat4x4<f32>,
    pos: vec3<f32>,
    time: f32,
    lights: array<UcLight, 2>,
    counts: vec2<u32>,
}

@group(0) @binding(0) var<uniform> cam: UboCamera;

@vertex
fn vs_main() -> @builtin(position) vec4<f32> {
    return cam.view * vec4<f32>(cam.pos + cam.lights[0].color, cam.time);
}
";

#[test]
fn analysis_of_a_shader() {
    let structs = analize_wgsl_source(CAMERA_SHADER).unwrap();
    let names: Vec<&str> = structs.iter().map(|s| s.name.as_str()).collect();
    assert_eq!(names, vec!["UcLight", "UboCamera"]);
    let cam = &structs[1];
    let members: Vec<(&str, &str, u32)> = cam
        .vars
        .iter()
        .map(|v| (v.name.as_str(), v.type_.rusty.as_str(), v.offset))
        .collect();
    assert_eq!(
        members,
        vec![
            ("view", "Mat4", 0),
            ("pos", "Vec3", 64),
            ("time", "f32", 76),
            ("lights", "[UcLight; 2]", 80),
            ("counts", "UVec2", 112),
        ]
    );
    assert_eq!(cam.vars[3].type_.required_structs, vec!["UcLight".to_string()]);
    assert!(cam.vars[0].type_.required_structs.is_empty());
}

#[test]
fn analysis_rejects_bad_source() {
    assert!(analize_wgsl_source("struct {").is_err());
}

#[test]
fn analysis_rejects_bool_members() {
    let src = "
struct UboFlags { on: vec2<bool>, }
@compute @workgroup_size(1) fn main() { var f: UboFlags; }
";
    let r = analize_wgsl_source(src);
    assert!(r.is_err());
}

fn scalar(kind: ScalarKindModel) -> TypeRecord {
    TypeRecord {
        name: None,
        shape: TypeShape::Scalar,
        kind,
        array_size: ArraySizeModel::Dynamic,
        members: vec![],
    }
}

#[test]
fn element_types_from_a_table() {
    let table = vec![
        scalar(ScalarKindModel::Float),
        TypeRecord {
            name: None,
            shape: TypeShape::Vector(4),
            kind: ScalarKindModel::Sint,
            array_size: ArraySizeModel::Dynamic,
            members: vec![],
        },
        TypeRecord {
            name: None,
            shape: TypeShape::Matrix(3, 3),
            kind: ScalarKindModel::Float,
            array_size: ArraySizeModel::Dynamic,
            members: vec![],
        },
        TypeRecord {
            name: None,
            shape: TypeShape::Array(1),
            kind: ScalarKindModel::Bool,
            array_size: ArraySizeModel::Constant(8),
            members: vec![],
        },
        TypeRecord {
            name: None,
            shape: TypeShape::Matrix(2, 3),
            kind: ScalarKindModel::Float,
            array_size: ArraySizeModel::Dynamic,
            members: vec![],
        },
        TypeRecord {
            name: None,
            shape: TypeShape::Array(0),
            kind: ScalarKindModel::Bool,
            array_size: ArraySizeModel::Dynamic,
            members: vec![],
        },
        scalar(ScalarKindModel::Bool),
    ];
    assert_eq!(get_element_type(&table, 0).unwrap().rusty, "f32");
    assert_eq!(get_element_type(&table, 1).unwrap().rusty, "IVec4");
    assert_eq!(get_element_type(&table, 2).unwrap().rusty, "Mat3");
    let arr = get_element_type(&table, 3).unwrap();
    assert_eq!(arr.rusty, "[IVec4; 8]");
    assert_eq!(arr.required_structs, vec!["IVec4".to_string()]);
    assert_eq!(get_element_type(&table, 4).err(), Some("unknown Matrix size".to_string()));
    assert_eq!(get_element_type(&table, 5).err(), Some("dynamic array sizes unsupported".to_string()));
    assert_eq!(get_element_type(&table, 6).err(), Some("unknown scalar type".to_string()));
}

#[test]
fn structs_skip_builtin_names() {
    let table = vec![
        scalar(ScalarKindModel::Uint),
        TypeRecord {
            name: Some("_Hidden".to_string()),
            shape: TypeShape::Struct,
            kind: ScalarKindModel::Bool,
            array_size: ArraySizeModel::Dynamic,
            members: vec![MemberRecord { name: Some("a".to_string()), ty: 0, offset: 0 }],
        },
        TypeRecord {
            name: Some("UboA".to_string()),
            shape: TypeShape::Struct,
            kind: ScalarKindModel::Bool,
            array_size: ArraySizeModel::Dynamic,
            members: vec![MemberRecord { name: Some("a".to_string()), ty: 0, offset: 4 }],
        },
    ];
    let s = structs_from_types(&table).unwrap();
    assert_eq!(s.len(), 1);
    assert_eq!(s[0].name, "UboA");
    assert_eq!(s[0].vars[0].type_.rusty, "u32");
    assert_eq!(s[0].vars[0].offset, 4);
}

#[test]
fn variable_names_of_paths() {
    assert_eq!(path_to_var("smq_proj/assets/textures/wall.png"), "textures_wall_png");
    assert_eq!(path_to_var("smq_proj\\assets\\models\\car.blend"), "models_car_blend");
    assert_eq!(path_to_var("smq_proj/data/file/models/car/Wheel.smf"), "file_models_car_Wheel_smf");
    assert_eq!(archive_asset_name("smq_proj/data/file/textures/wall.png"), "file_textures_wall_png");
    assert_eq!(archive_asset_name("smq_proj/build/bvh.bin"), "smq_proj_build_bvh_bin");
}

#[test]
fn descriptor_paths() {
    assert_eq!(
        descriptor_relative_path("C:\\game\\smq_proj\\assets\\a\\b.png"),
        Some("a/b.png".to_string())
    );
    assert_eq!(descriptor_relative_path("smq_proj/assets/x.wgsl"), Some("x.wgsl".to_string()));
    assert_eq!(descriptor_relative_path("elsewhere/x.wgsl"), None);
}

#[test]
fn setting_spellings() {
    assert!(is_known_sampler("Trilinear") && !is_known_sampler("trilinear"));
    assert!(is_known_address_mode("Clamp") && !is_known_address_mode("Mirror"));
    assert!(is_known_texture_format("Bc7RgbaUnormSrgb") && !is_known_texture_format("R16Unorm"));
    assert_eq!(sampler_str_to_code("NearestMapped"), "smq_engine::SamplingMode::NearestMapped");
    assert_eq!(adresat_str_to_code("Clamp"), "AddressMode::ClampToEdge");
    assert_eq!(adresat_str_to_code("Repeat"), "AddressMode::Repeat");
    assert_eq!(texture_format_str_to_code("Rgba16Float"), "TextureFormat::Rgba16Float");
}

#[test]
fn texture_asset_code() {
    let t = TextureJson {
        sampler: "Bilinear".to_string(),
        repeater: "Clamp".to_string(),
        format: "Rgba8UnormSrgb".to_string(),
        mipmaps: 3,
    };
    let (mut f, mut r, mut rs) = (String::new(), String::new(), String::new());
    append_texture_asset("wall_png", 2, &t, &mut f, &mut r, &mut rs);
    assert_eq!(
        f,
        "\nlet wall_png = TextureS::new(context, ssf_data[2].as_ref(), smq_engine::SamplingMode::Bilinear, 3, TextureFormat::Rgba8UnormSrgb, AddressMode::ClampToEdge, Some(\"wall_png\"));"
    );
    assert_eq!(r, "\nwall_png,");
    assert_eq!(rs, "\npub wall_png: TextureS,");
}

#[test]
fn render_texture_asset_code() {
    let mut rt = RenderTextureJson::default();
    rt.attachments[0].usages_RENDER_ATTACHMENT = true;
    rt.attachments[0].usages_TEXTURE_BINDING = true;
    rt.depth_usages_RENDER_ATTACHMENT = true;
    let (mut f, mut r, mut rs) = (String::new(), String::new(), String::new());
    append_render_texture_asset("main_rt", &rt, &mut f, &mut r, &mut rs);
    assert_eq!(
        f,
        "\nlet main_rt = RenderTexture::new(context, 1280, 720, &[\n(TextureFormat::Rgba8UnormSrgb, TextureUsages::RENDER_ATTACHMENT | TextureUsages::TEXTURE_BINDING | TextureUsages::empty(), Some(\"main_rt_0\")),], Some((TextureFormat::Depth32Float, TextureUsages::RENDER_ATTACHMENT | TextureUsages::empty(), Some(\"main_rt_depth\"))));"
    );
    assert_eq!(r, "\nmain_rt,");
    assert_eq!(rs, "\npub main_rt: RenderTexture,");
}

#[test]
fn render_texture_without_depth_code() {
    let mut rt = RenderTextureJson::default();
    rt.depth_attachment = None;
    rt.attachments.clear();
    rt.width = 16;
    rt.height = 9;
    let (mut f, mut r, mut rs) = (String::new(), String::new(), String::new());
    append_render_texture_asset("rt", &rt, &mut f, &mut r, &mut rs);
    assert_eq!(f, "\nlet rt = RenderTexture::new(context, 16, 9, &[], None);");
}

#[test]
fn mesh_asset_code() {
    let (mut g, mut e) = (String::new(), String::new());
    append_mesh_asset("models_car_Wheel_smf", 4, 1, &mut g, &mut e);
    assert_eq!(g, "\nMesh::new(context, ssf_data[4].as_ref(), 32, Some(\"models_car_Wheel_smf\")).unwrap(),");
    assert_eq!(e, "models_car_Wheel_smf = 1,");
}

#[test]
fn blit_code_needs_a_render_texture() {
    let settings = BakeSettings::default();
    let (mut b, mut r, mut rs) = (String::from("x"), String::new(), String::new());
    assert_eq!(
        append_blit_code(&settings, &mut b, &mut r, &mut rs),
        Err("using blit gen wydouth setting renderTexture to blit".to_string())
    );
    assert_eq!(b, "x");
}

#[test]
fn blit_code_for_a_render_texture() {
    let settings = BakeSettings {
        generate_blit_code: true,
        render_texture_path: Some("smq_proj/assets/main.renderTexture".to_string()),
        render_texture_attachment: "1".to_string(),
    };
    let (mut b, mut r, mut rs) = (String::new(), String::new(), String::new());
    assert_eq!(append_blit_code(&settings, &mut b, &mut r, &mut rs), Ok(()));
    assert!(b.contains("main_renderTexture.attachments[1].get_texture_binding(ShaderStages::FRAGMENT, true)"));
    assert!(b.contains("let blitinfo = context.create_blit_pipeline(&blit_group);"));
    assert_eq!(r, "blitinfo,\n            blit_group,");
    assert_eq!(rs, "pub blitinfo: BlitInfo,\n            pub blit_group: BindGroupS,");
    let off = BakeSettings { generate_blit_code: false, ..BakeSettings::default() };
    let (mut b2, mut r2, mut rs2) = (String::new(), String::new(), String::new());
    assert_eq!(append_blit_code(&off, &mut b2, &mut r2, &mut rs2), Ok(()));
    assert!(b2.is_empty() && r2.is_empty() && rs2.is_empty());
}

#[test]
fn descriptor_target_paths() {
    assert_eq!(
        descriptor_targets("smq_proj/assets/tex/a.png"),
        Some(("smq_proj/data/file/tex/a.png".to_string(), "smq_proj/data/json/tex/a.png".to_string()))
    );
    assert_eq!(
        descriptor_targets("smq_proj/assets//abs.png"),
        Some(("/abs.png".to_string(), "/abs.png".to_string()))
    );
    assert_eq!(descriptor_targets("other/a.png"), None);
}
