use smq_engine::formats::{
    parse_sampler, parse_texture_usages, render_texture_plan, str_to_face_culling,
    str_to_texture_format, AddressModel, AstcBlockModel, AstcChannelModel, FaceModel,
    FilterModel, RenderTextureEdit, RenderTextureTextureEdit, TextureFormatModel, UsagesModel,
};

#[test]
fn face_culling_names() {
    assert_eq!(str_to_face_culling("Back"), Some(FaceModel::Back));
    assert_eq!(str_to_face_culling("Front"), Some(FaceModel::Front));
    assert_eq!(str_to_face_culling("None"), None);
    assert_eq!(str_to_face_culling("back"), None);
}

#[test]
fn sampler_is_case_insensitive() {
    let s = parse_sampler("Bilinear", "CLAMP");
    assert_eq!(s.mag_filter, FilterModel::Linear);
    assert_eq!(s.min_filter, FilterModel::Linear);
    assert_eq!(s.mipmap_filter, FilterModel::Nearest);
    assert_eq!(s.address_mode_u, AddressModel::ClampToEdge);
    assert_eq!(s.address_mode_v, AddressModel::ClampToEdge);
    assert_eq!(s.address_mode_w, AddressModel::ClampToEdge);
}

#[test]
fn sampler_trilinear_mirror() {
    let s = parse_sampler("trilinear", "Mirror");
    assert_eq!(s.mipmap_filter, FilterModel::Linear);
    assert_eq!(s.address_mode_u, AddressModel::MirrorRepeat);
}

#[test]
fn sampler_fallbacks() {
    let s = parse_sampler("whatever", "");
    assert_eq!(s.mag_filter, FilterModel::Nearest);
    assert_eq!(s.min_filter, FilterModel::Nearest);
    assert_eq!(s.mipmap_filter, FilterModel::Nearest);
    assert_eq!(s.address_mode_w, AddressModel::Repeat);
}

#[test]
fn usages_listed() {
    let u = parse_texture_usages(&["COPY_SRC".to_string(), "STORAGE_BINDING".to_string(), "junk".to_string()]);
    assert_eq!(
        u,
        UsagesModel {
            copy_src: true,
            copy_dst: false,
            texture_binding: false,
            storage_binding: true,
            render_attachment: false
        }
    );
}

#[test]
fn usages_default_when_none_known() {
    let expected = UsagesModel {
        copy_src: false,
        copy_dst: false,
        texture_binding: true,
        storage_binding: false,
        render_attachment: true,
    };
    assert_eq!(parse_texture_usages(&[]), expected);
    assert_eq!(parse_texture_usages(&["copy_src".to_string()]), expected);
}

#[test]
fn texture_format_names() {
    assert_eq!(str_to_texture_format("R8Unorm"), TextureFormatModel::R8Unorm);
    assert_eq!(str_to_texture_format("Rg16Float"), TextureFormatModel::Rg16Float);
    assert_eq!(str_to_texture_format("Depth32Float"), TextureFormatModel::Depth32Float);
    assert_eq!(str_to_texture_format("EacRg11Snorm"), TextureFormatModel::EacRg11Snorm);
    assert_eq!(str_to_texture_format("Rgb10a2Uint"), TextureFormatModel::Rgb10a2Uint);
}

#[test]
fn texture_format_fallback() {
    assert_eq!(str_to_texture_format("rgba8unorm"), TextureFormatModel::Bgra8UnormSrgb);
    assert_eq!(str_to_texture_format(""), TextureFormatModel::Bgra8UnormSrgb);
    assert_eq!(str_to_texture_format("Rgb9e5Ufloat"), TextureFormatModel::Bgra8UnormSrgb);
}

#[test]
fn texture_format_astc() {
    assert_eq!(
        str_to_texture_format("Astc4x4RgbaUnorm"),
        TextureFormatModel::Astc { block: AstcBlockModel::B4x4, channel: AstcChannelModel::Unorm }
    );
    assert_eq!(
        str_to_texture_format("Astc10x10RgbaUnormSrgb"),
        TextureFormatModel::Astc { block: AstcBlockModel::B10x10, channel: AstcChannelModel::UnormSrgb }
    );
    assert_eq!(
        str_to_texture_format("Astc12x12RgbaHdr"),
        TextureFormatModel::Astc { block: AstcBlockModel::B12x12, channel: AstcChannelModel::Hdr }
    );
    assert_eq!(str_to_texture_format("Astc7x7RgbaUnorm"), TextureFormatModel::Bgra8UnormSrgb);
    assert_eq!(str_to_texture_format("Astc4x4Rgba"), TextureFormatModel::Bgra8UnormSrgb);
}

#[test]
fn render_texture_plan_reads_attachments() {
    let edit = RenderTextureEdit {
        width: 640,
        height: 360,
        format: "Rgba8Unorm".to_string(),
        color_attachments: vec![
            RenderTextureTextureEdit {
                format: "Rgba16Float".to_string(),
                usage: vec!["STORAGE_BINDING".to_string()],
            },
            RenderTextureTextureEdit { format: "R32Float".to_string(), usage: vec![] },
        ],
        depth_format: Some("Depth32Float".to_string()),
    };
    let plan = render_texture_plan(&edit);
    assert_eq!(plan.width, 640);
    assert_eq!(plan.height, 360);
    assert_eq!(plan.attachments.len(), 2);
    assert_eq!(plan.attachments[0].format, TextureFormatModel::Rgba16Float);
    assert!(plan.attachments[0].usage.storage_binding);
    assert!(!plan.attachments[0].usage.render_attachment);
    assert_eq!(plan.attachments[1].format, TextureFormatModel::R32Float);
    assert!(plan.attachments[1].usage.render_attachment && plan.attachments[1].usage.texture_binding);
    let depth = plan.depth.unwrap();
    assert_eq!(depth.format, TextureFormatModel::Depth32Float);
    assert!(depth.usage.render_attachment && depth.usage.texture_binding);
}

#[test]
fn render_texture_plan_without_depth() {
    let edit = RenderTextureEdit {
        width: 1,
        height: 2,
        format: String::new(),
        color_attachments: vec![],
        depth_format: None,
    };
    let plan = render_texture_plan(&edit);
    assert!(plan.attachments.is_empty());
    assert!(plan.depth.is_none());
}
