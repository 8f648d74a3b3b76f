use smq_engine::assets::{card_icon_name, icon_path};
use smq_engine::assets::{display_entries, AssetBrowser, AssetEntry};
use smq_engine::config::{
    BakeSettings, BindGroupJson, RenderTextureJson, Settings, SizePreset, TextureJson, UboJson,
    WgslJson,
};

fn entry(path: &str, name: &str, is_dir: bool) -> AssetEntry {
    AssetEntry { path: path.to_string(), name: name.to_string(), is_dir }
}

#[test]
fn folders_first_then_names_without_case() {
    let entries = vec![
        entry("a/zeta.png", "zeta.png", false),
        entry("a/Models", "Models", true),
        entry("a/alpha.wgsl", "alpha.wgsl", false),
        entry("a/b", "b", true),
        entry("a/Beta.png", "Beta.png", false),
    ];
    let shown: Vec<String> = display_entries(&entries).into_iter().map(|e| e.name).collect();
    assert_eq!(shown, vec!["b", "Models", "alpha.wgsl", "Beta.png", "zeta.png"]);
}

#[test]
fn repeated_folders_are_shown_once() {
    let entries = vec![
        entry("smq_proj/assets/code", "code", true),
        entry("game/src/code", "code", true),
        entry("game/src/main.rs", "main.rs", false),
        entry("smq_proj/assets/main.rs", "main.rs", false),
    ];
    let shown = display_entries(&entries);
    let paths: Vec<&str> = shown.iter().map(|e| e.path.as_str()).collect();
    assert_eq!(paths, vec!["smq_proj/assets/code", "game/src/main.rs", "smq_proj/assets/main.rs"]);
}

#[test]
fn equal_names_keep_their_order() {
    let entries = vec![entry("x/A", "A", false), entry("y/a", "a", false), entry("z/A", "A", false)];
    let paths: Vec<String> = display_entries(&entries).into_iter().map(|e| e.path).collect();
    assert_eq!(paths, vec!["x/A", "y/a", "z/A"]);
}

#[test]
fn browser_navigation() {
    let mut b = AssetBrowser::default();
    assert_eq!(b.path(), "smq_proj/assets");
    assert_eq!(b.breadcrumb(), "/");
    b.select("smq_proj/assets/models");
    b.open_folder("models");
    assert_eq!(b.selected(), None);
    b.open_folder("cars");
    assert_eq!(b.path(), "smq_proj/assets/models/cars");
    assert_eq!(b.breadcrumb(), "/models/cars");
    b.select("smq_proj/assets/models/cars/a.blend");
    assert!(b.is_selected("smq_proj/assets/models/cars/a.blend"));
    b.go_back();
    assert_eq!(b.path(), "smq_proj/assets/models");
    assert_eq!(b.selected(), None);
    b.go_back();
    b.go_back();
    assert_eq!(b.path(), "smq_proj/assets");
}

#[test]
fn browser_renaming() {
    let mut b = AssetBrowser::default();
    b.start_rename("smq_proj/assets/a.png", "a.png");
    assert!(b.is_renaming("smq_proj/assets/a.png"));
    assert_eq!(b.rename_buffer(), "a.png");
    assert_eq!(b.finish_rename("a.png"), None);
    assert!(!b.is_renaming("smq_proj/assets/a.png"));

    b.start_rename("smq_proj/assets/a.png", "a.png");
    b.set_rename_buffer("");
    assert_eq!(b.finish_rename("a.png"), None);

    b.start_rename("smq_proj/assets/a.png", "a.png");
    b.set_rename_buffer("wall.png");
    assert_eq!(b.finish_rename("a.png"), Some("wall.png".to_string()));
}

#[test]
fn browser_new_entries() {
    let mut b = AssetBrowser::default();
    b.open_folder("shaders");
    let target = b.start_new_entry("new_folder");
    assert_eq!(target, "smq_proj/assets/shaders/new_folder");
    assert!(b.is_renaming("smq_proj/assets/shaders/new_folder"));
    assert_eq!(b.rename_buffer(), "new_folder");
    b.clear_selection();
    assert_eq!(b.selected(), None);
}

#[test]
fn render_texture_presets() {
    let mut rt = RenderTextureJson::default();
    assert!(!rt.apply_preset(SizePreset::Hd720));
    assert!(rt.apply_preset(SizePreset::Uhd4k));
    assert_eq!((rt.width, rt.height), (3840, 2160));
    rt.apply_preset(SizePreset::Hd1080);
    assert_eq!((rt.width, rt.height), (1920, 1080));
    rt.apply_preset(SizePreset::Uhd8k);
    assert_eq!((rt.width, rt.height), (7680, 4320));
    rt.apply_preset(SizePreset::X24);
    assert_eq!((rt.width, rt.height), (384, 216));
    assert_eq!(rt.attachments.len(), 1);
}

#[test]
fn render_texture_attachments() {
    let mut rt = RenderTextureJson::default();
    rt.attachments[0].format = "R32Float".to_string();
    rt.add_attachment();
    assert_eq!(rt.attachments.len(), 2);
    assert_eq!(rt.attachments[0].format, "R32Float");
    assert_eq!(rt.attachments[1].format, "Rgba8UnormSrgb");
    assert!(!rt.attachments[1].usages_TEXTURE_BINDING);
    assert_eq!(rt.selected_attachment(1), 1);
    assert_eq!(rt.selected_attachment(2), 0);
    rt.remove_last_attachment();
    rt.remove_last_attachment();
    rt.remove_last_attachment();
    assert!(rt.attachments.is_empty());
    assert_eq!(rt.selected_attachment(0), 0);
}

#[test]
fn default_settings_records() {
    let t = TextureJson::default();
    assert_eq!((t.sampler.as_str(), t.repeater.as_str(), t.format.as_str(), t.mipmaps), ("Nearest", "Repeat", "Rgba8UnormSrgb", 1));
    let rt = RenderTextureJson::default();
    assert_eq!((rt.width, rt.height), (1280, 720));
    assert_eq!(rt.depth_attachment.as_deref(), Some("Depth32Float"));
    let u = UboJson::default();
    assert_eq!(u.stuff.len(), 1);
    assert_eq!((u.stuff[0].type_.as_str(), u.stuff[0].name.as_str()), ("Mat4", "var1"));
    assert!(!u.is_dynamic);
    let w = WgslJson::default();
    assert!(w.bindgroups.iter().all(|b| b.is_none()));
    assert_eq!(w.culling, "None");
    assert_eq!(w.depth_compare, "Less");
    assert_eq!(w.blend_mode, "Opaque");
    assert_eq!(w.topology, "TriangleList");
    assert!(w.is_full && w.write_depth && !w.is_compute);
    let bg = BindGroupJson::default();
    assert_eq!(bg.groups.len(), 1);
    assert!(bg.groups[0].is_none());
    let bs = BakeSettings::default();
    assert!(bs.generate_blit_code);
    assert_eq!(bs.render_texture_path, None);
    assert_eq!(bs.render_texture_attachment, "0");
    let s = Settings::default();
    assert_eq!(s.selected_setting, "");
}

#[test]
fn card_icons() {
    assert_eq!(card_icon_name(true, Some("png")), "folder");
    assert_eq!(card_icon_name(false, Some("PNG")), "png");
    assert_eq!(card_icon_name(false, None), "unknown");
    assert_eq!(icon_path("wgsl"), "assets/icons/wgsl.png");
}
