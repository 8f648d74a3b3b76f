use smq_engine::editor::{panel_for_extension, EditorTab, Inspector, InspectorPanel};
use smq_engine::input::{InputState, Inputs, KeyEventModel};
use smq_engine::logger::LogExpect;

const PRESS: KeyEventModel = KeyEventModel { pressed: true, repeat: false };
const REPEAT: KeyEventModel = KeyEventModel { pressed: true, repeat: true };
const RELEASE: KeyEventModel = KeyEventModel { pressed: false, repeat: false };

#[test]
fn press_then_frame() {
    let mut i = Inputs::default();
    i.on_input(PRESS, 17);
    assert!(i.down(17) && i.pressed(17) && !i.released(17));
    assert!(!i.down(18));
    i.end_frame();
    assert!(i.down(17) && !i.pressed(17) && !i.released(17));
}

#[test]
fn repeat_does_not_count_as_press() {
    let mut i = InputState::default();
    i.on_input(REPEAT, 3);
    assert!(i.down(3));
    assert!(!i.pressed(3));
}

#[test]
fn tap_within_one_frame() {
    let mut i = Inputs::default();
    i.on_input(PRESS, 5);
    i.on_input(RELEASE, 5);
    assert!(!i.down(5) && i.pressed(5) && i.released(5));
    i.end_frame();
    assert!(!i.down(5) && !i.pressed(5) && !i.released(5));
}

#[test]
fn tab_names_and_order() {
    let names: Vec<&str> = EditorTab::all().iter().map(|t| t.name()).collect();
    assert_eq!(names, vec!["assets", "inspector", "viewport", "scene", "settings"]);
}

#[test]
fn inspector_follows_selection_unless_locked() {
    let mut ins = Inspector::default();
    assert!(!ins.locked());
    assert_eq!(ins.path(), None);
    assert_eq!(ins.lock_text(), "Unlocked");
    ins.sync_selection(Some("smq_proj/assets/a.png"));
    assert_eq!(ins.path(), Some("smq_proj/assets/a.png"));
    ins.toggle_lock();
    assert_eq!(ins.lock_text(), "Locked");
    ins.sync_selection(Some("smq_proj/assets/b.png"));
    assert_eq!(ins.path(), Some("smq_proj/assets/a.png"));
    ins.toggle_lock();
    ins.sync_selection(None);
    assert_eq!(ins.path(), None);
}

#[test]
fn inspector_panels() {
    assert_eq!(panel_for_extension("png"), InspectorPanel::Image);
    assert_eq!(panel_for_extension("exr"), InspectorPanel::Image);
    assert_eq!(panel_for_extension("jpg"), InspectorPanel::Image);
    assert_eq!(panel_for_extension("renderTexture"), InspectorPanel::RenderTexture);
    assert_eq!(panel_for_extension("blend"), InspectorPanel::Model);
    assert_eq!(panel_for_extension("ubo"), InspectorPanel::Ubo);
    assert_eq!(panel_for_extension("wgsl"), InspectorPanel::Wgsl);
    assert_eq!(panel_for_extension("bindGroup"), InspectorPanel::BindGroup);
    assert_eq!(panel_for_extension("PNG"), InspectorPanel::Other);
    assert_eq!(panel_for_extension(""), InspectorPanel::Other);
}

#[test]
fn log_expect_takes_value() {
    let r: Result<u32, String> = Ok(4);
    assert_eq!(r.log_expect("must hold"), 4);
    assert_eq!(Some("x").log_expect("must hold"), "x");
}
