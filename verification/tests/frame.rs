use voxl::frame::{FrameStep, plan_frame};
use voxl::input::keys::Key;
use voxl::input::manager::InputManager;

fn ch(s: &str) -> Key {
    Key::Character(s.to_string())
}

fn named(s: &str) -> Key {
    Key::Named(s.to_string())
}

#[test]
fn quiet_frame_runs_the_world_and_updates_the_highlight() {
    let m = InputManager::default();
    let steps = plan_frame(m.state(), false, false, false);
    assert_eq!(steps, vec![FrameStep::RunWorldSystems, FrameStep::UpdateHighlight]);
}

#[test]
fn opening_chat_releases_a_captured_mouse_and_stops_the_world() {
    let mut m = InputManager::default();
    m.set_mouse_captured(true);
    m.on_key_press(ch("t"));
    m.on_mouse_press(1);
    let steps = plan_frame(m.state(), false, false, false);
    assert_eq!(
        steps,
        vec![FrameStep::OpenChat, FrameStep::ReleaseMouse, FrameStep::UpdateHighlight]
    );
}

#[test]
fn chat_does_not_reopen_right_after_closing() {
    let mut m = InputManager::default();
    m.on_key_press(ch("t"));
    let steps = plan_frame(m.state(), false, false, true);
    assert_eq!(
        steps,
        vec![FrameStep::CaptureMouse, FrameStep::RunWorldSystems, FrameStep::UpdateHighlight]
    );
}

#[test]
fn escape_closes_an_open_chat() {
    let mut m = InputManager::default();
    m.on_key_press(named("Escape"));
    let steps = plan_frame(m.state(), true, false, true);
    assert_eq!(steps, vec![FrameStep::CloseChat, FrameStep::RunWorldSystems]);
}

#[test]
fn block_edits_need_a_captured_mouse() {
    let mut m = InputManager::default();
    m.on_mouse_press(1);
    m.on_mouse_press(3);
    m.on_mouse_press(4);
    let steps = plan_frame(m.state(), false, false, false);
    assert_eq!(
        steps,
        vec![FrameStep::RunWorldSystems, FrameStep::NextBlock, FrameStep::UpdateHighlight]
    );
    m.set_mouse_captured(true);
    let steps = plan_frame(m.state(), false, false, false);
    assert_eq!(
        steps,
        vec![
            FrameStep::RunWorldSystems,
            FrameStep::BreakBlock,
            FrameStep::PlaceBlock,
            FrameStep::NextBlock,
            FrameStep::UpdateHighlight
        ]
    );
}

#[test]
fn capture_toggle_comes_before_the_edits() {
    let mut m = InputManager::default();
    m.on_key_press(named("Enter"));
    m.on_mouse_press(2);
    let steps = plan_frame(m.state(), false, false, false);
    assert_eq!(
        steps,
        vec![
            FrameStep::RunWorldSystems,
            FrameStep::CaptureMouse,
            FrameStep::PickBlock,
            FrameStep::UpdateHighlight
        ]
    );
}

#[test]
fn settings_menu_blocks_everything_but_chat_steps() {
    let mut m = InputManager::default();
    m.set_mouse_captured(true);
    m.on_key_press(named("F3"));
    m.on_mouse_press(1);
    let steps = plan_frame(m.state(), false, true, false);
    assert!(steps.is_empty());
}

#[test]
fn function_keys_in_order() {
    let mut m = InputManager::default();
    m.set_mouse_captured(true);
    m.on_key_press(named("F4"));
    m.on_key_press(named("F6"));
    m.on_key_press(ch("g"));
    m.on_key_press(ch("f"));
    m.on_key_press(named("F3"));
    let steps = plan_frame(m.state(), false, false, false);
    assert_eq!(
        steps,
        vec![
            FrameStep::RunWorldSystems,
            FrameStep::ToggleDebugUi,
            FrameStep::ToggleFly,
            FrameStep::ToggleChunkBorders,
            FrameStep::ToggleSettings,
            FrameStep::ReleaseMouse,
            FrameStep::CycleGameMode,
            FrameStep::UpdateHighlight
        ]
    );
}
