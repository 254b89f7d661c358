use voxl::input::action::{GameAction, format_action_name};
use voxl::input::bindings::{KeyBindings, KeyBindingsConfig, join_with_commas, keys_for_action};
use voxl::input::keys::{CanonicalKey, InputButton, Key, string_to_key, button_matches};
use voxl::input::manager::InputManager;

fn ch(s: &str) -> Key {
    Key::Character(s.to_string())
}

fn named(s: &str) -> Key {
    Key::Named(s.to_string())
}

#[test]
fn action_names_round_trip() {
    for i in 0..25 {
        let a = GameAction::from_index(i);
        assert_eq!(a.index(), i);
        assert_eq!(GameAction::from_name(a.name()), Some(a));
    }
    assert_eq!(GameAction::from_name("Jump"), None);
    assert_eq!(GameAction::OpenSettings.name(), "OpenSettings");
    assert_eq!(format_action_name(GameAction::MoveForward), "Avancer");
    assert_eq!(format_action_name(GameAction::PreviousBlockType), "Bloc précédent");
    assert_eq!(format_action_name(GameAction::OpenSettings), "Paramètres");
}

#[test]
fn button_string_forms() {
    assert_eq!(InputButton::char('z'), InputButton::Key("KeyZ".to_string()));
    assert_eq!(InputButton::char('-'), InputButton::Key("Key-".to_string()));
    assert_eq!(InputButton::named("Space"), InputButton::Key("NamedSpace".to_string()));
    assert_eq!(InputButton::mouse(3), InputButton::Mouse(3));
    assert_eq!(InputButton::mouse(3).to_string_repr(), "Mouse3");
    assert_eq!(InputButton::char('q').to_string_repr(), "KeyQ");
    assert_eq!(InputButton::from_string_repr("Mouse12"), Some(InputButton::Mouse(12)));
    assert_eq!(InputButton::from_string_repr("Mouse+7"), Some(InputButton::Mouse(7)));
    assert_eq!(InputButton::from_string_repr("MouseX"), None);
    assert_eq!(InputButton::from_string_repr("Mouse70000"), None);
    assert_eq!(InputButton::from_string_repr("MouseMouse4"), Some(InputButton::Mouse(4)));
    assert_eq!(InputButton::from_string_repr("KeyA"), Some(InputButton::Key("KeyA".to_string())));
    for m in [0u16, 1, 9, 10, 255, 65535] {
        assert_eq!(InputButton::from_string_repr(&InputButton::mouse(m).to_string_repr()), Some(InputButton::Mouse(m)));
    }
}

#[test]
fn binding_names_stand_for_keys() {
    assert_eq!(string_to_key("KeyZ"), Some(ch("Z")));
    assert_eq!(string_to_key("KeyKeyQ"), Some(ch("Q")));
    assert_eq!(string_to_key("Key"), None);
    assert_eq!(string_to_key("NamedF3"), Some(named("F3")));
    assert_eq!(string_to_key("NamedTab"), None);
    assert_eq!(string_to_key("Mouse1"), None);
    assert!(button_matches(&InputButton::char('z'), &ch("z")));
    assert!(button_matches(&InputButton::char('z'), &ch("Z")));
    assert!(!button_matches(&InputButton::char('z'), &ch("s")));
    assert!(!button_matches(&InputButton::char('z'), &ch("")));
    assert!(button_matches(&InputButton::named("Escape"), &named("Escape")));
    assert!(!button_matches(&InputButton::named("Escape"), &Key::Dead));
    assert!(!button_matches(&InputButton::mouse(1), &ch("1")));
}

#[test]
fn canonical_keys() {
    assert_eq!(CanonicalKey::from_key(&ch("Abc")), Some(CanonicalKey::Character('a')));
    assert_eq!(CanonicalKey::from_key(&named("Shift")), Some(CanonicalKey::Named("Shift".to_string())));
    assert_eq!(CanonicalKey::from_key(&Key::Dead), None);
    assert_eq!(CanonicalKey::from_key(&Key::Unidentified), None);
    assert_eq!(CanonicalKey::from_key(&ch("")), None);
    assert_eq!(CanonicalKey::Character('x').to_key(), ch("x"));
}

#[test]
fn default_bindings() {
    let kb = KeyBindings::default();
    assert_eq!(kb.get_bindings(GameAction::MoveForward), &[InputButton::Key("KeyZ".to_string())]);
    assert_eq!(kb.get_bindings(GameAction::MoveUp), &[InputButton::Key("NamedSpace".to_string())]);
    assert_eq!(kb.get_bindings(GameAction::BreakBlock), &[InputButton::Mouse(1)]);
    assert_eq!(kb.get_bindings(GameAction::PickBlock), &[InputButton::Mouse(2)]);
    assert_eq!(kb.get_bindings(GameAction::OpenSettings), &[InputButton::Key("NamedF4".to_string())]);
    assert!(kb.get_bindings(GameAction::LookUp).is_empty());
    assert!(kb.is_key_bound(&ch("z"), GameAction::MoveForward));
    assert!(kb.is_key_bound(&ch("Z"), GameAction::MoveForward));
    assert!(!kb.is_key_bound(&ch("w"), GameAction::MoveForward));
    assert!(kb.is_key_bound(&named("F3"), GameAction::ToggleDebugUI));
    assert!(kb.is_mouse_bound(3, GameAction::PlaceBlock));
    assert!(!kb.is_mouse_bound(3, GameAction::BreakBlock));
    assert!(kb.is_mouse_bound(4, GameAction::NextBlockType));
}

#[test]
fn bind_and_unbind() {
    let mut kb = KeyBindings::default();
    kb.bind(GameAction::MoveForward, InputButton::char('w'));
    assert!(kb.is_key_bound(&ch("w"), GameAction::MoveForward));
    assert!(kb.is_key_bound(&ch("z"), GameAction::MoveForward));
    kb.bind(GameAction::LookUp, InputButton::mouse(8));
    assert!(kb.is_mouse_bound(8, GameAction::LookUp));
    kb.unbind(GameAction::MoveForward, &InputButton::char('z'));
    assert!(!kb.is_key_bound(&ch("z"), GameAction::MoveForward));
    assert_eq!(kb.get_bindings(GameAction::MoveForward), &[InputButton::Key("KeyW".to_string())]);
    kb.unbind(GameAction::LookDown, &InputButton::mouse(1));
    assert!(kb.get_bindings(GameAction::LookDown).is_empty());
}

#[test]
fn config_round_trip() {
    let kb = KeyBindings::default();
    let cfg = kb.to_config();
    // Four look actions have no slot.
    assert_eq!(cfg.bindings.len(), 21);
    assert_eq!(cfg.bindings[0], ("MoveForward".to_string(), vec!["KeyZ".to_string()]));
    let back = KeyBindings::from_config(&cfg);
    for i in 0..25 {
        let a = GameAction::from_index(i);
        assert_eq!(back.get_bindings(a), kb.get_bindings(a));
    }
}

#[test]
fn from_config_skips_what_it_cannot_read() {
    let cfg = KeyBindingsConfig {
        bindings: vec![
            ("Jump".to_string(), vec!["KeyJ".to_string()]),
            ("OpenChat".to_string(), vec!["MouseX".to_string()]),
            ("ToggleFly".to_string(), vec!["MouseX".to_string(), "Mouse7".to_string(), "KeyV".to_string()]),
            ("MoveLeft".to_string(), vec!["KeyA".to_string()]),
            ("MoveLeft".to_string(), vec!["KeyH".to_string()]),
        ],
    };
    let kb = KeyBindings::from_config(&cfg);
    assert!(kb.get_bindings(GameAction::OpenChat).is_empty());
    assert_eq!(kb.get_bindings(GameAction::ToggleFly), &[InputButton::Mouse(7), InputButton::Key("KeyV".to_string())]);
    assert_eq!(kb.get_bindings(GameAction::MoveLeft), &[InputButton::Key("KeyH".to_string())]);
    assert!(kb.get_bindings(GameAction::MoveForward).is_empty());
}

#[test]
fn key_press_and_release() {
    let mut m = InputManager::default();
    m.on_key_press(ch("z"));
    assert!(m.state().is_held(GameAction::MoveForward));
    assert!(m.state().just_pressed(GameAction::MoveForward));
    m.update();
    assert!(m.state().is_held(GameAction::MoveForward));
    assert!(!m.state().just_pressed(GameAction::MoveForward));
    // Pressing again while held presses nothing new.
    m.on_key_press(ch("Z"));
    assert!(!m.state().just_pressed(GameAction::MoveForward));
    m.on_key_release(&ch("z"));
    assert!(!m.state().is_held(GameAction::MoveForward));
    assert!(m.state().just_released(GameAction::MoveForward));
    m.update();
    assert!(!m.state().just_released(GameAction::MoveForward));
}

#[test]
fn release_keeps_actions_another_held_key_fires() {
    let mut kb = KeyBindings::default();
    kb.bind(GameAction::MoveForward, InputButton::char('w'));
    let mut m = InputManager::with_bindings(kb);
    m.on_key_press(ch("z"));
    m.on_key_press(ch("w"));
    m.on_key_release(&ch("z"));
    assert!(m.state().is_held(GameAction::MoveForward));
    assert!(!m.state().just_released(GameAction::MoveForward));
    m.on_key_release(&ch("w"));
    assert!(!m.state().is_held(GameAction::MoveForward));
    assert!(m.state().just_released(GameAction::MoveForward));
}

#[test]
fn dead_keys_do_nothing() {
    let mut m = InputManager::default();
    m.on_key_press(Key::Dead);
    m.on_key_release(&Key::Unidentified);
    for i in 0..25 {
        let a = GameAction::from_index(i);
        assert!(!m.state().is_held(a));
        assert!(!m.state().just_pressed(a));
        assert!(!m.state().just_released(a));
    }
}

#[test]
fn mouse_press_and_release() {
    let mut m = InputManager::default();
    m.on_mouse_press(1);
    assert!(m.state().is_held(GameAction::BreakBlock));
    assert!(m.state().just_pressed(GameAction::BreakBlock));
    m.update();
    m.on_mouse_press(1);
    // A mouse press is always a fresh press.
    assert!(m.state().just_pressed(GameAction::BreakBlock));
    m.on_mouse_release(1);
    assert!(!m.state().is_held(GameAction::BreakBlock));
    assert!(m.state().just_released(GameAction::BreakBlock));
    m.on_mouse_press(9);
    for i in 0..25 {
        assert!(!m.state().is_held(GameAction::from_index(i)));
    }
}

#[test]
fn mouse_capture_flag() {
    let mut m = InputManager::default();
    assert!(!m.state().is_mouse_captured());
    m.set_mouse_captured(true);
    assert!(m.state().is_mouse_captured());
    m.update();
    assert!(m.state().is_mouse_captured());
}

#[test]
fn settings_list_the_keys_of_an_action() {
    let config = KeyBindings::default_bindings().to_config();
    assert_eq!(keys_for_action(&config, GameAction::MoveForward), "KeyZ");
    assert_eq!(keys_for_action(&config, GameAction::BreakBlock), "Mouse1");
    assert_eq!(keys_for_action(&config, GameAction::LookUp), "Non assigné");
    let custom = KeyBindingsConfig {
        bindings: vec![
            ("MoveUp".to_string(), vec!["NamedSpace".to_string(), "KeyE".to_string(), "Mouse4".to_string()]),
            ("MoveUp".to_string(), vec!["KeyR".to_string()]),
        ],
    };
    assert_eq!(keys_for_action(&custom, GameAction::MoveUp), "KeyR");
    assert_eq!(join_with_commas(&vec!["a".to_string(), "b".to_string(), "c".to_string()]), "a, b, c");
    assert_eq!(join_with_commas(&vec![]), "");
}

#[test]
fn bind_then_unbind_restores_the_bindings() {
    let mut kb = KeyBindings::default();
    let before = kb.get_bindings(GameAction::MoveUp).to_vec();
    let forward = kb.get_bindings(GameAction::MoveForward).to_vec();
    kb.bind(GameAction::MoveUp, InputButton::mouse(9));
    let mut expected = before.clone();
    expected.push(InputButton::mouse(9));
    assert_eq!(kb.get_bindings(GameAction::MoveUp), expected.as_slice());
    assert_eq!(kb.get_bindings(GameAction::MoveForward), forward.as_slice());
    kb.unbind(GameAction::MoveUp, &InputButton::mouse(9));
    assert_eq!(kb.get_bindings(GameAction::MoveUp), before.as_slice());
}
