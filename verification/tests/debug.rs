use voxl::debug::chat_manager::ChatManager;
use voxl::debug::chat::ChatState;
use voxl::debug::commands::{
    CommandResult, execute_command, resolve_teleport, error_line, cleared_line, game_mode_lines, toggle_fly_outcome,
};
use voxl::debug::text::{DebugText, FormattedLine, HorizontalDirection, TextAlign, TextAnchor, format_target_info, format_camera_facing};
use voxl::entities::game_mode::GameMode;
use voxl::voxel::face::VoxelFace;

fn message(r: &CommandResult) -> (bool, String) {
    match r {
        CommandResult::Success(m) => (true, m.clone()),
        CommandResult::Error(m) => (false, m.clone()),
        _ => panic!("no message"),
    }
}

#[test]
fn empty_and_unknown_commands() {
    assert_eq!(message(&execute_command("   ")), (false, "Commande vide".to_string()));
    assert_eq!(message(&execute_command("/Jump now")), (false, "Commande inconnue: /jump. Tapez /help".to_string()));
}

#[test]
fn simple_commands() {
    assert!(matches!(execute_command("/clear"), CommandResult::ClearChat));
    assert!(matches!(execute_command("/FLY"), CommandResult::ToggleFly));
    assert!(matches!(execute_command("  /pos  "), CommandResult::ShowPosition));
    let (ok, help) = message(&execute_command("/help"));
    assert!(ok);
    assert!(help.contains("/tp <x> <y> <z>"));
    assert!(help.starts_with("\n§cCommandes disponibles:"));
}

#[test]
fn gamemode_command() {
    assert!(matches!(execute_command("/gamemode creative"), CommandResult::SetGameMode(GameMode::Creative { fly_enabled: true })));
    assert!(matches!(execute_command("/gm S"), CommandResult::SetGameMode(GameMode::Spectator)));
    assert_eq!(message(&execute_command("/gm")), (false, "Usage: /gamemode <creative|spectator> ou /gm <c|s>".to_string()));
    assert_eq!(
        message(&execute_command("/gm Hardcore")),
        (false, "Mode inconnu: Hardcore. Modes disponibles: creative, spectator".to_string())
    );
}

#[test]
fn teleport_command() {
    assert_eq!(message(&execute_command("/tp 1 2")), (false, "Usage: /tp <x> <y> <z> ou /tp ~<x> ~<y> ~<z>".to_string()));
    match execute_command("/tp ~ ~5 10") {
        CommandResult::CheckCoordinates(x, y, z) => {
            assert!(x.relative && x.number.is_empty());
            assert!(y.relative && y.number == "5");
            assert!(!z.relative && z.number == "10");
            assert!(matches!(resolve_teleport(x, y, z, [false, true, true]), CommandResult::TeleportRelative(..)));
        }
        _ => panic!("expected coordinates"),
    }
    match execute_command("/tp 1 a 3") {
        CommandResult::CheckCoordinates(x, y, z) => {
            let r = resolve_teleport(x, y, z, [true, false, true]);
            assert_eq!(message(&r), (false, "Coordonnée Y invalide: a".to_string()));
        }
        _ => panic!("expected coordinates"),
    }
    match execute_command("/tp 1 2 3") {
        CommandResult::CheckCoordinates(x, y, z) => {
            assert!(matches!(resolve_teleport(x, y, z, [true, true, true]), CommandResult::Teleport(..)));
        }
        _ => panic!("expected coordinates"),
    }
}

#[test]
fn command_feedback_lines() {
    assert_eq!(error_line("x"), "§cErreur: x");
    assert_eq!(cleared_line(), "Chat effacé");
    assert_eq!(game_mode_lines(GameMode::Creative { fly_enabled: true }), vec!["§aMode de jeu changé: Créatif (Vol)".to_string()]);
    assert_eq!(game_mode_lines(GameMode::Spectator).len(), 2);
    let (m, l) = toggle_fly_outcome(Some(GameMode::Creative { fly_enabled: true }));
    assert_eq!(m, Some(GameMode::Creative { fly_enabled: false }));
    assert_eq!(l.unwrap(), "§aMode vol désactivé");
    let (m, l) = toggle_fly_outcome(Some(GameMode::Spectator));
    assert_eq!(m, Some(GameMode::Spectator));
    assert_eq!(l.unwrap(), "§cImpossible de toggle le fly en mode spectateur!");
    assert_eq!(toggle_fly_outcome(None), (None, None));
}

#[test]
fn chat_open_close_and_history() {
    let mut c = ChatState::new();
    assert!(!c.chat_open());
    c.toggle_chat();
    assert!(c.chat_open());
    assert!(c.chat_focused());
    assert!(c.take_focus_request());
    assert!(!c.take_focus_request());
    c.set_input("/help".to_string(), true);
    assert_eq!(c.finish_input(true), Some("/help".to_string()));
    assert!(!c.chat_open());
    assert_eq!(c.messages()[0].text, "> /help");
    assert!(c.messages()[0].is_command);
    c.open_chat();
    c.set_input("hello".to_string(), true);
    assert_eq!(c.finish_input(true), None);
    assert_eq!(c.messages()[1].text, "<Player> hello");
    c.open_chat();
    c.set_input("ignored".to_string(), true);
    assert_eq!(c.finish_input(false), None);
    assert_eq!(c.messages().len(), 2);
    assert_eq!(c.input(), "");
    c.clear_chat();
    assert!(c.messages().is_empty());
}

#[test]
fn chat_keeps_the_last_hundred_lines() {
    let mut c = ChatState::default();
    for i in 0..105 {
        c.add_chat_message(format!("line {}", i), false);
    }
    assert_eq!(c.messages().len(), 100);
    assert_eq!(c.messages()[0].text, "line 5");
    assert_eq!(c.messages()[99].text, "line 104");
}

#[test]
fn debug_text_lines() {
    let mut t = DebugText::new();
    assert!(t.is_empty());
    t.line_left("a");
    t.line_center("b");
    t.line_right("c");
    t.empty();
    t.line("d", TextAlign::Center);
    let lines: Vec<(String, TextAlign)> = t.lines().iter().map(|l| (l.text.clone(), l.align)).collect();
    assert_eq!(lines, vec![
        ("a".to_string(), TextAlign::Left),
        ("b".to_string(), TextAlign::Center),
        ("c".to_string(), TextAlign::Right),
        ("".to_string(), TextAlign::Left),
        ("d".to_string(), TextAlign::Center),
    ]);
    t.clear();
    assert!(t.is_empty());
    assert_eq!(FormattedLine::right("r").align, TextAlign::Right);
    assert_eq!(FormattedLine::left("l").text, "l");
    assert_eq!(FormattedLine::center("m").align, TextAlign::Center);
}

#[test]
fn anchors_and_overlay_lines() {
    assert_eq!(TextAnchor::TopLeft.horizontal_direction(), HorizontalDirection::Left);
    assert_eq!(TextAnchor::BottomCenter.horizontal_direction(), HorizontalDirection::Center);
    assert_eq!(TextAnchor::CenterRight.horizontal_direction(), HorizontalDirection::Right);
    assert_eq!(format_target_info(Some((1, -2, 30, VoxelFace::Top)), "Stone"), "Target: Stone (1,-2,30) [↑]");
    assert_eq!(format_target_info(None, "Stone"), "Target: None");
    assert_eq!(format_camera_facing(VoxelFace::West), "W West");
}

#[test]
fn received_lines_keep_their_colours() {
    let mut m = ChatManager::new();
    assert!(!m.is_dirty());
    m.add_text("hello".to_string());
    m.add_error("bad".to_string());
    m.add_success("good".to_string());
    m.add_info("note".to_string());
    assert!(m.is_dirty());
    let lines = m.messages();
    assert_eq!(lines.len(), 4);
    assert_eq!(lines[0].text, "hello");
    assert_eq!(lines[0].color, None);
    assert_eq!(lines[1].color.as_deref(), Some("#FF5555"));
    assert_eq!(lines[2].color.as_deref(), Some("#55FF55"));
    assert_eq!(lines[3].color.as_deref(), Some("#FFFF55"));
    m.mark_clean();
    assert!(!m.is_dirty());
    m.clear();
    assert!(m.messages().is_empty());
    assert!(m.is_dirty());
}

#[test]
fn received_lines_are_bounded() {
    let mut m = ChatManager::default();
    for i in 0..105 {
        m.add_text(format!("line {}", i));
    }
    assert_eq!(m.messages().len(), 100);
    assert_eq!(m.messages()[0].text, "line 5");
    assert_eq!(m.messages()[99].text, "line 104");
}
