use photon_engine::app::{UiState, WindowMode};
use photon_engine::console::{parse_command, run_console_command, ConsoleAction};

fn run(state: &mut UiState, line: &str, current: &str) -> (Vec<String>, ConsoleAction) {
    run_console_command(state, parse_command(line).unwrap(), &current.to_string())
}

#[test]
fn flashlight_and_noclip_switch_the_ui_state() {
    let mut s = UiState::new(WindowMode::Windowed);
    assert!(!s.noclip);
    let (lines, action) = run(&mut s, "flashlight", "");
    assert_eq!(lines, vec!["Flashlight ON".to_string()]);
    assert!(matches!(action, ConsoleAction::Nothing));
    assert!(s.flashlight);
    let (lines, _) = run(&mut s, "flash", "");
    assert_eq!(lines, vec!["Flashlight OFF".to_string()]);
    assert!(!s.flashlight);
    let (lines, action) = run(&mut s, "noclip", "");
    assert_eq!(lines, vec!["Noclip ON (WASD=move, Space=up, C/Ctrl=down, Shift=fast)".to_string()]);
    assert!(matches!(action, ConsoleAction::StopPlayer));
    assert!(s.noclip);
    let (lines, _) = run(&mut s, "noclip", "");
    assert_eq!(lines, vec!["Noclip OFF".to_string()]);
    assert!(!s.noclip);
}

#[test]
fn replies_and_actions() {
    let mut s = UiState::new(WindowMode::Windowed);
    let start = s;
    let (lines, _) = run(&mut s, "help", "");
    assert_eq!(lines.len(), 14);
    assert_eq!(lines[0], "Available commands:");
    assert_eq!(lines[13], "  map save          - Save current map");
    assert_eq!(run(&mut s, "version", "").0, vec!["PhotonEngine v0.1".to_string()]);
    assert_eq!(run(&mut s, "warp", "").0, vec!["Unknown command: warp".to_string()]);
    assert_eq!(run(&mut s, "fov 200", "").0, vec!["FOV set to 110\u{00b0} (restart applies)".to_string()]);
    assert_eq!(run(&mut s, "map", "").0.len(), 5);
    assert!(matches!(run(&mut s, "clear", "").1, ConsoleAction::ClearLog));
    assert!(matches!(run(&mut s, "exit", "").1, ConsoleAction::Quit));
    assert!(matches!(run(&mut s, "map list", "").1, ConsoleAction::ListMaps));
    match run(&mut s, "tp 1 2 3", "").1 {
        ConsoleAction::Teleport(x, y, z) => assert_eq!((x.as_str(), y.as_str(), z.as_str()), ("1", "2", "3")),
        other => panic!("unexpected {:?}", other),
    }
    match run(&mut s, "map new arena", "").1 {
        ConsoleAction::CreateMap(n) => assert_eq!(n, "arena"),
        other => panic!("unexpected {:?}", other),
    }
    match run(&mut s, "map arena", "").1 {
        ConsoleAction::LoadMap(n) => assert_eq!(n, "arena"),
        other => panic!("unexpected {:?}", other),
    }
    assert_eq!(s, start);
}

#[test]
fn saving_needs_a_loaded_map() {
    let mut s = UiState::new(WindowMode::Windowed);
    let (lines, action) = run(&mut s, "map save", "");
    assert_eq!(lines, vec!["No map loaded to save".to_string()]);
    assert!(matches!(action, ConsoleAction::Nothing));
    let (lines, action) = run(&mut s, "map save", "house");
    assert!(lines.is_empty());
    match action {
        ConsoleAction::SaveMap(n) => assert_eq!(n, "house"),
        other => panic!("unexpected {:?}", other),
    }
}
