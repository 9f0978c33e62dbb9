use photon_engine::console::{
    clamp_fov, console_line_kind, decimal_string, fov_reply, map_list_reply, map_loaded_reply,
    parse_command, parse_u32, submit_console_line, ConsoleCommand, LineKind,
};

fn cmd(line: &str) -> Option<ConsoleCommand> {
    parse_command(line)
}

fn chars(s: &str) -> Vec<char> {
    s.chars().collect()
}

#[test]
fn blank_lines_are_no_command() {
    assert!(cmd("").is_none());
    assert!(cmd("   \t ").is_none());
}

#[test]
fn simple_commands() {
    assert!(matches!(cmd("help"), Some(ConsoleCommand::Help)));
    assert!(matches!(cmd("  clear  "), Some(ConsoleCommand::Clear)));
    assert!(matches!(cmd("version extra"), Some(ConsoleCommand::Version)));
    assert!(matches!(cmd("quit"), Some(ConsoleCommand::Quit)));
    assert!(matches!(cmd("exit"), Some(ConsoleCommand::Quit)));
    assert!(matches!(cmd("noclip"), Some(ConsoleCommand::Noclip)));
    assert!(matches!(cmd("flash"), Some(ConsoleCommand::Flashlight)));
    assert!(matches!(cmd("flashlight"), Some(ConsoleCommand::Flashlight)));
    assert!(matches!(cmd("shadow"), Some(ConsoleCommand::Shadows)));
    assert!(matches!(cmd("shadows"), Some(ConsoleCommand::Shadows)));
}

#[test]
fn commands_are_case_sensitive() {
    match cmd("HELP") {
        Some(ConsoleCommand::Unknown(w)) => assert_eq!(w, "HELP"),
        other => panic!("unexpected {:?}", other),
    }
}

#[test]
fn teleport_needs_three_words() {
    match cmd("tp 1 -2.5 3e2") {
        Some(ConsoleCommand::Teleport(x, y, z)) => {
            assert_eq!((x.as_str(), y.as_str(), z.as_str()), ("1", "-2.5", "3e2"));
        }
        other => panic!("unexpected {:?}", other),
    }
    assert!(matches!(cmd("tp 1 2"), Some(ConsoleCommand::TeleportUsage)));
    assert!(matches!(cmd("tp 1 2 3 4"), Some(ConsoleCommand::TeleportUsage)));
}

#[test]
fn fov_is_clamped() {
    assert!(matches!(cmd("fov 90"), Some(ConsoleCommand::Fov(90))));
    assert!(matches!(cmd("fov 10"), Some(ConsoleCommand::Fov(50))));
    assert!(matches!(cmd("fov 500"), Some(ConsoleCommand::Fov(110))));
    assert!(matches!(cmd("fov +75"), Some(ConsoleCommand::Fov(75))));
    assert!(matches!(cmd("fov"), Some(ConsoleCommand::FovUsage)));
    assert!(matches!(cmd("fov abc"), Some(ConsoleCommand::FovUsage)));
    assert!(matches!(cmd("fov -5"), Some(ConsoleCommand::FovUsage)));
    assert!(matches!(cmd("fov 4294967296"), Some(ConsoleCommand::FovUsage)));
}

#[test]
fn map_subcommands() {
    assert!(matches!(cmd("map"), Some(ConsoleCommand::MapUsage)));
    assert!(matches!(cmd("map list"), Some(ConsoleCommand::MapList)));
    assert!(matches!(cmd("map new"), Some(ConsoleCommand::MapNewUsage)));
    assert!(matches!(cmd("map save"), Some(ConsoleCommand::MapSave)));
    match cmd("map new arena extra") {
        Some(ConsoleCommand::MapNew(n)) => assert_eq!(n, "arena"),
        other => panic!("unexpected {:?}", other),
    }
    match cmd("map house_lighting") {
        Some(ConsoleCommand::MapLoad(n)) => assert_eq!(n, "house_lighting"),
        other => panic!("unexpected {:?}", other),
    }
    match cmd("warp 9") {
        Some(ConsoleCommand::Unknown(w)) => assert_eq!(w, "warp"),
        other => panic!("unexpected {:?}", other),
    }
}

#[test]
fn parse_u32_matches_std() {
    for s in ["0", "42", "+7", "4294967295", "4294967296", "", "+", "-1", "1 ", "00012", "9x", "99999999999999999999"] {
        assert_eq!(parse_u32(&chars(s)), s.parse::<u32>().ok(), "input {:?}", s);
    }
}

#[test]
fn clamp_fov_bounds() {
    assert_eq!(clamp_fov(0), 50);
    assert_eq!(clamp_fov(50), 50);
    assert_eq!(clamp_fov(75), 75);
    assert_eq!(clamp_fov(110), 110);
    assert_eq!(clamp_fov(u32::MAX), 110);
}

#[test]
fn line_kinds() {
    assert_eq!(console_line_kind("> help"), LineKind::Input);
    assert_eq!(console_line_kind("> Error is still input"), LineKind::Input);
    assert_eq!(console_line_kind("Failed to load map: x"), LineKind::Error);
    assert_eq!(console_line_kind("  some Error"), LineKind::Error);
    assert_eq!(console_line_kind("  help              - Show this help"), LineKind::Help);
    assert_eq!(console_line_kind(" one space"), LineKind::Output);
    assert_eq!(console_line_kind("PhotonEngine v0.1"), LineKind::Output);
    assert_eq!(console_line_kind(""), LineKind::Output);
}

#[test]
fn decimal_strings() {
    for n in [0u64, 7, 10, 123, 1000, u64::MAX] {
        assert_eq!(decimal_string(n), n.to_string());
    }
}

#[test]
fn replies() {
    assert_eq!(fov_reply(90), "FOV set to 90\u{00b0} (restart applies)");
    assert_eq!(map_loaded_reply("arena", 12), "Loaded map 'arena' (12 entities)");
    let none = map_list_reply(&vec![], &"x".to_string());
    assert_eq!(none, vec!["No maps found in assets/maps/".to_string()]);
    let some = map_list_reply(&vec!["a".to_string(), "b".to_string()], &"b".to_string());
    assert_eq!(
        some,
        vec!["Available maps:".to_string(), "  a".to_string(), "  b (current)".to_string()]
    );
}

#[test]
fn submitted_lines_are_trimmed_and_echoed() {
    assert!(submit_console_line("").is_none());
    assert!(submit_console_line(" \t\n").is_none());
    let (cmd, echo) = submit_console_line("  map list \n").unwrap();
    assert_eq!(cmd, "map list");
    assert_eq!(echo, "> map list");
}
