use photon_engine::frames::{next_frame, MAX_FRAMES_IN_FLIGHT};
use photon_engine::menu::{fps_limit_label, map_select_label, new_map_name, search_maps};

#[test]
fn fps_labels() {
    assert_eq!(fps_limit_label(0), "Unlimited");
    assert_eq!(fps_limit_label(144), "144 FPS");
    assert_eq!(fps_limit_label(1000), "1000 FPS");
}

#[test]
fn new_map_names() {
    assert_eq!(new_map_name("  arena  "), Some("arena".to_string()));
    assert_eq!(new_map_name(""), None);
    assert_eq!(new_map_name("   "), None);
    assert_eq!(new_map_name("my map"), None);
    assert_eq!(new_map_name("tab\tname"), Some("tab\tname".to_string()));
}

#[test]
fn map_rows() {
    let a = "arena".to_string();
    assert_eq!(map_select_label(&a, &"arena".to_string()), "arena  (LOADED)");
    assert_eq!(map_select_label(&a, &"other".to_string()), "arena");
    assert_eq!(map_select_label(&a, &String::new()), "arena");
}

#[test]
fn search_is_case_insensitive() {
    let maps: Vec<String> = ["Arena", "house_lighting", "ÄRGER", "default"].iter().map(|s| s.to_string()).collect();
    assert_eq!(search_maps(&maps, ""), maps);
    assert_eq!(search_maps(&maps, "ARENA"), vec!["Arena".to_string()]);
    assert_eq!(search_maps(&maps, "a"), vec!["Arena".to_string(), "default".to_string()]);
    assert_eq!(search_maps(&maps, "LIGHT"), vec!["house_lighting".to_string()]);
    assert_eq!(search_maps(&maps, "är"), vec!["ÄRGER".to_string()]);
    assert!(search_maps(&maps, "zzz").is_empty());
}

#[test]
fn frame_slots_alternate() {
    assert_eq!(MAX_FRAMES_IN_FLIGHT, 2);
    assert_eq!(next_frame(0), 1);
    assert_eq!(next_frame(1), 0);
    assert_eq!(next_frame(4), 1);
}
