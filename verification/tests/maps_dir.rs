use photon_engine::files::{map_name_of_file, path_file_stem, split_file_name};
use photon_engine::map::{MapManager, MAPS_DIR};

fn names(v: &[&str]) -> Vec<String> {
    v.iter().map(|s| s.to_string()).collect()
}

#[test]
fn map_list_is_sorted_stems_of_mpht_files() {
    let entries = names(&["zeta.mpht", "readme.txt", "alpha.mpht", "Beta.mpht", "house_lighting.mpht", "noext"]);
    let m = MapManager::new(&entries);
    assert_eq!(m.current_map, "");
    assert_eq!(m.available_maps, names(&["Beta", "alpha", "house_lighting", "zeta"]));
}

#[test]
fn refresh_list_replaces_list_and_keeps_current() {
    let mut m = MapManager::new(&names(&["a.mpht"]));
    m.current_map = "a".to_string();
    m.refresh_list(&names(&["c.mpht", "b.mpht", "b.mpht.bak"]));
    assert_eq!(m.available_maps, names(&["b", "c"]));
    assert_eq!(m.current_map, "a");
    m.refresh_list(&Vec::new());
    assert!(m.available_maps.is_empty());
}

#[test]
fn map_list_keeps_duplicates_and_odd_names() {
    let entries = names(&["x.y.mpht", ".mpht", "x.mpht", "x.MPHT", "ä.mpht"]);
    let m = MapManager::new(&entries);
    assert_eq!(m.available_maps, names(&["x", "x.y", "ä"]));
}

#[test]
fn map_path_format() {
    assert_eq!(MAPS_DIR, "assets/maps");
    assert_eq!(MapManager::map_path("default"), "assets/maps/default.mpht");
    assert_eq!(MapManager::map_path(""), "assets/maps/.mpht");
}

#[test]
fn file_name_rules() {
    assert_eq!(map_name_of_file("level.mpht"), Some("level".to_string()));
    assert_eq!(map_name_of_file("level.mpht2"), None);
    assert_eq!(map_name_of_file(".mpht"), None);
    assert_eq!(map_name_of_file("a..mpht"), Some("a.".to_string()));
    assert_eq!(map_name_of_file(".."), None);
    let (stem, ext) = split_file_name(&"archive.tar.gz".chars().collect());
    assert_eq!(stem.iter().collect::<String>(), "archive.tar");
    assert_eq!(ext.unwrap().iter().collect::<String>(), "gz");
    let (stem, ext) = split_file_name(&".bashrc".chars().collect());
    assert_eq!(stem.iter().collect::<String>(), ".bashrc");
    assert!(ext.is_none());
}

#[test]
fn path_stem_is_stem_of_last_segment() {
    assert_eq!(path_file_stem("assets/maps/default.mpht"), "default");
    assert_eq!(path_file_stem("assets/maps/sub/dir.x.mpht"), "dir.x");
    assert_eq!(path_file_stem("plain"), "plain");
    assert_eq!(path_file_stem("assets/maps/.mpht"), ".mpht");
    let p = MapManager::map_path("house_lighting");
    assert_eq!(path_file_stem(&p), "house_lighting");
}
