use photon_engine::map::{
    pack_collision_byte, MapData, MapError, MapManager, MAP_FORMAT_VERSION, MAP_HEADER_LEN,
};
use photon_engine::scene::{Bits3, Entity, MeshType};

fn v3(x: f32, y: f32, z: f32) -> Bits3 {
    Bits3 { x: x.to_bits(), y: y.to_bits(), z: z.to_bits() }
}

fn entity(mesh: MeshType, tex: usize, collision: bool, group: u8) -> Entity {
    Entity {
        position: v3(1.5, -2.0, 300.25),
        rotation: v3(0.0, 90.0, 0.0),
        scale: v3(64.0, 8.0, 64.0),
        mesh_type: mesh,
        color: v3(0.55, 0.72, 0.42),
        texture_index: tex,
        has_collision: collision,
        group_id: group,
    }
}

fn sample_map() -> MapData {
    let mut map = MapData::new("sample");
    map.spawn_position = v3(0.0, 90.0, 620.0);
    map.spawn_angles = v3(std::f32::consts::PI, 0.0, 0.0);
    map.add_entity(entity(MeshType::Floor, 1, true, 0));
    map.add_entity(entity(MeshType::Glow, 0, false, 5));
    map.add_entity(entity(MeshType::Cylinder, 2, true, 127));
    map.add_entity(entity(MeshType::CurvedRamp, 0, false, 0));
    map
}

#[test]
fn round_trip_keeps_every_field() {
    let map = sample_map();
    let bytes = MapManager::save_to_bytes(&map);
    assert_eq!(bytes.len(), MAP_HEADER_LEN + 52 * map.entities.len());
    let loaded = MapManager::load_from_bytes(&bytes, "sample").unwrap();
    assert_eq!(loaded.name, "sample");
    assert_eq!(loaded.spawn_position, map.spawn_position);
    assert_eq!(loaded.spawn_angles, map.spawn_angles);
    assert_eq!(loaded.entities, map.entities);
    assert_eq!(f32::from_bits(loaded.spawn_position.z), 620.0);
}

#[test]
fn round_trip_keeps_group_and_collision() {
    let map = sample_map();
    let loaded = MapManager::load_from_bytes(&MapManager::save_to_bytes(&map), "x").unwrap();
    assert_eq!(loaded.entities.len(), map.entities.len());
    for (orig, back) in map.entities.iter().zip(loaded.entities.iter()) {
        assert_eq!(orig.group_id, back.group_id, "group_id mismatch");
        assert_eq!(orig.has_collision, back.has_collision, "collision mismatch");
    }
}

#[test]
fn round_trip_truncates_texture_and_group() {
    let mut map = MapData::new("wide");
    map.add_entity(entity(MeshType::Wall, 300, true, 200));
    let loaded = MapManager::load_from_bytes(&MapManager::save_to_bytes(&map), "wide").unwrap();
    assert_eq!(loaded.entities[0].texture_index, 300 % 256);
    assert_eq!(loaded.entities[0].group_id, 200 % 128);
    assert!(loaded.entities[0].has_collision);
}

#[test]
fn header_layout() {
    let map = sample_map();
    let bytes = MapManager::save_to_bytes(&map);
    assert_eq!(&bytes[0..4], b"MPHT");
    assert_eq!(u16::from_le_bytes([bytes[4], bytes[5]]), MAP_FORMAT_VERSION);
    assert_eq!(u32::from_le_bytes([bytes[6], bytes[7], bytes[8], bytes[9]]), 4);
    assert_eq!(
        f32::from_le_bytes([bytes[14], bytes[15], bytes[16], bytes[17]]),
        90.0
    );
    assert!(bytes[34..48].iter().all(|b| *b == 0));
    // First record: mesh code, texture byte, collision/group byte, padding.
    assert_eq!(bytes[48 + 48], 1);
    assert_eq!(bytes[48 + 49], 1);
    assert_eq!(bytes[48 + 50], 1);
    assert_eq!(bytes[48 + 51], 0);
    // Second record: glow, group 5, no collision.
    assert_eq!(bytes[100 + 48], 6);
    assert_eq!(bytes[100 + 50], 10);
}

#[test]
fn empty_map_is_header_only() {
    let map = MapData::new("empty");
    assert_eq!(f32::from_bits(map.spawn_position.y), 28.0);
    assert_eq!(map.spawn_position.x, 0);
    assert_eq!(map.spawn_angles, v3(0.0, 0.0, 0.0));
    let bytes = MapManager::save_to_bytes(&map);
    assert_eq!(bytes.len(), 48);
    let loaded = MapManager::load_from_bytes(&bytes, "empty").unwrap();
    assert!(loaded.entities.is_empty());
}

#[test]
fn file_reader_short_data_is_truncated() {
    assert_eq!(MapManager::decode_map_file(&[], "m").unwrap_err(), MapError::Truncated);
    assert_eq!(MapManager::decode_map_file(b"MPH", "m").unwrap_err(), MapError::Truncated);
    assert_eq!(MapManager::decode_map_file(b"MPHT\x03", "m").unwrap_err(), MapError::Truncated);
    let bytes = MapManager::save_to_bytes(&MapData::new("m"));
    assert_eq!(MapManager::decode_map_file(&bytes[..47], "m").unwrap_err(), MapError::Truncated);
    assert_eq!(MapManager::decode_map_file(&bytes[..40], "m").unwrap_err(), MapError::Truncated);
    let loaded = MapManager::decode_map_file(&bytes, "m").unwrap();
    assert!(loaded.entities.is_empty());
}

#[test]
fn buffer_reader_short_data_is_bad_magic() {
    assert_eq!(MapManager::load_from_bytes(&[], "m").unwrap_err(), MapError::BadMagic);
    assert_eq!(MapManager::load_from_bytes(b"MPH", "m").unwrap_err(), MapError::BadMagic);
    let mut other = b"MPHX".to_vec();
    other.extend_from_slice(&[0u8; 60]);
    assert_eq!(MapManager::load_from_bytes(&other, "m").unwrap_err(), MapError::BadMagic);
}

#[test]
fn buffer_reader_accepts_short_header_without_records() {
    let bytes = MapManager::save_to_bytes(&MapData::new("m"));
    let loaded = MapManager::load_from_bytes(&bytes[..40], "m").unwrap();
    assert!(loaded.entities.is_empty());
    assert_eq!(f32::from_bits(loaded.spawn_position.y), 28.0);
    let loaded = MapManager::load_from_bytes(&bytes[..34], "m").unwrap();
    assert!(loaded.entities.is_empty());
    // With a record announced, a short header is missing that record.
    let mut one = bytes[..40].to_vec();
    one[6] = 1;
    assert_eq!(MapManager::load_from_bytes(&one, "m").unwrap_err(), MapError::Truncated);
}

#[test]
fn both_readers_agree_on_whole_files() {
    let bytes = MapManager::save_to_bytes(&sample_map());
    let a = MapManager::load_from_bytes(&bytes, "s").unwrap();
    let b = MapManager::decode_map_file(&bytes, "s").unwrap();
    assert_eq!(a.entities, b.entities);
    assert_eq!(a.spawn_position, b.spawn_position);
    assert_eq!(a.spawn_angles, b.spawn_angles);
}

#[test]
fn missing_record_is_truncated() {
    let bytes = MapManager::save_to_bytes(&sample_map());
    let cut = &bytes[..bytes.len() - 1];
    assert_eq!(MapManager::load_from_bytes(cut, "m").unwrap_err(), MapError::Truncated);
    assert_eq!(MapManager::decode_map_file(cut, "m").unwrap_err(), MapError::Truncated);
}

#[test]
fn trailing_bytes_are_ignored() {
    let mut bytes = MapManager::save_to_bytes(&sample_map());
    bytes.extend_from_slice(&[9, 9, 9]);
    let loaded = MapManager::load_from_bytes(&bytes, "m").unwrap();
    assert_eq!(loaded.entities.len(), 4);
}

#[test]
fn bad_magic_is_rejected() {
    let mut bytes = MapManager::save_to_bytes(&sample_map());
    bytes[0] = b'X';
    assert_eq!(MapManager::load_from_bytes(&bytes, "m").unwrap_err(), MapError::BadMagic);
}

#[test]
fn newer_version_is_rejected() {
    let mut bytes = MapManager::save_to_bytes(&sample_map());
    bytes[4] = 4;
    assert_eq!(
        MapManager::load_from_bytes(&bytes, "m").unwrap_err(),
        MapError::UnsupportedVersion(4)
    );
    // The version is checked before the rest of the header is needed.
    assert_eq!(
        MapManager::load_from_bytes(b"MPHT\x00\x01", "m").unwrap_err(),
        MapError::UnsupportedVersion(256)
    );
}

#[test]
fn version_two_reads_collision_flag_only() {
    let mut bytes = MapManager::save_to_bytes(&sample_map());
    bytes[4] = 2;
    let loaded = MapManager::load_from_bytes(&bytes, "m").unwrap();
    // Record 2 has group 127 with collision: byte 255, read as "collides", group 0.
    assert!(loaded.entities[2].has_collision);
    assert_eq!(loaded.entities[2].group_id, 0);
    // Record 1 has group 5 without collision: byte 10, non-zero, so it collides.
    assert!(loaded.entities[1].has_collision);
    assert_eq!(loaded.entities[1].group_id, 0);
    // Record 3: byte 0.
    assert!(!loaded.entities[3].has_collision);
}

#[test]
fn version_one_always_collides() {
    let mut bytes = MapManager::save_to_bytes(&sample_map());
    bytes[4] = 1;
    let loaded = MapManager::load_from_bytes(&bytes, "m").unwrap();
    assert!(loaded.entities.iter().all(|e| e.has_collision && e.group_id == 0));
    assert_eq!(loaded.entities[1].mesh_type, MeshType::Glow);
}

#[test]
fn unknown_mesh_code_reads_as_cube() {
    let mut bytes = MapManager::save_to_bytes(&sample_map());
    bytes[48 + 48] = 42;
    let loaded = MapManager::load_from_bytes(&bytes, "m").unwrap();
    assert_eq!(loaded.entities[0].mesh_type, MeshType::Cube);
}

#[test]
fn remove_entity_in_and_out_of_range() {
    let mut map = sample_map();
    let removed = map.remove_entity(1).unwrap();
    assert_eq!(removed.mesh_type, MeshType::Glow);
    assert_eq!(map.entities.len(), 3);
    assert_eq!(map.entities[1].mesh_type, MeshType::Cylinder);
    assert!(map.remove_entity(3).is_none());
    assert_eq!(map.entities.len(), 3);
}

#[test]
fn pack_collision_byte_layout() {
    assert_eq!(pack_collision_byte(true, 0), 1);
    assert_eq!(pack_collision_byte(false, 5), 10);
    assert_eq!(pack_collision_byte(true, 127), 255);
    assert_eq!(pack_collision_byte(true, 128), 1);
}
