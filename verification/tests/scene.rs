use photon_engine::map::MapData;
use photon_engine::scene::{
    select_texture, Bits3, Entity, MeshShape, MeshType, Scene, MAX_POINT_LIGHTS,
};

const ALL: [MeshType; 10] = [
    MeshType::Cube,
    MeshType::Floor,
    MeshType::Sphere,
    MeshType::Light,
    MeshType::Wall,
    MeshType::Metal,
    MeshType::Glow,
    MeshType::Ramp,
    MeshType::CurvedRamp,
    MeshType::Cylinder,
];

fn at(mesh: MeshType, x: f32) -> Entity {
    let b = |v: f32| Bits3 { x: v.to_bits(), y: v.to_bits(), z: v.to_bits() };
    Entity {
        position: b(x),
        rotation: b(0.0),
        scale: b(60.0),
        mesh_type: mesh,
        color: b(1.0),
        texture_index: 0,
        has_collision: false,
        group_id: 0,
    }
}

#[test]
fn mesh_bytes_round_trip() {
    for (i, m) in ALL.iter().enumerate() {
        assert_eq!(m.to_byte() as usize, i);
        assert_eq!(MeshType::from_byte(m.to_byte()), *m);
    }
    assert_eq!(MeshType::from_byte(10), MeshType::Cube);
    assert_eq!(MeshType::from_byte(255), MeshType::Cube);
}

#[test]
fn mesh_shapes_and_shadows() {
    assert_eq!(MeshType::Wall.shape(), MeshShape::Cube);
    assert_eq!(MeshType::Glow.shape(), MeshShape::Cube);
    assert_eq!(MeshType::Floor.shape(), MeshShape::Floor);
    assert_eq!(MeshType::CurvedRamp.shape(), MeshShape::CurvedRamp);
    assert_eq!(MeshType::Cylinder.shape(), MeshShape::Cylinder);
    for m in ALL {
        assert_eq!(m.casts_shadow(), !m.is_light_source());
    }
    assert!(MeshType::Light.is_light_source());
    assert!(!MeshType::Metal.is_light_source());
}

#[test]
fn texture_selection_fallbacks() {
    assert_eq!(select_texture(2, MeshType::Cube, 3), 2);
    assert_eq!(select_texture(5, MeshType::Floor, 3), 1);
    assert_eq!(select_texture(5, MeshType::Floor, 1), 0);
    assert_eq!(select_texture(5, MeshType::Wall, 3), 0);
    assert_eq!(select_texture(0, MeshType::Cube, 0), 0);
}

#[test]
fn point_lights_glow_first_then_light() {
    let mut scene = Scene::new();
    scene.add_entity(at(MeshType::Light, 1.0));
    scene.add_entity(at(MeshType::Cube, 2.0));
    scene.add_entity(at(MeshType::Glow, 3.0));
    scene.add_entity(at(MeshType::Light, 4.0));
    scene.add_entity(at(MeshType::Glow, 5.0));
    assert_eq!(scene.collect_point_lights(), vec![2, 4, 0, 3]);
}

#[test]
fn point_lights_are_capped() {
    let mut scene = Scene::new();
    for i in 0..10 {
        scene.add_entity(at(MeshType::Light, i as f32));
    }
    for i in 0..10 {
        scene.add_entity(at(MeshType::Glow, i as f32));
    }
    let lights = scene.collect_point_lights();
    assert_eq!(MAX_POINT_LIGHTS, 12);
    assert_eq!(lights.len(), 12);
    assert_eq!(lights, vec![10, 11, 12, 13, 14, 15, 16, 17, 18, 19, 0, 1]);
    assert!(Scene::new().collect_point_lights().is_empty());
}

#[test]
fn scene_loads_map_entities() {
    let mut map = MapData::new("m");
    map.add_entity(at(MeshType::Floor, 0.0));
    map.add_entity(at(MeshType::Glow, 7.0));
    let mut scene = Scene::new();
    scene.add_entity(at(MeshType::Cube, 9.0));
    scene.load_from_map(&map);
    assert_eq!(scene.entities, map.entities);
}
