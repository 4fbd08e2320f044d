use vpinball_bevy::ball::{
    ball_texture_images, extension_of, memory_asset_path, texture_file_name, ImageEntry,
};
use vpinball_bevy::camera::{movement_direction, PlanarStep, SteeringKeys};
use vpinball_bevy::gizmos::toggle_light_gizmos;
use vpinball_bevy::lights::{
    setup_light_toggle_state, visibility_of, visible_to_visibility, IntensityScale,
    LightToggleState, Visibility,
};
use vpinball_bevy::materials::{create_materials, MaterialMap};
use vpinball_bevy::mesh::{primitive_mesh_indices, wall_entity_name, wall_mesh_indices};
use vpinball_bevy::picking::{click_message, next_debug_picking_mode, DebugPickingMode};

fn keys(forward: bool, backward: bool, right: bool, left: bool) -> SteeringKeys {
    SteeringKeys { forward, backward, right, left }
}

fn image(name: &str, path: &str, has_jpeg: bool) -> ImageEntry {
    ImageEntry { name: name.to_string(), path: path.to_string(), has_jpeg }
}

#[test]
fn light_toggle_cycles_through_three_states() {
    let mut s = setup_light_toggle_state();
    assert_eq!(s, LightToggleState::Default);
    s.toggle();
    assert_eq!(s, LightToggleState::Off);
    s.toggle();
    assert_eq!(s, LightToggleState::On);
    s.toggle();
    assert_eq!(s, LightToggleState::Default);
}

#[test]
fn light_toggle_three_presses_restore_each_state() {
    for start in [LightToggleState::Off, LightToggleState::On, LightToggleState::Default] {
        let mut s = start;
        s.toggle();
        assert_ne!(s, start);
        s.toggle();
        assert_ne!(s, start);
        s.toggle();
        assert_eq!(s, start);
    }
}

#[test]
fn light_intensity_scale_per_state() {
    assert_eq!(LightToggleState::Off.intensity_scale(), IntensityScale::Zero);
    assert_eq!(LightToggleState::On.intensity_scale(), IntensityScale::One);
    assert_eq!(LightToggleState::Default.intensity_scale(), IntensityScale::DefaultState);
}

#[test]
fn light_visibility_from_table_flag() {
    assert_eq!(visible_to_visibility(Some(true)), Visibility::Visible);
    assert_eq!(visible_to_visibility(Some(false)), Visibility::Hidden);
    assert_eq!(visible_to_visibility(None), Visibility::Visible);
    assert_eq!(visibility_of(true), Visibility::Visible);
    assert_eq!(visibility_of(false), Visibility::Hidden);
}

#[test]
fn debug_picking_mode_cycles() {
    let m = DebugPickingMode::Normal;
    let m1 = next_debug_picking_mode(m);
    assert_eq!(m1, DebugPickingMode::Noisy);
    let m2 = next_debug_picking_mode(m1);
    assert_eq!(m2, DebugPickingMode::Disabled);
    let m3 = next_debug_picking_mode(m2);
    assert_eq!(m3, DebugPickingMode::Normal);
}

#[test]
fn click_message_with_and_without_name() {
    assert_eq!(click_message(Some("ChromeBall"), "12v1"), "ChromeBall (12v1) was clicked!");
    assert_eq!(click_message(None, "7v3"), "Entity 7v3 was clicked!");
    assert_eq!(click_message(Some(""), "1v1"), " (1v1) was clicked!");
}

#[test]
fn camera_single_keys() {
    assert_eq!(movement_direction(keys(true, false, false, false)), Some(PlanarStep { x: 0, z: -1 }));
    assert_eq!(movement_direction(keys(false, true, false, false)), Some(PlanarStep { x: 0, z: 1 }));
    assert_eq!(movement_direction(keys(false, false, true, false)), Some(PlanarStep { x: 1, z: 0 }));
    assert_eq!(movement_direction(keys(false, false, false, true)), Some(PlanarStep { x: -1, z: 0 }));
}

#[test]
fn camera_diagonal_and_idle() {
    assert_eq!(movement_direction(keys(true, false, true, false)), Some(PlanarStep { x: 1, z: -1 }));
    assert_eq!(movement_direction(keys(false, true, false, true)), Some(PlanarStep { x: -1, z: 1 }));
    assert_eq!(movement_direction(keys(false, false, false, false)), None);
}

#[test]
fn camera_opposite_keys_cancel() {
    assert_eq!(movement_direction(keys(true, true, false, false)), None);
    assert_eq!(movement_direction(keys(false, false, true, true)), None);
    assert_eq!(movement_direction(keys(true, true, true, true)), None);
    assert_eq!(movement_direction(keys(true, true, true, false)), Some(PlanarStep { x: 1, z: 0 }));
}

#[test]
fn camera_mirrored_keys_reverse() {
    let a = movement_direction(keys(true, false, true, false)).unwrap();
    let b = movement_direction(keys(false, true, false, true)).unwrap();
    assert_eq!((a.x, a.z), (-b.x, -b.z));
}

#[test]
fn material_map_insert_and_get() {
    let mut m: MaterialMap<u32> = MaterialMap::new();
    assert_eq!(m.get("metal"), None);
    m.insert("metal".to_string(), 1);
    m.insert("plastic".to_string(), 2);
    assert_eq!(m.get("metal"), Some(&1));
    assert_eq!(m.get("plastic"), Some(&2));
    m.insert("metal".to_string(), 3);
    assert_eq!(m.get("metal"), Some(&3));
    assert_eq!(m.get("plastic"), Some(&2));
    assert!(m.contains("plastic"));
    assert!(!m.contains("rubber"));
}

#[test]
fn material_map_create_registers_default_first() {
    let m = create_materials(0u32, vec![("Metal".to_string(), 1), ("Plastic".to_string(), 2)]);
    assert_eq!(m.get("default"), Some(&0));
    assert_eq!(m.get("Metal"), Some(&1));
    assert_eq!(m.get("Plastic"), Some(&2));
    assert_eq!(m.get("Rubber"), None);
}

#[test]
fn material_map_later_material_wins() {
    let m = create_materials(
        0u32,
        vec![("A".to_string(), 1), ("B".to_string(), 2), ("A".to_string(), 3), ("default".to_string(), 4)],
    );
    assert_eq!(m.get("A"), Some(&3));
    assert_eq!(m.get("B"), Some(&2));
    assert_eq!(m.get("default"), Some(&4));
}

#[test]
fn material_map_get_or_default() {
    let m = create_materials(9u32, vec![("Walls".to_string(), 5)]);
    assert_eq!(*m.get_or_default("Walls"), 5);
    assert_eq!(*m.get_or_default("Missing"), 9);
    assert_eq!(*m.get_or_default(""), 9);
}

#[test]
fn material_map_primitive_material_choice() {
    let m = create_materials(
        0u32,
        vec![("Playfield".to_string(), 7), ("Metal".to_string(), 8), ("".to_string(), 6)],
    );
    assert_eq!(*m.primitive_material("playfield_mesh", "", "Playfield"), 7);
    assert_eq!(*m.primitive_material("playfield_mesh", "Metal", "Playfield"), 7);
    assert_eq!(*m.primitive_material("Ramp", "Metal", "Playfield"), 8);
    assert_eq!(*m.primitive_material("Ramp", "", "Playfield"), 0);
    assert_eq!(*m.primitive_material("Ramp", "Unknown", "Playfield"), 0);
}

#[test]
fn ball_texture_extension() {
    assert_eq!(extension_of("C:\\images\\ball.jpg"), "jpg");
    assert_eq!(extension_of("archive.tar.gz"), "gz");
    assert_eq!(extension_of("noextension"), "noextension");
    assert_eq!(extension_of("trailing."), "");
    assert_eq!(extension_of(""), "");
    assert_eq!(extension_of("bäll.pñg"), "pñg");
}

#[test]
fn ball_texture_file_and_asset_path() {
    assert_eq!(texture_file_name("ballfront", "c:/x/ball.png"), "ballfront.png");
    assert_eq!(texture_file_name("b", "plain"), "b.plain");
    assert_eq!(memory_asset_path("ballfront.png"), "memory://ballfront.png");
}

#[test]
fn ball_texture_images_selects_named_images_with_data() {
    let images = vec![
        image("ball", "a.jpg", true),
        image("other", "b.jpg", true),
        image("ball", "c.png", false),
        image("ball", "d.png", true),
        image("Ball", "e.png", true),
    ];
    assert_eq!(ball_texture_images(&images, "ball"), vec![0, 3]);
    assert_eq!(ball_texture_images(&images, "missing"), Vec::<usize>::new());
    assert_eq!(ball_texture_images(&Vec::new(), "ball"), Vec::<usize>::new());
}

#[test]
fn wall_indices_reversed_and_narrowed() {
    assert_eq!(wall_mesh_indices(&vec![0, 1, 2, 0, 2, 3]), vec![3, 2, 0, 2, 1, 0]);
    assert_eq!(wall_mesh_indices(&vec![]), Vec::<u32>::new());
    assert_eq!(wall_mesh_indices(&vec![(1usize << 32) + 5]), vec![5]);
}

#[test]
fn wall_indices_reversal_flips_each_triangle() {
    let out = wall_mesh_indices(&vec![0, 1, 2, 3, 4, 5]);
    assert_eq!(&out[0..3], &[5, 4, 3]);
    assert_eq!(&out[3..6], &[2, 1, 0]);
}

#[test]
fn primitive_indices_narrowed() {
    assert_eq!(primitive_mesh_indices(&vec![0, 1, 2]), vec![0, 1, 2]);
    assert_eq!(primitive_mesh_indices(&vec![-1, 4294967297]), vec![u32::MAX, 1]);
}

#[test]
fn wall_entity_names() {
    assert_eq!(wall_entity_name("Apron"), "Wall_Apron");
    assert_eq!(wall_entity_name(""), "Wall_");
}

#[test]
fn light_gizmo_toggle() {
    assert_eq!(toggle_light_gizmos(true), (false, "OFF"));
    assert_eq!(toggle_light_gizmos(false), (true, "ON"));
    let (once, _) = toggle_light_gizmos(true);
    let (twice, _) = toggle_light_gizmos(once);
    assert!(twice);
}

#[test]
fn material_map_without_default_serves_registered_names() {
    let mut m: MaterialMap<u32> = MaterialMap::new();
    m.insert("Playfield".to_string(), 4);
    m.insert("Walls".to_string(), 5);
    assert_eq!(*m.primitive_material("playfield_mesh", "", "Playfield"), 4);
    assert_eq!(*m.primitive_material("playfield_mesh", "Unknown", "Playfield"), 4);
    assert_eq!(*m.primitive_material("Ramp", "Walls", "Playfield"), 5);
    assert_eq!(*m.get_or_default("Walls"), 5);
}
