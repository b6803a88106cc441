use std::collections::HashMap;

use game_in_rust::mesh_data::{is_hitbox_of, map_vertex_joints, JointMapError};

#[test]
fn vertex_joints_map_through_the_skin() {
    let skin_nodes = vec![10, 11, 12];
    let mut index_map = HashMap::new();
    index_map.insert(10u16, 0usize);
    index_map.insert(11, 5);
    index_map.insert(12, 2);
    assert_eq!(map_vertex_joints([0, 1, 2, 0], &skin_nodes, &index_map), Ok([0, 5, 2, 0]));
}

#[test]
fn vertex_joints_report_the_first_failure() {
    let skin_nodes = vec![10, 11];
    let mut index_map = HashMap::new();
    index_map.insert(10u16, 0usize);
    assert_eq!(map_vertex_joints([0, 1, 7, 0], &skin_nodes, &index_map), Err(JointMapError::NotInSkeleton(1)));
    assert_eq!(map_vertex_joints([0, 7, 1, 0], &skin_nodes, &index_map), Err(JointMapError::NotInSkin(7)));
}

#[test]
fn hitbox_names() {
    assert!(is_hitbox_of("enemy_hitbox_1", "enemy"));
    assert!(is_hitbox_of("enemyhitbox", "enemy"));
    assert!(!is_hitbox_of("enemy_body", "enemy"));
    assert!(!is_hitbox_of("weapon_hitbox", "enemy"));
    assert!(!is_hitbox_of("hitbox", "enemy"));
    assert!(is_hitbox_of("hitbox", ""));
    assert!(!is_hitbox_of("hitbo", ""));
}
