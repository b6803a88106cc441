use game_in_rust::grid::{indices_for_grid, to_index};
use game_in_rust::level::{is_valid_level, level_fits, Error as LevelError, Level};
use game_in_rust::collision_shape::{
    generate_shape_sides, generate_side, get_shape_vertices, vertices_from_sides,
    ConvexCollisionShape,
};
use game_in_rust::state::State;
use game_in_rust::entities::{Entities, EntitiesCollection};
use game_in_rust::entity::Entity;

#[test]
fn to_index_is_row_major() {
    assert_eq!(to_index(2, 3, 10), 23);
    assert_eq!(to_index(0, 0, 5), 0);
}

#[test]
fn grid_indices_two_by_three() {
    let idx = indices_for_grid(2, 3);
    assert_eq!(idx, vec![0, 3, 1, 3, 4, 1, 1, 4, 2, 4, 5, 2]);
}

#[test]
fn grid_indices_degenerate() {
    assert!(indices_for_grid(1, 0).is_empty());
    assert!(indices_for_grid(1, 7).is_empty());
    assert!(indices_for_grid(3, 1).is_empty());
    let idx = indices_for_grid(3, 3);
    assert_eq!(idx.len(), 24);
    assert!(idx.iter().all(|i| *i < 9));
}

#[test]
fn level_from_text() {
    let text = "012\n 345 \r\n678\n";
    assert!(is_valid_level(text));
    let l = Level::load("levels/level1.txt", text).unwrap();
    assert_eq!(l.width, 3);
    assert_eq!(l.height, 3);
    assert_eq!(l.level_data, vec![0, 1, 2, 3, 4, 5, 6, 7, 8]);
}

#[test]
fn level_width_from_last_line() {
    let l = Level::load("a", "1111\n22").unwrap();
    assert_eq!((l.width, l.height), (2, 2));
    let l = Level::load("a", "").unwrap();
    assert_eq!((l.width, l.height), (1, 1));
    assert!(l.level_data.is_empty());
    let l = Level::load("a", "12\n  \n").unwrap();
    assert_eq!((l.width, l.height), (1, 2));
}

#[test]
fn level_rejects_non_digits() {
    assert!(!is_valid_level("12\n3a"));
    assert!(!is_valid_level("1 2"));
    assert!(!is_valid_level("-1"));
    assert!(is_valid_level("  9  "));
    match Level::load("levels/bad.txt", "12\n3a") {
        Err(LevelError::LevelParseFailed { name }) => assert_eq!(name, "levels/bad.txt"),
        other => panic!("unexpected {:?}", other),
    }
    assert!(Level::load("x", "1 2").is_err());
    assert!(level_fits("12\n3a"));
    assert!(level_fits(""));
}

#[test]
fn polygon_sides_close_the_loop() {
    let vs = vec![(0, 0), (1, 0), (1, 1), (0, 1)];
    let sides = generate_side(&vs);
    assert_eq!(sides.len(), 4);
    assert_eq!((sides[3].v1, sides[3].v2), ((0, 1), (0, 0)));
    assert_eq!(vertices_from_sides(&sides), vs);
    assert!(generate_side(&vec![(5, 5)]).is_empty());
}

#[test]
fn shape_sides_and_corners() {
    let shape = ConvexCollisionShape {
        v1: [0.0f32, 0.0, 0.0],
        v2: [1.0, 0.0, 0.0],
        in_between: vec![[1.0, 1.0, 0.0]],
        last: [0.0, 1.0, 0.0],
        center: [0.5, 0.5, 0.0],
    };
    let corners = get_shape_vertices(&shape);
    assert_eq!(corners.len(), 4);
    let sides = generate_shape_sides(&shape);
    assert_eq!(sides.len(), 4);
    assert_eq!(vertices_from_sides(&sides), corners);
    assert_eq!(sides[2].v2, shape.last);
    assert_eq!(sides[3].v2, shape.v1);

    let triangle = ConvexCollisionShape { v1: 1, v2: 2, in_between: vec![], last: 3, center: 2 };
    let sides = generate_shape_sides(&triangle);
    assert_eq!(sides.iter().map(|s| (s.v1, s.v2)).collect::<Vec<_>>(), vec![(1, 2), (2, 3), (3, 1)]);
}

#[test]
fn state_remove_shot() {
    let mut s = State::new();
    s.player_shots.insert(1);
    s.enemy_shots.insert(1);
    s.enemy_shots.insert(2);
    s.enemies.insert(1);
    s.remove_shot(&1);
    assert!(s.player_shots.is_empty());
    assert_eq!(s.enemy_shots.len(), 1);
    assert!(s.enemy_shots.contains(&2));
    assert!(s.enemies.contains(&1));
}

#[test]
fn collection_add_reuses_the_counter_id() {
    let mut c: EntitiesCollection<u32> = EntitiesCollection::new();
    assert_eq!(c.add(5), 0);
    assert_eq!(c.get(0), Some(&5));
    // the counter is not advanced: the same id is used again
    assert_eq!(c.add(6), 0);
    assert_eq!(c.count(), 1);
    assert_eq!(c.get(0), Some(&6));
    assert_eq!(c.get(1), None);
    if let Some(v) = c.get_mut(0) {
        *v = 9;
    }
    assert_eq!(c.get(0), Some(&9));
    assert!(c.get_mut(3).is_none());
}

#[test]
fn entities_values_order() {
    let mut es = Entities::new();
    assert_eq!(es.values().len(), 1);
    assert_eq!(es.values()[0].model_name, "Placeholder");
    let w = es.weapons.add(Entity::new("hammer".to_string()));
    es.player.weapon_id = w;
    es.enemies.add(Entity::new("dummy".to_string()));
    let vs = es.hitbox_entities();
    assert_eq!(vs.len(), 3);
    assert_eq!(vs[1].model_name, "hammer");
    assert_eq!(vs[2].model_name, "dummy");
    assert_eq!(es.default_weapon.model_name, "default_weapon");
}

#[test]
fn collection_get_after_add() {
    let mut c: EntitiesCollection<u32> = EntitiesCollection::new();
    c.next_id = 4;
    let id = c.add(11);
    assert_eq!(id, 4);
    assert_eq!(c.get(4), Some(&11));
    assert_eq!(c.get(3), None);
    *c.get_mut(4).unwrap() = 12;
    assert_eq!(c.get(4), Some(&12));
    assert!(c.get_mut(9).is_none());
}

#[test]
fn entities_values_lists_equal_enemies_each_time() {
    let mut es = Entities::new();
    for id in 0..3 {
        es.enemies.next_id = id;
        let name = if id == 2 { "b" } else { "a" };
        es.enemies.add(Entity::new(name.to_string()));
    }
    let vs = es.values();
    assert_eq!(vs.len(), 4);
    let mut names: Vec<&str> = vs[1..].iter().map(|e| e.model_name.as_str()).collect();
    names.sort();
    assert_eq!(names, vec!["a", "a", "b"]);
}
