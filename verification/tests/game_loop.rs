use std::collections::HashMap;

use game_in_rust::ai::run_ais;
use game_in_rust::controls::{Action, CameraMode, EventOutcome, InputEvent, InputState, Key};
use game_in_rust::entities::{Entities, EntitiesCollection};
use game_in_rust::entity::{AttackInfo, Entity, EntityState};
use game_in_rust::skeleton::{check_joint_tree, load_joints};
use game_in_rust::update::{
    resolve_weapon_hits, update_player_accepts, weapon_hits_active, AnimationStatus, PlayerInput,
};

fn enemy(state: EntityState) -> Entity {
    let mut e = Entity::new(String::from("enemy"));
    e.state = state;
    e
}

fn with_enemies(states: &[EntityState]) -> Entities {
    let mut es = Entities::new();
    for (i, s) in states.iter().enumerate() {
        es.enemies.next_id = i;
        es.enemies.add(enemy(*s));
    }
    es
}

fn attack(start: usize, end: usize) -> EntityState {
    EntityState::Attack(AttackInfo { combo_num: 0, hit_start_frame: start, hit_end_frame: end })
}

#[test]
fn ai_queues_moves_for_idle_enemies() {
    let mut es = with_enemies(&[EntityState::Idle, EntityState::Moving, EntityState::Roll]);
    let moving = run_ais(&mut es);
    assert_eq!(moving, vec![1]);
    assert_eq!(es.enemies.get(0).unwrap().queued_action, Some(EntityState::Moving));
    assert_eq!(es.enemies.get(1).unwrap().queued_action, None);
    assert_eq!(es.enemies.get(2).unwrap().queued_action, None);
    assert_eq!(es.enemies.count(), 3);
}

#[test]
fn ai_with_no_enemies_does_nothing() {
    let mut es = Entities::new();
    assert!(run_ais(&mut es).is_empty());
    assert_eq!(es.enemies.count(), 0);
    assert_eq!(es.player.queued_action, None);
}

#[test]
fn ai_returns_every_moving_enemy_once() {
    let mut es = with_enemies(&[EntityState::Moving, EntityState::Idle, EntityState::Moving]);
    let mut moving = run_ais(&mut es);
    moving.sort();
    assert_eq!(moving, vec![0, 2]);
}

#[test]
fn collection_ids_lists_each_id() {
    let mut c: EntitiesCollection<u32> = EntitiesCollection::new();
    c.add(5);
    c.next_id = 7;
    c.add(6);
    let mut ids = c.ids();
    ids.sort();
    assert_eq!(ids, vec![0, 7]);
}

#[test]
fn keys_are_held_until_released() {
    let mut st = InputState::new();
    assert_eq!(st.handle_event(InputEvent::KeyDown(Key::A)), EventOutcome::Nothing);
    assert!(st.a);
    assert!(st.movement_key_held());
    assert_eq!(st.key_direction(), (-1, 0));
    st.handle_event(InputEvent::KeyDown(Key::W));
    assert_eq!(st.key_direction(), (-1, 1));
    st.handle_event(InputEvent::KeyUp(Key::A));
    assert!(!st.a);
    assert_eq!(st.key_direction(), (0, 1));
    st.handle_event(InputEvent::KeyDown(Key::S));
    assert_eq!(st.key_direction(), (0, 0));
    st.handle_event(InputEvent::KeyDown(Key::D));
    assert_eq!(st.key_direction(), (1, 0));
}

#[test]
fn escape_and_quit_ask_to_quit() {
    let mut st = InputState::new();
    assert!(!st.quit);
    st.handle_event(InputEvent::KeyDown(Key::Escape));
    assert!(st.quit);
    let mut st = InputState::new();
    st.handle_event(InputEvent::Quit);
    assert!(st.quit);
}

#[test]
fn camera_key_toggles_the_camera() {
    let mut st = InputState::new();
    assert_eq!(st.cam_mode, CameraMode::Follow);
    st.handle_event(InputEvent::KeyDown(Key::C));
    assert_eq!(st.cam_mode, CameraMode::TopDown);
    st.handle_event(InputEvent::KeyUp(Key::C));
    assert_eq!(st.cam_mode, CameraMode::TopDown);
    st.handle_event(InputEvent::KeyDown(Key::C));
    assert_eq!(st.cam_mode, CameraMode::Follow);
}

#[test]
fn frame_of_events() {
    let mut st = InputState::new();
    let events = vec![
        InputEvent::KeyDown(Key::R),
        InputEvent::RightShoulderDown,
        InputEvent::KeyDown(Key::N),
        InputEvent::KeyDown(Key::Other),
        InputEvent::KeyDown(Key::R),
    ];
    assert_eq!(st.handle_events(&events), (Action::AddEnemy, 2));
    assert!(st.right_shoulder);
    st.begin_frame();
    assert!(!st.right_shoulder);
    assert_eq!(st.handle_events(&vec![InputEvent::KeyDown(Key::Other)]), (Action::NoAction, 0));
    assert_eq!(st, InputState::new());
}

#[test]
fn weapon_hits_only_inside_the_hit_frames() {
    let mut player = Entity::new(String::from("player"));
    assert!(!weapon_hits_active(&player, 10));
    player.state = attack(9, 20);
    assert!(!weapon_hits_active(&player, 8));
    assert!(weapon_hits_active(&player, 9));
    assert!(weapon_hits_active(&player, 20));
    assert!(!weapon_hits_active(&player, 21));
}

#[test]
fn weapon_hits_mark_touched_enemies() {
    let mut es = with_enemies(&[EntityState::Idle, EntityState::Idle, EntityState::Moving]);
    es.enemies.get_mut(1).unwrap().is_hit = true;
    es.player.state = attack(9, 20);
    assert!(resolve_weapon_hits(&mut es, 12, &vec![0, 5]));
    assert!(es.enemies.get(0).unwrap().is_hit);
    assert!(!es.enemies.get(1).unwrap().is_hit);
    assert!(!es.enemies.get(2).unwrap().is_hit);
}

#[test]
fn weapon_hits_outside_the_window_change_nothing() {
    let mut es = with_enemies(&[EntityState::Idle, EntityState::Idle]);
    es.enemies.get_mut(1).unwrap().is_hit = true;
    es.player.state = attack(9, 20);
    assert!(!resolve_weapon_hits(&mut es, 3, &vec![0]));
    assert!(!es.enemies.get(0).unwrap().is_hit);
    assert!(es.enemies.get(1).unwrap().is_hit);
}

#[test]
fn joints_are_laid_out_parents_first() {
    // 0 -> [2, 1], 2 -> [3], 1 -> [], 3 -> []
    let children = vec![vec![2, 1], vec![], vec![3], vec![]];
    let mut order = Vec::new();
    let mut index_map = HashMap::new();
    load_joints(&children, 0, 0, &mut order, &mut index_map);
    assert_eq!(order, vec![(0, 0), (2, 0), (3, 1), (1, 0)]);
    assert_eq!(index_map.len(), 4);
    assert_eq!(index_map[&0], 0);
    assert_eq!(index_map[&2], 1);
    assert_eq!(index_map[&3], 2);
    assert_eq!(index_map[&1], 3);
}

#[test]
fn joints_after_existing_ones() {
    let children = vec![vec![], vec![0]];
    let mut order = vec![(9, 9)];
    let mut index_map = HashMap::new();
    load_joints(&children, 1, 0, &mut order, &mut index_map);
    assert_eq!(order, vec![(9, 9), (1, 0), (0, 1)]);
    assert_eq!(index_map[&1], 1);
    assert_eq!(index_map[&0], 2);
}

#[test]
fn joint_tree_check() {
    let tree = vec![vec![1, 2], vec![], vec![]];
    assert!(check_joint_tree(&tree, 0));
    assert!(check_joint_tree(&tree, 2));
    let out_of_range = vec![vec![3], vec![], vec![]];
    assert!(!check_joint_tree(&out_of_range, 0));
    assert!(!check_joint_tree(&tree, 3));
    let cycle = vec![vec![1], vec![0]];
    assert!(!check_joint_tree(&cycle, 0));
}

#[test]
fn joint_numbers_are_cut_to_16_bits() {
    let mut children = vec![vec![]; 65538];
    children[0] = vec![65537];
    let mut order = Vec::new();
    let mut index_map = HashMap::new();
    load_joints(&children, 0, 255, &mut order, &mut index_map);
    assert_eq!(order, vec![(0, 255), (65537, 0)]);
    assert_eq!(index_map[&0], 0);
    assert_eq!(index_map[&1], 1);
}

#[test]
fn update_player_accepts_ordinary_inputs() {
    let player = Entity::new(String::from("player"));
    let status = AnimationStatus { current_frame: 3, has_repeated: false };
    let attack = PlayerInput { roll: false, attack: true, next_weapon: false };
    assert!(update_player_accepts(&player, attack, status, 2));
    let mut broken = Entity::new(String::from("player"));
    broken.state = EntityState::Attack(AttackInfo { combo_num: 2, hit_start_frame: 1, hit_end_frame: 50 });
    assert!(!update_player_accepts(&broken, attack, status, 2));
    let early = AnimationStatus { current_frame: 0, has_repeated: false };
    assert!(update_player_accepts(&broken, attack, early, 2));
    let switch = PlayerInput { roll: false, attack: false, next_weapon: true };
    assert!(!update_player_accepts(&player, switch, status, usize::MAX));
    assert!(update_player_accepts(&player, switch, status, 3));
}
