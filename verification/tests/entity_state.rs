use game_in_rust::entity::{AttackInfo, Entity, EntityState, PlayerAnimation, NO_WEAPON};
use game_in_rust::update::{
    can_perform_action, next_weapon_id, perform_attack, perform_roll, queue_movement_state,
    update_player, update_player_state, AnimationStatus, PlayerInput, PlayerStep,
};
use game_in_rust::behaviour::{request_moving, IdleBehaviour};

fn attack(combo_num: usize) -> EntityState {
    EntityState::Attack(AttackInfo { combo_num, hit_start_frame: 9, hit_end_frame: 20 })
}

fn status(current_frame: usize, has_repeated: bool) -> AnimationStatus {
    AnimationStatus { current_frame, has_repeated }
}

#[test]
fn new_entity_is_idle() {
    let e = Entity::new("player".to_string());
    assert_eq!(e.get_state(), EntityState::Idle);
    assert_eq!(e.queued_action, None);
    assert_eq!(e.weapon_id, NO_WEAPON);
    assert!(!e.is_hit);
}

#[test]
fn next_action_takes_queued_state() {
    let mut e = Entity::new("p".to_string());
    assert_eq!(e.next_action(), None);
    e.queued_action = Some(EntityState::Moving);
    assert_eq!(e.next_action(), Some(PlayerAnimation::Walk));
    assert_eq!(e.get_state(), EntityState::Moving);
    assert_eq!(e.queued_action, None);
    e.queued_action = Some(attack(1));
    assert_eq!(e.next_action(), Some(PlayerAnimation::AttackFollow));
    e.queued_action = Some(attack(0));
    assert_eq!(e.next_action(), Some(PlayerAnimation::Attack));
    e.queued_action = Some(EntityState::Roll);
    assert_eq!(e.next_action(), Some(PlayerAnimation::Roll));
}

#[test]
fn only_idle_and_moving_may_act() {
    assert!(can_perform_action(EntityState::Idle));
    assert!(can_perform_action(EntityState::Moving));
    assert!(!can_perform_action(attack(0)));
    assert!(!can_perform_action(EntityState::Roll));
}

#[test]
fn roll_only_when_free() {
    let mut e = Entity::new("p".to_string());
    perform_roll(&mut e);
    assert_eq!(e.queued_action, Some(EntityState::Roll));
    e.state = attack(0);
    e.queued_action = None;
    perform_roll(&mut e);
    assert_eq!(e.queued_action, None);
}

#[test]
fn attack_combo_alternates() {
    let mut e = Entity::new("p".to_string());
    perform_attack(&mut e, 0);
    assert_eq!(e.queued_action, Some(attack(0)));
    e.next_action();
    // too early in the running attack: dropped
    perform_attack(&mut e, 8);
    assert_eq!(e.queued_action, None);
    perform_attack(&mut e, 9);
    assert_eq!(e.queued_action, Some(attack(1)));
    e.next_action();
    perform_attack(&mut e, 12);
    assert_eq!(e.queued_action, Some(attack(0)));
}

#[test]
fn update_player_state_ends_attack() {
    let mut e = Entity::new("p".to_string());
    e.state = attack(0);
    // inside the hit window: stays
    assert_eq!(update_player_state(&mut e, status(10, false)), None);
    assert_eq!(e.get_state(), attack(0));
    // past the window but nothing queued: stays, no idle queued yet
    assert_eq!(update_player_state(&mut e, status(20, false)), None);
    assert_eq!(e.get_state(), attack(0));
    // clip played through: falls back to idle
    assert_eq!(update_player_state(&mut e, status(3, true)), Some(PlayerAnimation::Idle));
    assert_eq!(e.get_state(), EntityState::Idle);
}

#[test]
fn update_player_state_roll_queues_idle() {
    let mut e = Entity::new("p".to_string());
    e.state = EntityState::Roll;
    assert_eq!(update_player_state(&mut e, status(0, false)), None);
    assert_eq!(e.queued_action, Some(EntityState::Idle));
    assert_eq!(update_player_state(&mut e, status(0, true)), Some(PlayerAnimation::Idle));
    assert_eq!(e.get_state(), EntityState::Idle);
}

#[test]
fn update_player_branches() {
    let mut e = Entity::new("p".to_string());
    let none = PlayerInput { roll: false, attack: false, next_weapon: false };
    let roll = PlayerInput { roll: true, ..none };
    let hit = PlayerInput { attack: true, ..none };
    let switch = PlayerInput { next_weapon: true, ..none };

    assert_eq!(update_player(&mut e, roll, status(0, false), 0).0, PlayerStep::Rolled);
    assert_eq!(e.queued_action, Some(EntityState::Roll));
    // the queued roll starts on the next frame, which then halts the player
    let (step, anim) = update_player(&mut e, none, status(0, false), 0);
    assert_eq!(anim, Some(PlayerAnimation::Roll));
    assert_eq!(step, PlayerStep::Halted);

    let mut e = Entity::new("p".to_string());
    assert_eq!(update_player(&mut e, hit, status(0, false), 0).0, PlayerStep::Attacked);
    assert_eq!(e.queued_action, Some(attack(0)));

    let mut e = Entity::new("p".to_string());
    e.weapon_id = 1;
    assert_eq!(update_player(&mut e, switch, status(0, false), 2).0, PlayerStep::Steer);
    assert_eq!(e.weapon_id, 2);
    update_player(&mut e, switch, status(0, false), 2);
    assert_eq!(e.weapon_id, 0);
}

#[test]
fn weapon_ids_cycle_through_default() {
    assert_eq!(next_weapon_id(NO_WEAPON, 2), (NO_WEAPON + 1) % 3);
    assert_eq!(next_weapon_id(0, 2), 1);
    assert_eq!(next_weapon_id(1, 2), 2);
    assert_eq!(next_weapon_id(2, 2), 0);
    assert_eq!(next_weapon_id(5, 0), 0);
}

#[test]
fn movement_state_queued_on_change() {
    let mut e = Entity::new("p".to_string());
    queue_movement_state(&mut e, false);
    assert_eq!(e.queued_action, None);
    queue_movement_state(&mut e, true);
    assert_eq!(e.queued_action, Some(EntityState::Moving));
}

#[test]
fn behaviours() {
    let b = IdleBehaviour::new();
    let mut e = Entity::new("enemy".to_string());
    b.execute(&mut e);
    assert_eq!(e.queued_action, None);
    assert!(b.finished(&e));
    request_moving(&mut e);
    assert_eq!(e.queued_action, Some(EntityState::Moving));
    e.next_action();
    e.queued_action = None;
    request_moving(&mut e);
    assert_eq!(e.queued_action, None);
}

#[test]
fn update_player_roll_while_attacking_keeps_the_queue() {
    let none = PlayerInput { roll: false, attack: false, next_weapon: false };
    let roll = PlayerInput { roll: true, ..none };
    let mut e = Entity::new("p".to_string());
    e.state = attack(0);
    e.queued_action = Some(EntityState::Moving);
    // frame 3 of an attack whose hit window ends at 20: the attack goes on,
    // the roll press is dropped and the queued move stays
    let (step, anim) = update_player(&mut e, roll, status(3, false), 0);
    assert_eq!(step, PlayerStep::Rolled);
    assert_eq!(anim, None);
    assert_eq!(e.state, attack(0));
    assert_eq!(e.queued_action, Some(EntityState::Moving));
    // once the clip has played through, the move starts and a roll press is queued
    let (_, anim) = update_player(&mut e, roll, status(3, true), 0);
    assert_eq!(anim, Some(PlayerAnimation::Walk));
    assert_eq!(e.state, EntityState::Moving);
    assert_eq!(e.queued_action, Some(EntityState::Roll));
}

#[test]
fn update_player_attack_press_on_a_fresh_attack_clip_is_dropped() {
    let hit = PlayerInput { roll: false, attack: true, next_weapon: false };
    let mut e = Entity::new("p".to_string());
    e.queued_action = Some(attack(0));
    // the queued attack starts now, so its clip is at frame 0, before its
    // hit frame: the press is dropped even though the old clip was at 15
    let (step, anim) = update_player(&mut e, hit, status(15, false), 0);
    assert_eq!(step, PlayerStep::Attacked);
    assert_eq!(anim, Some(PlayerAnimation::Attack));
    assert_eq!(e.state, attack(0));
    assert_eq!(e.queued_action, None);
    // a press later in the same clip, past the hit frame, queues the follow-up
    let (_, anim) = update_player(&mut e, hit, status(12, false), 0);
    assert_eq!(anim, None);
    assert_eq!(e.queued_action, Some(attack(1)));
}
