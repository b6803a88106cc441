use std::time::Instant;
use game_in_rust::action::ActionsInfo;
use game_in_rust::animation_player::{should_transition, AnimationPlayer, Clip};
use game_in_rust::commands::{parse_command, Command};
use game_in_rust::controls::CameraMode;
use game_in_rust::deltatime::Deltatime;
use game_in_rust::entity::PlayerAnimation;
use game_in_rust::ik::legs_can_transition;
use game_in_rust::model::{Model, ModelType};

#[test]
fn console_commands() {
    assert_eq!(parse_command("r\n"), Command::ReloadActions);
    assert_eq!(parse_command("  m "), Command::SwitchRenderMode);
    assert_eq!(parse_command("q"), Command::Quit);
    assert_eq!(parse_command("d\r\n"), Command::DecrementWalkTime);
    assert_eq!(parse_command("w"), Command::IncrementWalkTime);
    assert_eq!(parse_command("quit"), Command::Nop);
    assert_eq!(parse_command(""), Command::Nop);
    assert_eq!(parse_command("x"), Command::Nop);
}

#[test]
fn camera_mode_toggles() {
    assert_eq!(CameraMode::Follow.toggled(), CameraMode::TopDown);
    assert_eq!(CameraMode::TopDown.toggled(), CameraMode::Follow);
}

#[test]
fn attack_starts_without_transition() {
    assert!(!should_transition(PlayerAnimation::Attack));
    assert!(should_transition(PlayerAnimation::Walk));
    assert!(should_transition(PlayerAnimation::AttackFollow));
}

#[test]
fn animation_player_transition_then_target() {
    let mut p = AnimationPlayer::new(Clip::Named(PlayerAnimation::Idle));
    p.set_current(PlayerAnimation::Walk);
    assert_eq!(p.current_animation, Clip::Transition);
    assert_eq!(p.next_animation, Some(Clip::Named(PlayerAnimation::Walk)));
    p.clip_ended();
    assert_eq!(p.current_animation, Clip::Named(PlayerAnimation::Walk));
    assert!(!p.has_repeated);
    p.clip_ended();
    assert_eq!(p.current_animation, Clip::Named(PlayerAnimation::Walk));
    assert!(p.has_repeated);
    p.set_current(PlayerAnimation::Attack);
    assert_eq!(p.current_animation, Clip::Named(PlayerAnimation::Attack));
    assert!(!p.has_repeated);
    assert_eq!(p.next_animation, None);
}

#[test]
fn legs_take_turns() {
    assert_eq!(legs_can_transition(true, true, true), (true, false));
    assert_eq!(legs_can_transition(true, true, false), (false, true));
    assert_eq!(legs_can_transition(true, false, true), (false, true));
    assert_eq!(legs_can_transition(false, true, false), (true, false));
    assert_eq!(legs_can_transition(false, false, false), (true, true));
}

#[test]
fn actions_queue_in_order() {
    let mut a = ActionsInfo::new(3, Some(0u8));
    assert_eq!(a.active, Some(0));
    a.queue.push_back(1);
    a.queue.push_back(2);
    assert_eq!(a.next(false), None);
    assert_eq!(a.active, Some(0));
    assert_eq!(a.next(true), Some(0));
    assert_eq!(a.active, Some(1));
    assert_eq!(a.next(true), Some(1));
    assert_eq!(a.next(true), Some(2));
    assert_eq!(a.active, Some(0));
    let mut b: ActionsInfo<u8> = ActionsInfo::new(1, None);
    assert_eq!(b.next(false), None);
    assert_eq!(b.active, None);
}

#[test]
fn deltatime_starts_at_zero() {
    let mut d = Deltatime::new();
    assert_eq!(d.millis(), 0);
    d.update();
    assert!(d.millis() < 60_000);
}

#[test]
fn model_kinds() {
    let m: Model<u8, &str> = Model::cube(1);
    assert!(matches!(m.model, ModelType::Cube(1)));
    let m: Model<u8, &str> = Model::wave_model("w");
    assert!(matches!(m.model, ModelType::WaveModel("w")));
}

#[test]
fn deltatime_records_a_frame() {
    let mut d = Deltatime::new();
    assert_eq!(d.millis(), 0);
    d.record_frame(42, Instant::now());
    assert_eq!(d.millis(), 42);
    assert_eq!(Deltatime::starting_at(Instant::now()).millis(), 0);
    d.update();
}
