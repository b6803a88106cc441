use vstd::prelude::*;
use crate::entities::Entities;
use crate::entity::{animation_for_state, AttackInfo, Entity, EntityState, PlayerAnimation};

verus! {

/// First frame of an attack clip in which the weapon hits.
pub const ATTACK_HIT_START_FRAME: usize = 9;

/// Last frame of an attack clip in which the weapon hits.
pub const ATTACK_HIT_END_FRAME: usize = 20;

/// What an entity's animation player reports this frame.
#[derive(Debug, Copy, Clone, PartialEq, Eq)]
pub struct AnimationStatus {
    /// Number of the frame of the current clip.
    pub current_frame: usize,
    /// Whether the current clip has played to its end at least once.
    pub has_repeated: bool,
}

/// The buttons that steer the player this frame.
#[derive(Debug, Copy, Clone, PartialEq, Eq)]
pub struct PlayerInput {
    pub roll: bool,
    pub attack: bool,
    pub next_weapon: bool,
}

/// Which way `update_player` went.
#[derive(Debug, Copy, Clone, PartialEq, Eq, Structural)]
pub enum PlayerStep {
    /// The roll button was handled.
    Rolled,
    /// The attack button was handled.
    Attacked,
    /// The player is busy (attacking or rolling): it is to stand still.
    Halted,
    /// The player is free to move; the caller steers it and then calls
    /// `queue_movement_state`.
    Steer,
}

/// Idle and moving entities may start a new action; attacking and rolling
/// ones may not.
pub open spec fn spec_can_perform_action(state: EntityState) -> bool {
    match state {
        EntityState::Idle => true,
        EntityState::Moving => true,
        EntityState::Attack(_) => false,
        EntityState::Roll => false,
    }
}

/// A state whose combo counter, if it is an attack, is 0 or 1.
pub open spec fn combo_ok(state: EntityState) -> bool {
    state matches EntityState::Attack(info) ==> info.combo_num <= 1
}

/// The current and the queued state of `e` both satisfy `combo_ok`.
pub open spec fn entity_combo_ok(e: Entity) -> bool {
    &&& combo_ok(e.state)
    &&& (e.queued_action matches Some(q) ==> combo_ok(q))
}

/// The attack that follows one that is in state `state`, at frame `frame`,
/// when the attack button is pressed: `None` when the press comes too early
/// in a running attack and is dropped.
pub open spec fn attack_to_queue(state: EntityState, frame: usize) -> Option<EntityState> {
    match state {
        EntityState::Attack(info) => if frame >= info.hit_start_frame {
            Some(
                EntityState::Attack(
                    AttackInfo {
                        combo_num: (1 - info.combo_num) as usize,
                        hit_start_frame: ATTACK_HIT_START_FRAME,
                        hit_end_frame: ATTACK_HIT_END_FRAME,
                    },
                ),
            )
        } else {
            None
        },
        _ => Some(
            EntityState::Attack(
                AttackInfo {
                    combo_num: 0,
                    hit_start_frame: ATTACK_HIT_START_FRAME,
                    hit_end_frame: ATTACK_HIT_END_FRAME,
                },
            ),
        ),
    }
}

/// Inputs on which `perform_attack` computes the next combo number without
/// going below zero.
pub open spec fn attack_ok(state: EntityState, frame: usize) -> bool {
    match state {
        EntityState::Attack(info) => frame >= info.hit_start_frame ==> info.combo_num <= 1,
        _ => true,
    }
}

/// Whether `update_player_state` advances to the queued state.
pub open spec fn advances(state: EntityState, status: AnimationStatus) -> bool {
    match state {
        EntityState::Attack(info) => status.current_frame >= info.hit_end_frame
            || status.has_repeated,
        EntityState::Roll => status.has_repeated,
        _ => true,
    }
}

/// The queue after `update_player_state` has looked at the state: a finished
/// attack or any roll with nothing queued falls back to idle.
pub open spec fn queue_after_check(
    state: EntityState,
    queued: Option<EntityState>,
    status: AnimationStatus,
) -> Option<EntityState> {
    match state {
        EntityState::Attack(_) => if status.has_repeated && queued.is_none() {
            Some(EntityState::Idle)
        } else {
            queued
        },
        EntityState::Roll => if queued.is_none() {
            Some(EntityState::Idle)
        } else {
            queued
        },
        _ => queued,
    }
}

/// The state that `update_player_state` leaves `e` in.
pub open spec fn state_after_update(e: Entity, status: AnimationStatus) -> EntityState {
    let q = queue_after_check(e.state, e.queued_action, status);
    if advances(e.state, status) && q.is_some() {
        q.unwrap()
    } else {
        e.state
    }
}

/// The queue that `update_player_state` leaves `e` with: empty once the
/// state moved on, else the queue after the check.
pub open spec fn queue_after_update(e: Entity, status: AnimationStatus) -> Option<EntityState> {
    if advances(e.state, status) {
        None
    } else {
        queue_after_check(e.state, e.queued_action, status)
    }
}

/// The clip that `update_player_state` names: the clip of the state moved
/// to, if the state moved on to a queued one.
pub open spec fn anim_after_update(e: Entity, status: AnimationStatus) -> Option<PlayerAnimation> {
    let q = queue_after_check(e.state, e.queued_action, status);
    if advances(e.state, status) && q.is_some() {
        Some(animation_for_state(q.unwrap()))
    } else {
        None
    }
}

/// The frame of the clip playing once `update_player_state` has run: a clip
/// it starts plays from frame 0; otherwise the clip goes on at
/// `status.current_frame`.
pub open spec fn frame_after_update(e: Entity, status: AnimationStatus) -> usize {
    if anim_after_update(e, status).is_some() {
        0
    } else {
        status.current_frame
    }
}

/// The queue that `update_player` leaves `e` with: a roll press queues a
/// roll when the player may start an action, an attack press queues the
/// attack that `attack_to_queue` gives at the frame of the clip then
/// playing; otherwise the queue is what `update_player_state` left.
pub open spec fn queue_after_player_update(
    e: Entity,
    input: PlayerInput,
    status: AnimationStatus,
) -> Option<EntityState> {
    let s = state_after_update(e, status);
    let q0 = queue_after_update(e, status);
    if input.roll {
        if spec_can_perform_action(s) {
            Some(EntityState::Roll)
        } else {
            q0
        }
    } else if input.attack {
        match attack_to_queue(s, frame_after_update(e, status)) {
            Some(a) => Some(a),
            None => q0,
        }
    } else {
        q0
    }
}

/// Whether an entity in `state` may start a new action.
pub fn can_perform_action(state: EntityState) -> (b: bool)
    ensures
        b == spec_can_perform_action(state),
{
    match state {
        EntityState::Idle => true,
        EntityState::Moving => true,
        EntityState::Attack(_) => false,
        EntityState::Roll => false,
    }
}

/// Queue a roll if the entity may start a new action; otherwise leave it be.
pub fn perform_roll(entity: &mut Entity)
    ensures
        entity_combo_ok(*old(entity)) ==> entity_combo_ok(*final(entity)),
        final(entity).queued_action == if spec_can_perform_action(old(entity).state) {
            Some(EntityState::Roll)
        } else {
            old(entity).queued_action
        },
        final(entity).state == old(entity).state,
        final(entity).weapon_id == old(entity).weapon_id,
        final(entity).is_hit == old(entity).is_hit,
        final(entity).model_name == old(entity).model_name,
{
    if can_perform_action(entity.get_state()) {
        entity.queued_action = Some(EntityState::Roll);
    }
}

/// Queue an attack. Outside an attack it is the first hit of a combo; during
/// one it is the other hit of the combo, once the running attack has reached
/// its first hit frame (an earlier press is dropped, so that presses are not
/// buffered for too long).
pub fn perform_attack(entity: &mut Entity, current_frame: usize)
    requires
        attack_ok(old(entity).state, current_frame),
    ensures
        entity_combo_ok(*old(entity)) ==> entity_combo_ok(*final(entity)),
        final(entity).queued_action == match attack_to_queue(old(entity).state, current_frame) {
            Some(s) => Some(s),
            None => old(entity).queued_action,
        },
        final(entity).state == old(entity).state,
        final(entity).weapon_id == old(entity).weapon_id,
        final(entity).is_hit == old(entity).is_hit,
        final(entity).model_name == old(entity).model_name,
{
    match entity.get_state() {
        EntityState::Attack(info) => {
            if current_frame >= info.hit_start_frame {
                let attack_info = AttackInfo {
                    combo_num: 1 - info.combo_num,
                    hit_start_frame: ATTACK_HIT_START_FRAME,
                    hit_end_frame: ATTACK_HIT_END_FRAME,
                };
                entity.queued_action = Some(EntityState::Attack(attack_info));
            }
        },
        _ => {
            let attack_info = AttackInfo {
                combo_num: 0,
                hit_start_frame: ATTACK_HIT_START_FRAME,
                hit_end_frame: ATTACK_HIT_END_FRAME,
            };
            entity.queued_action = Some(EntityState::Attack(attack_info));
        },
    }
}

/// Move a busy player on once its action is done: an attack once its hit
/// window has passed or its clip has played through (falling back to idle if
/// nothing is queued), a roll once its clip has played through (idle is queued
/// if nothing else is), any other state at once. The result is the clip to
/// switch to, if the state changed.
pub fn update_player_state(player: &mut Entity, status: AnimationStatus) -> (anim: Option<
    PlayerAnimation,
>)
    ensures
        ({
            let q = queue_after_check(old(player).state, old(player).queued_action, status);
            if advances(old(player).state, status) {
                &&& final(player).queued_action.is_none()
                &&& match q {
                    Some(s) => final(player).state == s && anim == Some(animation_for_state(s)),
                    None => final(player).state == old(player).state && anim.is_none(),
                }
            } else {
                &&& final(player).queued_action == q
                &&& final(player).state == old(player).state
                &&& anim.is_none()
            }
        }),
        final(player).state == state_after_update(*old(player), status),
        final(player).queued_action == queue_after_update(*old(player), status),
        anim == anim_after_update(*old(player), status),
        (old(player).state matches EntityState::Attack(info) && status.current_frame
            >= info.hit_end_frame && old(player).queued_action.is_some()) ==> {
            &&& final(player).state == old(player).queued_action.unwrap()
            &&& final(player).queued_action.is_none()
            &&& anim == Some(animation_for_state(old(player).queued_action.unwrap()))
        },
        entity_combo_ok(*old(player)) ==> entity_combo_ok(*final(player)),
        final(player).weapon_id == old(player).weapon_id,
        final(player).is_hit == old(player).is_hit,
        final(player).model_name == old(player).model_name,
{
    let mut next_action = false;
    match player.get_state() {
        EntityState::Attack(info) => {
            next_action = next_action || status.current_frame >= info.hit_end_frame;
            if status.has_repeated {
                next_action = true;
                if player.queued_action.is_none() {
                    player.queued_action = Some(EntityState::Idle);
                }
            }
        },
        EntityState::Roll => {
            next_action = status.has_repeated;
            if player.queued_action.is_none() {
                player.queued_action = Some(EntityState::Idle);
            }
        },
        _ => {
            next_action = true;
        },
    }
    if next_action {
        player.next_action()
    } else {
        None
    }
}

/// Weapon id after switching to the next weapon: ids run over the `count`
/// weapons of the collection and one more id that stands for the default
/// weapon, then start again at 0.
pub open spec fn spec_next_weapon_id(weapon_id: usize, count: usize) -> usize {
    ((weapon_id + 1) % (count + 1)) as usize
}

/// Weapon id after switching to the next weapon.
pub fn next_weapon_id(weapon_id: usize, count: usize) -> (r: usize)
    requires
        weapon_id < usize::MAX,
        count < usize::MAX,
    ensures
        r == spec_next_weapon_id(weapon_id, count),
        r <= count,
{
    (weapon_id + 1) % (count + 1)
}

/// Inputs on which `update_player` runs without an arithmetic fault.
pub open spec fn update_player_ok(
    player: Entity,
    input: PlayerInput,
    status: AnimationStatus,
    weapon_count: usize,
) -> bool {
    let s = state_after_update(player, status);
    &&& (!input.roll && input.attack ==> attack_ok(s, frame_after_update(player, status)))
    &&& (!input.roll && !input.attack && spec_can_perform_action(s) && input.next_weapon ==> {
        &&& player.weapon_id < usize::MAX
        &&& weapon_count < usize::MAX
    })
}

fn clip_restarts(player: &Entity, status: AnimationStatus) -> (b: bool)
    ensures
        b == anim_after_update(*player, status).is_some(),
{
    let queued_some = match player.state {
        EntityState::Attack(_) => (status.has_repeated && player.queued_action.is_none())
            || player.queued_action.is_some(),
        EntityState::Roll => true,
        _ => player.queued_action.is_some(),
    };
    let advance = match player.state {
        EntityState::Attack(info) => status.current_frame >= info.hit_end_frame
            || status.has_repeated,
        EntityState::Roll => status.has_repeated,
        _ => true,
    };
    advance && queued_some
}

fn next_state(player: &Entity, status: AnimationStatus) -> (s: EntityState)
    ensures
        s == state_after_update(*player, status),
{
    let queued = match player.state {
        EntityState::Attack(_) => if status.has_repeated && player.queued_action.is_none() {
            Some(EntityState::Idle)
        } else {
            player.queued_action
        },
        EntityState::Roll => if player.queued_action.is_none() {
            Some(EntityState::Idle)
        } else {
            player.queued_action
        },
        _ => player.queued_action,
    };
    let advance = match player.state {
        EntityState::Attack(info) => status.current_frame >= info.hit_end_frame
            || status.has_repeated,
        EntityState::Roll => status.has_repeated,
        _ => true,
    };
    match queued {
        Some(q) => if advance {
            q
        } else {
            player.state
        },
        None => player.state,
    }
}

/// Whether `update_player` accepts these inputs (see `update_player_ok`):
/// callers that cannot show it otherwise test it first.
pub fn update_player_accepts(
    player: &Entity,
    input: PlayerInput,
    status: AnimationStatus,
    weapon_count: usize,
) -> (b: bool)
    ensures
        b == update_player_ok(*player, input, status, weapon_count),
{
    let s = next_state(player, status);
    let frame = if clip_restarts(player, status) {
        0
    } else {
        status.current_frame
    };
    if !input.roll && input.attack {
        match s {
            EntityState::Attack(info) => {
                if frame >= info.hit_start_frame && info.combo_num > 1 {
                    return false;
                }
            },
            _ => {},
        }
    }
    if !input.roll && !input.attack && can_perform_action(s) && input.next_weapon {
        if player.weapon_id == usize::MAX || weapon_count == usize::MAX {
            return false;
        }
    }
    true
}

/// The decisions of one frame of player control: first the state is moved on
/// (`update_player_state`); then a roll press queues a roll, else an attack
/// press queues an attack (judged at the frame of the clip then playing,
/// which is frame 0 when the state has just moved on), else a busy player
/// is halted, else the weapon switch is handled and the player is left to be
/// steered. The result names the branch taken and the clip to switch to, if
/// any.
pub fn update_player(
    player: &mut Entity,
    input: PlayerInput,
    status: AnimationStatus,
    weapon_count: usize,
) -> (res: (PlayerStep, Option<PlayerAnimation>))
    requires
        update_player_ok(*old(player), input, status, weapon_count),
    ensures
        final(player).state == state_after_update(*old(player), status),
        final(player).queued_action == queue_after_player_update(*old(player), input, status),
        res.1 == anim_after_update(*old(player), status),
        entity_combo_ok(*old(player)) ==> entity_combo_ok(*final(player)),
        res.0 == if input.roll {
            PlayerStep::Rolled
        } else if input.attack {
            PlayerStep::Attacked
        } else if !spec_can_perform_action(state_after_update(*old(player), status)) {
            PlayerStep::Halted
        } else {
            PlayerStep::Steer
        },
        final(player).weapon_id == if res.0 == PlayerStep::Steer && input.next_weapon {
            spec_next_weapon_id(old(player).weapon_id, weapon_count)
        } else {
            old(player).weapon_id
        },
        final(player).is_hit == old(player).is_hit,
        final(player).model_name == old(player).model_name,
{
    let anim = update_player_state(player, status);
    if input.roll {
        perform_roll(player);
        return (PlayerStep::Rolled, anim);
    }
    if input.attack {
        // A clip that has just started plays from its first frame.
        let frame = if anim.is_some() {
            0
        } else {
            status.current_frame
        };
        perform_attack(player, frame);
        return (PlayerStep::Attacked, anim);
    }
    if !can_perform_action(player.get_state()) {
        return (PlayerStep::Halted, anim);
    }
    if input.next_weapon {
        player.weapon_id = next_weapon_id(player.weapon_id, weapon_count);
    }
    (PlayerStep::Steer, anim)
}

/// Queue moving or idle, whichever matches whether the player moves, unless
/// the player is already in that state.
pub fn queue_movement_state(player: &mut Entity, moving: bool)
    ensures
        ({
            let target = if moving {
                EntityState::Moving
            } else {
                EntityState::Idle
            };
            final(player).queued_action == if old(player).state != target {
                Some(target)
            } else {
                old(player).queued_action
            }
        }),
        entity_combo_ok(*old(player)) ==> entity_combo_ok(*final(player)),
        final(player).state == old(player).state,
        final(player).weapon_id == old(player).weapon_id,
        final(player).is_hit == old(player).is_hit,
        final(player).model_name == old(player).model_name,
{
    let target_state = if moving {
        EntityState::Moving
    } else {
        EntityState::Idle
    };
    if player.get_state() != target_state {
        player.queued_action = Some(target_state);
    }
}

/// An entity whose combo counters are 0 or 1 can always be sent an attack
/// press: `perform_attack` and `update_player` accept it.
pub proof fn lemma_combo_ok_attack_ok(
    player: Entity,
    input: PlayerInput,
    status: AnimationStatus,
    weapon_count: usize,
)
    requires
        entity_combo_ok(player),
        player.weapon_id < usize::MAX,
        weapon_count < usize::MAX,
    ensures
        attack_ok(player.state, status.current_frame),
        update_player_ok(player, input, status, weapon_count),
{
}

/// The hits of a combo alternate: pressing attack once the running attack
/// has reached its hit frame queues the other hit, whose clip is the other
/// of the two attack clips, and pressing it again during that hit, once its
/// hit frame is reached, brings back the first clip. Pressing attack outside
/// an attack always starts with the first hit.
pub proof fn lemma_combo_alternates(state: EntityState, frame: usize, next_frame: usize)
    requires
        combo_ok(state),
        next_frame >= ATTACK_HIT_START_FRAME,
    ensures
        state matches EntityState::Attack(info) && frame >= info.hit_start_frame ==> {
            let next = attack_to_queue(state, frame).unwrap();
            &&& combo_ok(next)
            &&& animation_for_state(next) != animation_for_state(state)
            &&& animation_for_state(attack_to_queue(next, next_frame).unwrap()) == animation_for_state(
                state,
            )
        },
        !(state is Attack) ==> animation_for_state(attack_to_queue(state, frame).unwrap())
            == PlayerAnimation::Attack,
{
}

/// Whether the player's weapon hits in frame `frame` of the current clip:
/// only while attacking, and only from the attack's first hit frame to its
/// last, both included.
pub open spec fn spec_weapon_hits_active(state: EntityState, frame: usize) -> bool {
    match state {
        EntityState::Attack(info) => info.hit_start_frame <= frame <= info.hit_end_frame,
        _ => false,
    }
}

/// Whether the player's weapon hits in frame `current_frame` (see
/// `spec_weapon_hits_active`).
pub fn weapon_hits_active(player: &Entity, current_frame: usize) -> (b: bool)
    ensures
        b == spec_weapon_hits_active(player.state, current_frame),
{
    match player.get_state() {
        EntityState::Attack(info) => info.hit_start_frame <= current_frame && current_frame
            <= info.hit_end_frame,
        _ => false,
    }
}

/// Record the weapon's hits of this frame. When the weapon hits in frame
/// `current_frame`, every enemy is marked hit exactly when its id is among
/// `touching`, the enemies that the weapon touches; the result is then
/// `true`. Otherwise nothing changes and the result is `false`.
pub fn resolve_weapon_hits(entities: &mut Entities, current_frame: usize, touching: &Vec<usize>) -> (active: bool)
    ensures
        active == spec_weapon_hits_active(old(entities).player.state, current_frame),
        final(entities).player == old(entities).player,
        final(entities).default_weapon == old(entities).default_weapon,
        final(entities).weapons@ == old(entities).weapons@,
        final(entities).weapons.next_id == old(entities).weapons.next_id,
        final(entities).enemies.next_id == old(entities).enemies.next_id,
        final(entities).enemies@.dom() == old(entities).enemies@.dom(),
        forall|id: usize|
            #[trigger] old(entities).enemies@.contains_key(id) ==> final(entities).enemies@[id] == if active {
                Entity { is_hit: touching@.contains(id), ..old(entities).enemies@[id] }
            } else {
                old(entities).enemies@[id]
            },
{
    if !weapon_hits_active(&entities.player, current_frame) {
        return false;
    }
    let ghost before = entities.enemies@;
    let ids = entities.enemies.ids();
    let mut i: usize = 0;
    while i < ids.len()
        invariant
            0 <= i <= ids.len(),
            ids@.to_set() == before.dom(),
            ids@.no_duplicates(),
            entities.enemies@.dom() == before.dom(),
            entities.player == old(entities).player,
            entities.default_weapon == old(entities).default_weapon,
            entities.weapons@ == old(entities).weapons@,
            entities.weapons.next_id == old(entities).weapons.next_id,
            entities.enemies.next_id == old(entities).enemies.next_id,
            before == old(entities).enemies@,
            forall|j: int|
                0 <= j < i ==> entities.enemies@[#[trigger] ids@[j]] == (Entity {
                    is_hit: touching@.contains(ids@[j]),
                    ..before[ids@[j]]
                }),
            forall|j: int| i <= j < ids.len() ==> entities.enemies@[#[trigger] ids@[j]] == before[ids@[j]],
        decreases ids.len() - i,
    {
        let id = ids[i];
        assert(ids@.to_set().contains(id));
        let mut hit = false;
        let mut k: usize = 0;
        while k < touching.len()
            invariant
                0 <= k <= touching.len(),
                hit == touching@.take(k as int).contains(id),
            decreases touching.len() - k,
        {
            proof {
                let t0 = touching@.take(k as int);
                let t1 = touching@.take(k + 1);
                assert(t1 =~= t0.push(touching@[k as int]));
                if t1.contains(id) && touching@[k as int] != id {
                    let w = choose|w: int| 0 <= w < t1.len() && t1[w] == id;
                    assert(t0[w] == id);
                }
                if t0.contains(id) {
                    let w = choose|w: int| 0 <= w < t0.len() && t0[w] == id;
                    assert(t1[w] == id);
                }
                if touching@[k as int] == id {
                    assert(t1[k as int] == id);
                }
            }
            if touching[k] == id {
                hit = true;
            }
            k = k + 1;
        }
        assert(touching@.take(touching.len() as int) =~= touching@);
        match entities.enemies.get_mut(id) {
            Some(enemy) => {
                enemy.is_hit = hit;
            },
            None => {},
        }
        proof {
            assert forall|j: int| 0 <= j < ids.len() && j != i implies ids@[j] != id by {}
        }
        i = i + 1;
    }
    proof {
        assert forall|id: usize| #[trigger] before.contains_key(id) implies entities.enemies@[id]
            == (Entity { is_hit: touching@.contains(id), ..before[id] }) by {
            assert(ids@.to_set().contains(id));
            let j = choose|j: int| 0 <= j < ids.len() && ids@[j] == id;
        }
    }
    true
}

/// An attack moves on once its hit window is over: an attacking player
/// whose clip has reached the attack's last hit frame goes into the queued
/// state at the next update, the queue emptying and the new state's clip
/// starting; while the window is open and the clip has not played through,
/// the attack goes on and the queue is kept; and an attack whose clip has
/// played through with nothing queued falls back to idle.
pub proof fn lemma_attack_moves_on_after_hit_window(e: Entity, status: AnimationStatus)
    requires
        e.state is Attack,
    ensures
        ({
            let info = e.state->Attack_0;
            &&& status.current_frame >= info.hit_end_frame && e.queued_action.is_some() ==> {
                &&& state_after_update(e, status) == e.queued_action.unwrap()
                &&& queue_after_update(e, status).is_none()
                &&& anim_after_update(e, status) == Some(
                    animation_for_state(e.queued_action.unwrap()),
                )
            }
            &&& status.current_frame < info.hit_end_frame && !status.has_repeated ==> {
                &&& state_after_update(e, status) == e.state
                &&& queue_after_update(e, status) == e.queued_action
                &&& anim_after_update(e, status).is_none()
            }
            &&& status.has_repeated && e.queued_action.is_none() ==> {
                &&& state_after_update(e, status) == EntityState::Idle
                &&& queue_after_update(e, status).is_none()
                &&& anim_after_update(e, status) == Some(PlayerAnimation::Idle)
            }
        }),
{
}

} // verus!
