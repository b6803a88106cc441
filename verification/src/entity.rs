use vstd::prelude::*;

verus! {

/// Frame window of an attack and its place in a two-hit combo.
#[derive(Debug, Copy, Clone, PartialEq, Eq, Structural)]
pub struct AttackInfo {
    pub combo_num: usize,
    pub hit_start_frame: usize,
    pub hit_end_frame: usize,
}

/// What an entity is doing.
#[derive(Debug, Copy, Clone, PartialEq, Eq, Structural)]
pub enum EntityState {
    Idle,
    Moving,
    Attack(AttackInfo),
    Roll,
}

/// The animation clips an animation player can be asked to play.
#[derive(Debug, Copy, Clone, PartialEq, Eq, Structural)]
pub enum PlayerAnimation {
    TPose,
    Idle,
    Walk,
    Attack,
    AttackFollow,
    Roll,
}

/// The clip that an entity plays when it enters `state`: the follow-up attack
/// clip for the second hit of a combo, the plain one otherwise.
pub open spec fn animation_for_state(state: EntityState) -> PlayerAnimation {
    match state {
        EntityState::Moving => PlayerAnimation::Walk,
        EntityState::Attack(info) => if info.combo_num == 1 {
            PlayerAnimation::AttackFollow
        } else {
            PlayerAnimation::Attack
        },
        EntityState::Idle => PlayerAnimation::Idle,
        EntityState::Roll => PlayerAnimation::Roll,
    }
}

/// Weapon id that an entity starts with: one that no weapon collection hands out
/// in practice, so that the entity fights with its default weapon.
pub const NO_WEAPON: usize = 9999999;

/// The part of a game entity that its state logic reads and writes: the
/// current state, the state queued to follow it, the weapon it holds and
/// whether it was hit this frame.
#[derive(Debug, Clone)]
pub struct Entity {
    pub model_name: String,
    /// The current state; `next_action` changes it together with the clip.
    pub state: EntityState,
    pub weapon_id: usize,
    pub is_hit: bool,
    pub queued_action: Option<EntityState>,
}

impl Entity {
    /// The current state.
    pub open spec fn state(&self) -> EntityState {
        self.state
    }

    /// A fresh entity: idle, nothing queued, not hit, holding no weapon.
    pub fn new(model_name: String) -> (e: Entity)
        ensures
            e.state() == EntityState::Idle,
            e.queued_action.is_none(),
            e.weapon_id == NO_WEAPON,
            !e.is_hit,
            e.model_name@ == model_name@,
    {
        Entity {
            model_name,
            state: EntityState::Idle,
            weapon_id: NO_WEAPON,
            is_hit: false,
            queued_action: None,
        }
    }

    /// The current state.
    pub fn get_state(&self) -> (s: EntityState)
        ensures
            s == self.state(),
    {
        self.state
    }

    /// Enter `state` and name the clip to play for it.
    fn update_state(&mut self, state: EntityState) -> (anim: PlayerAnimation)
        ensures
            final(self).state() == state,
            anim == animation_for_state(state),
            final(self).queued_action == old(self).queued_action,
            final(self).weapon_id == old(self).weapon_id,
            final(self).is_hit == old(self).is_hit,
            final(self).model_name == old(self).model_name,
    {
        self.state = state;
        match state {
            EntityState::Moving => PlayerAnimation::Walk,
            EntityState::Attack(info) => {
                if info.combo_num == 1 {
                    PlayerAnimation::AttackFollow
                } else {
                    PlayerAnimation::Attack
                }
            },
            EntityState::Idle => PlayerAnimation::Idle,
            EntityState::Roll => PlayerAnimation::Roll,
        }
    }

    /// Move to the queued state, if there is one, and empty the queue. The
    /// result is the clip the entity's animation player is to switch to, or
    /// `None` when nothing was queued and nothing changes.
    pub fn next_action(&mut self) -> (anim: Option<PlayerAnimation>)
        ensures
            final(self).queued_action.is_none(),
            match old(self).queued_action {
                Some(s) => final(self).state() == s && anim == Some(animation_for_state(s)),
                None => final(self).state() == old(self).state() && anim.is_none(),
            },
            final(self).weapon_id == old(self).weapon_id,
            final(self).is_hit == old(self).is_hit,
            final(self).model_name == old(self).model_name,
    {
        match self.queued_action {
            Some(action) => {
                let anim = self.update_state(action);
                self.queued_action = None;
                Some(anim)
            },
            None => None,
        }
    }
}

} // verus!
