use vstd::prelude::*;
use crate::entity::PlayerAnimation;

verus! {

/// Whether switching to `animation` blends in through a transition clip:
/// every clip does except the attack, which starts at once.
pub open spec fn spec_should_transition(animation: PlayerAnimation) -> bool {
    animation != PlayerAnimation::Attack
}

/// Whether switching to `animation` blends in through a transition clip.
pub fn should_transition(animation: PlayerAnimation) -> (b: bool)
    ensures
        b == spec_should_transition(animation),
        b == (animation != PlayerAnimation::Attack),
{
    match animation {
        PlayerAnimation::Attack => false,
        _ => true,
    }
}

/// A clip an animation player can play: one of the named clips, or the
/// short blend from the pose it was in into the next clip. The clip data and
/// the playing time are kept by the caller.
#[derive(Debug, Copy, Clone, PartialEq, Eq, Structural)]
pub enum Clip {
    Named(PlayerAnimation),
    Transition,
}

/// Which clip an animation player plays and which one follows it.
#[derive(Debug, Copy, Clone, PartialEq, Eq, Structural)]
pub struct AnimationPlayer {
    pub current_animation: Clip,
    pub next_animation: Option<Clip>,
    pub has_repeated: bool,
}

/// The player after `transition_into_next(animation)`: the blend plays,
/// with `animation` to follow.
pub open spec fn after_transition(animation: PlayerAnimation) -> AnimationPlayer {
    AnimationPlayer {
        current_animation: Clip::Transition,
        next_animation: Some(Clip::Named(animation)),
        has_repeated: false,
    }
}

/// The player after `set_current(animation)`: a blend into `animation`,
/// except for the attack, which starts at once with nothing to follow.
pub open spec fn after_set_current(animation: PlayerAnimation) -> AnimationPlayer {
    if spec_should_transition(animation) {
        after_transition(animation)
    } else {
        AnimationPlayer {
            current_animation: Clip::Named(animation),
            next_animation: None,
            has_repeated: false,
        }
    }
}

/// The player after `clip_ended`.
pub open spec fn after_clip_end(p: AnimationPlayer) -> AnimationPlayer {
    match p.next_animation {
        Some(next) => AnimationPlayer {
            current_animation: next,
            next_animation: None,
            has_repeated: false,
        },
        None => AnimationPlayer {
            current_animation: p.current_animation,
            next_animation: None,
            has_repeated: true,
        },
    }
}

impl AnimationPlayer {
    /// Playing `current_animation` from its start, nothing to follow.
    pub fn new(current_animation: Clip) -> (p: Self)
        ensures
            p == (AnimationPlayer { current_animation, next_animation: None, has_repeated: false }),
    {
        AnimationPlayer { current_animation, next_animation: None, has_repeated: false }
    }

    /// Switch to `animation`: through a blend, or at once for the attack.
    pub fn set_current(&mut self, animation: PlayerAnimation)
        ensures
            *final(self) == after_set_current(animation),
            animation != PlayerAnimation::Attack ==> {
                &&& final(self).current_animation == Clip::Transition
                &&& final(self).next_animation == Some(Clip::Named(animation))
            },
            animation == PlayerAnimation::Attack ==> {
                &&& final(self).current_animation == Clip::Named(animation)
                &&& final(self).next_animation.is_none()
            },
            !final(self).has_repeated,
    {
        if should_transition(animation) {
            self.transition_into_next(animation);
        } else {
            self.current_animation = Clip::Named(animation);
            self.next_animation = None;
            self.has_repeated = false;
        }
    }

    /// Blend into `animation`: play the blend clip first, then `animation`.
    fn transition_into_next(&mut self, animation: PlayerAnimation)
        ensures
            *final(self) == after_transition(animation),
    {
        self.next_animation = Some(Clip::Named(animation));
        self.current_animation = Clip::Transition;
        self.has_repeated = false;
    }

    /// The current clip has played to its end: the clip that was to follow
    /// starts, or, if none was, the player notes that the clip has repeated.
    pub fn clip_ended(&mut self)
        ensures
            *final(self) == after_clip_end(*old(self)),
    {
        match self.next_animation.take() {
            Some(next) => {
                self.current_animation = next;
                self.has_repeated = false;
            },
            None => {
                self.has_repeated = true;
            },
        }
    }
}

/// A switch ends in the requested clip: after `set_current(animation)` and
/// the end of the blend (if there is one), `animation` plays from its start
/// with nothing queued; when it ends in turn it repeats rather than
/// switching.
pub proof fn lemma_switch_reaches_target(animation: PlayerAnimation)
    ensures
        ({
            let p = after_set_current(animation);
            let started = if spec_should_transition(animation) {
                after_clip_end(p)
            } else {
                p
            };
            &&& started == (AnimationPlayer {
                current_animation: Clip::Named(animation),
                next_animation: None,
                has_repeated: false,
            })
            &&& after_clip_end(started).current_animation == Clip::Named(animation)
            &&& after_clip_end(started).has_repeated
        }),
{
}

/// Only the attack starts at once: switching to any other clip blends into
/// it, the blend playing first with the requested clip to follow, whatever
/// the player was playing before.
pub proof fn lemma_only_attack_starts_at_once(animation: PlayerAnimation)
    ensures
        spec_should_transition(animation) <==> animation != PlayerAnimation::Attack,
        animation != PlayerAnimation::Attack ==> {
            &&& after_set_current(animation).current_animation == Clip::Transition
            &&& after_set_current(animation).next_animation == Some(Clip::Named(animation))
        },
        animation == PlayerAnimation::Attack ==> {
            &&& after_set_current(animation).current_animation == Clip::Named(animation)
            &&& after_set_current(animation).next_animation.is_none()
        },
        !after_set_current(animation).has_repeated,
{
}

} // verus!
