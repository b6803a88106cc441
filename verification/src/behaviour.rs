use vstd::prelude::*;
use crate::entity::{Entity, EntityState};

verus! {

/// A behaviour that does nothing and is always finished.
#[derive(Debug, Copy, Clone)]
pub struct IdleBehaviour {}

impl IdleBehaviour {
    pub fn new() -> (b: IdleBehaviour)
        ensures
            b == (IdleBehaviour {}),
    {
        IdleBehaviour {}
    }

    /// Leave the entity as it is.
    pub fn execute(&self, entity: &mut Entity)
        ensures
            *final(entity) == *old(entity),
    {
    }

    /// An idle behaviour is always finished.
    pub fn finished(&self, entity: &Entity) -> (b: bool)
        ensures
            b,
    {
        true
    }
}

/// The state part of walking somewhere: an entity that is not already moving
/// is told to move next. (Where it moves is the caller's business.)
pub fn request_moving(entity: &mut Entity)
    ensures
        final(entity).queued_action == if old(entity).state == EntityState::Moving {
            old(entity).queued_action
        } else {
            Some(EntityState::Moving)
        },
        final(entity).state == old(entity).state,
        final(entity).weapon_id == old(entity).weapon_id,
        final(entity).is_hit == old(entity).is_hit,
        final(entity).model_name == old(entity).model_name,
{
    match entity.get_state() {
        EntityState::Moving => {},
        _ => {
            entity.queued_action = Some(EntityState::Moving);
        },
    }
}

} // verus!
