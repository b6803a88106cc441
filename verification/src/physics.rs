use vstd::prelude::*;

verus! {

/// Two entities, by id, that were found to collide.
#[derive(Debug, Copy, Clone, PartialEq, Eq, Structural)]
pub struct EntityCollision {
    pub entity_1_id: usize,
    pub entity_2_id: usize,
}

} // verus!
