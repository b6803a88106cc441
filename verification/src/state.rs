use vstd::prelude::*;
use std::collections::HashSet;

verus! {

broadcast use vstd::std_specs::hash::group_hash_axioms;

/// Ids of the live shots of each side and of the enemies.
pub struct State {
    pub player_shots: HashSet<usize>,
    pub enemy_shots: HashSet<usize>,
    pub enemies: HashSet<usize>,
}

impl State {
    /// No shots and no enemies.
    pub fn new() -> (s: State)
        ensures
            s.player_shots@ == Set::<usize>::empty(),
            s.enemy_shots@ == Set::<usize>::empty(),
            s.enemies@ == Set::<usize>::empty(),
    {
        State { enemies: HashSet::new(), player_shots: HashSet::new(), enemy_shots: HashSet::new() }
    }

    /// Forget the shot `shot_id`, whichever side fired it.
    pub fn remove_shot(&mut self, shot_id: &usize)
        ensures
            final(self).player_shots@ == old(self).player_shots@.remove(*shot_id),
            final(self).enemy_shots@ == old(self).enemy_shots@.remove(*shot_id),
            final(self).enemies@ == old(self).enemies@,
    {
        self.player_shots.remove(shot_id);
        self.enemy_shots.remove(shot_id);
    }
}

/// After `remove_shot(id)` no side holds the shot `id`, every other shot is
/// still held by the side that held it, and the enemies are untouched.
pub proof fn lemma_remove_shot_forgets_only_that_shot(before: State, after: State, id: usize)
    requires
        after.player_shots@ == before.player_shots@.remove(id),
        after.enemy_shots@ == before.enemy_shots@.remove(id),
        after.enemies@ == before.enemies@,
    ensures
        !after.player_shots@.contains(id),
        !after.enemy_shots@.contains(id),
        forall|other: usize|
            other != id ==> (after.player_shots@.contains(other) <==> before.player_shots@.contains(
                other,
            )) && (after.enemy_shots@.contains(other) <==> before.enemy_shots@.contains(other)),
        after.enemies@ == before.enemies@,
{
}

} // verus!
