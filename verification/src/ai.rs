use vstd::prelude::*;
use crate::entities::Entities;
use crate::entity::{Entity, EntityState};

verus! {

broadcast use vstd::std_specs::hash::group_hash_axioms;

/// What one AI step does to an enemy: an idle enemy queues a move towards the
/// player; any other enemy is left as it is.
pub open spec fn ai_step(e: Entity) -> Entity {
    if e.state == EntityState::Idle {
        Entity { queued_action: Some(EntityState::Moving), ..e }
    } else {
        e
    }
}

/// The ids of the enemies in `enemies` that are moving.
pub open spec fn moving_ids(enemies: Map<usize, Entity>) -> Set<usize> {
    Set::new(|id: usize| enemies.contains_key(id) && enemies[id].state == EntityState::Moving)
}

/// Run one step of every enemy's AI. Idle enemies queue a move; the moving
/// ones are to be steered towards the player, which needs their positions:
/// their ids are returned, each once, for the caller to steer. Nothing else
/// changes.
pub fn run_ais(entities: &mut Entities) -> (moving: Vec<usize>)
    ensures
        final(entities).player == old(entities).player,
        final(entities).default_weapon == old(entities).default_weapon,
        final(entities).weapons@ == old(entities).weapons@,
        final(entities).weapons.next_id == old(entities).weapons.next_id,
        final(entities).enemies.next_id == old(entities).enemies.next_id,
        final(entities).enemies@.dom() == old(entities).enemies@.dom(),
        forall|id: usize|
            #[trigger] old(entities).enemies@.contains_key(id) ==> final(entities).enemies@[id]
                == ai_step(old(entities).enemies@[id]),
        moving@.no_duplicates(),
        moving@.to_set() == moving_ids(old(entities).enemies@),
{
    let ghost before = entities.enemies@;
    let ids = entities.enemies.ids();
    let mut moving: Vec<usize> = Vec::new();
    let mut i: usize = 0;
    while i < ids.len()
        invariant
            0 <= i <= ids.len(),
            ids@.to_set() == before.dom(),
            ids@.no_duplicates(),
            entities.enemies@.dom() == before.dom(),
            entities.player == old(entities).player,
            entities.default_weapon == old(entities).default_weapon,
            entities.weapons@ == old(entities).weapons@,
            entities.weapons.next_id == old(entities).weapons.next_id,
            entities.enemies.next_id == old(entities).enemies.next_id,
            before == old(entities).enemies@,
            forall|j: int|
                0 <= j < i ==> entities.enemies@[#[trigger] ids@[j]] == ai_step(before[ids@[j]]),
            forall|j: int| i <= j < ids.len() ==> entities.enemies@[#[trigger] ids@[j]] == before[ids@[j]],
            moving@.no_duplicates(),
            forall|id: usize|
                moving@.contains(id) <==> (exists|j: int|
                    0 <= j < i && #[trigger] ids@[j] == id && before[id].state
                        == EntityState::Moving),
        decreases ids.len() - i,
    {
        let id = ids[i];
        assert(ids@.to_set().contains(id));
        assert(!moving@.contains(id)) by {
            if moving@.contains(id) {
                let j = choose|j: int|
                    0 <= j < i && #[trigger] ids@[j] == id && before[id].state
                        == EntityState::Moving;
                assert(ids@[j] != ids@[i as int]);
            }
        }
        let ghost old_moving = moving@;
        match entities.enemies.get_mut(id) {
            Some(enemy) => {
                match enemy.state {
                    EntityState::Moving => {
                        moving.push(id);
                    },
                    EntityState::Idle => {
                        enemy.queued_action = Some(EntityState::Moving);
                    },
                    _ => {},
                }
            },
            None => {},
        }
        assert(moving@ == if before[id].state == EntityState::Moving {
            old_moving.push(id)
        } else {
            old_moving
        });
        proof {
            assert forall|j: int| 0 <= j < ids.len() && j != i implies ids@[j] != id by {}
            assert forall|x: usize|
                moving@.contains(x) <==> (exists|j: int|
                    0 <= j < i + 1 && #[trigger] ids@[j] == x && before[x].state
                        == EntityState::Moving) by {
                if x == id && before[x].state == EntityState::Moving {
                    assert(ids@[i as int] == x);
                    assert(moving@[old_moving.len() as int] == x);
                }
                if exists|j: int|
                    0 <= j < i + 1 && #[trigger] ids@[j] == x && before[x].state
                        == EntityState::Moving {
                    let j = choose|j: int|
                        0 <= j < i + 1 && #[trigger] ids@[j] == x && before[x].state
                            == EntityState::Moving;
                    if j < i {
                        assert(old_moving.contains(x));
                    }
                }
                if moving@.contains(x) && x != id {
                    let k = choose|k: int| 0 <= k < moving@.len() && moving@[k] == x;
                    assert(old_moving[k] == x);
                    assert(old_moving.contains(x));
                }
                if old_moving.contains(x) {
                    let k = choose|k: int| 0 <= k < old_moving.len() && old_moving[k] == x;
                    assert(moving@[k] == x);
                    let j = choose|j: int|
                        0 <= j < i && #[trigger] ids@[j] == x && before[x].state
                            == EntityState::Moving;
                    assert(ids@[j] == x);
                }
            }
        }
        i = i + 1;
    }
    proof {
        assert forall|id: usize| #[trigger] before.contains_key(id) implies entities.enemies@[id]
            == ai_step(before[id]) by {
            assert(ids@.to_set().contains(id));
            let j = choose|j: int| 0 <= j < ids.len() && ids@[j] == id;
        }
        assert forall|id: usize| moving@.to_set().contains(id) <==> moving_ids(before).contains(id) by {
            if moving_ids(before).contains(id) {
                assert(ids@.to_set().contains(id));
                let j = choose|j: int| 0 <= j < ids.len() && ids@[j] == id;
            }
        }
        assert(moving@.to_set() =~= moving_ids(before));
    }
    moving
}

} // verus!
