use vstd::prelude::*;
use std::collections::HashMap;
use crate::entity::Entity;

verus! {

broadcast use vstd::std_specs::hash::group_hash_axioms;

/// Entities of one kind (weapons, enemies), each under a numeric id.
pub struct EntitiesCollection<E> {
    pub next_id: usize,
    pub entities: HashMap<usize, E>,
}

impl<E> EntitiesCollection<E> {
    /// The entities, by id.
    pub open spec fn view(&self) -> Map<usize, E> {
        self.entities@
    }

    /// An empty collection whose id counter starts at 0.
    pub fn new() -> (c: Self)
        ensures
            c@ == Map::<usize, E>::empty(),
            c.next_id == 0,
    {
        EntitiesCollection { next_id: 0, entities: HashMap::new() }
    }

    /// Store `entity` under the id counter's value and return that id. The
    /// counter is not advanced: the next `add` uses the same id again and
    /// replaces this entity.
    pub fn add(&mut self, entity: E) -> (id: usize)
        ensures
            id == old(self).next_id,
            final(self).next_id == old(self).next_id,
            final(self)@ == old(self)@.insert(id, entity),
    {
        let id = self.next_id;
        self.entities.insert(id, entity);
        id
    }

    /// The entity with id `id`, if there is one.
    pub fn get(&self, id: usize) -> (r: Option<&E>)
        ensures
            match r {
                Some(e) => self@.contains_key(id) && *e == self@[id],
                None => !self@.contains_key(id),
            },
    {
        self.entities.get(&id)
    }

    /// Mutable access to the entity with id `id`, if there is one.
    pub fn get_mut(&mut self, id: usize) -> (r: Option<&mut E>)
        ensures
            match r {
                Some(e) => old(self)@.contains_key(id) && *e == old(self)@[id] && final(self)@
                    == old(self)@.insert(id, *final(e)),
                None => !old(self)@.contains_key(id) && final(self)@ == old(self)@,
            },
            final(self).next_id == old(self).next_id,
    {
        match self.entities.entry(id) {
            std::collections::hash_map::Entry::Occupied(o) => Some(o.into_mut()),
            std::collections::hash_map::Entry::Vacant(_) => None,
        }
    }

    /// The ids in use, each once, in the order in which the map is walked.
    pub fn ids(&self) -> (ids: Vec<usize>)
        ensures
            ids@.to_set() == self@.dom(),
            ids@.no_duplicates(),
    {
        let mut ids: Vec<usize> = Vec::new();
        for k in it: self.entities.keys()
            invariant
                ids@ == it.seq().unref().take(it.index() as int),
                it.seq().unref().to_set() == self@.dom(),
                it.seq().no_duplicates(),
                ids@.no_duplicates(),
                it.index() == it.seq().len() ==> {
                    &&& it.seq().unref().take(it.index() as int) =~= it.seq().unref()
                    &&& ids@.to_set() == self@.dom()
                },
        {
            ids.push(*k);
            assert(it.seq().unref().take(it.index() + 1) =~= ids@);
            assert forall|a: int, b: int| 0 <= a < b < ids@.len() implies ids@[a] != ids@[b] by {
                assert(it.seq()[a] != it.seq()[b]);
            }
        }
        ids
    }

    /// The number of entities.
    pub fn count(&self) -> (n: usize)
        ensures
            n == self@.len(),
    {
        proof {
            assert(self@.dom().finite());
        }
        self.entities.len()
    }
}

/// The entities of a level: the player, the weapon it falls back to, the
/// weapons it can pick and the enemies.
pub struct Entities {
    pub player: Entity,
    pub default_weapon: Entity,
    pub weapons: EntitiesCollection<Entity>,
    pub enemies: EntitiesCollection<Entity>,
}

impl Entities {
    /// A placeholder player, the default weapon, and no weapons or enemies.
    pub fn new() -> (es: Entities)
        ensures
            es.player.model_name@ == "Placeholder"@,
            es.default_weapon.model_name@ == "default_weapon"@,
            es.player.state == crate::entity::EntityState::Idle,
            es.player.queued_action.is_none(),
            es.player.weapon_id == crate::entity::NO_WEAPON,
            es.weapons@ == Map::<usize, Entity>::empty(),
            es.enemies@ == Map::<usize, Entity>::empty(),
            es.weapons.next_id == 0,
            es.enemies.next_id == 0,
    {
        Entities {
            enemies: EntitiesCollection::new(),
            weapons: EntitiesCollection::new(),
            player: Entity::new(String::from_str("Placeholder")),
            default_weapon: Entity::new(String::from_str("default_weapon")),
        }
    }

    /// The entities that carry hit boxes: the same as `values`.
    pub fn hitbox_entities(&self) -> (r: Vec<&Entity>)
        ensures
            self.values_spec(r@),
    {
        self.values()
    }

    /// What `values` returns: the player first, then the player's weapon if
    /// the weapon collection has it, then every enemy once, in the order in
    /// which the enemy map is walked.
    pub open spec fn values_spec(&self, r: Seq<&Entity>) -> bool {
        let has_weapon = self.weapons@.contains_key(self.player.weapon_id);
        &&& r.len() == self.enemies_start() + self.enemies@.len()
        &&& *r[0] == self.player
        &&& has_weapon ==> *r[1] == self.weapons@[self.player.weapon_id]
        &&& exists|ids: Seq<usize>| #[trigger]
            lists_values(self.enemies@, ids, r.subrange(self.enemies_start(), r.len() as int).unref())
    }

    /// Where the enemies start in what `values` returns: after the player,
    /// and after its weapon when the weapon collection has it.
    pub open spec fn enemies_start(&self) -> int {
        if self.weapons@.contains_key(self.player.weapon_id) {
            2
        } else {
            1
        }
    }

    /// The player, its weapon if there is one, and all enemies.
    pub fn values(&self) -> (r: Vec<&Entity>)
        ensures
            self.values_spec(r@),
    {
        let mut res: Vec<&Entity> = Vec::new();
        res.push(&self.player);
        match self.weapons.get(self.player.weapon_id) {
            Some(w) => {
                res.push(w);
            },
            None => {},
        }
        let ghost head = res@.len() as int;
        let ids = self.enemies.ids();
        let mut i: usize = 0;
        while i < ids.len()
            invariant
                0 <= i <= ids.len(),
                ids@.to_set() == self.enemies@.dom(),
                ids@.no_duplicates(),
                res@.len() == head + i,
                head == self.enemies_start(),
                *res@[0] == self.player,
                self.weapons@.contains_key(self.player.weapon_id) ==> *res@[1]
                    == self.weapons@[self.player.weapon_id],
                forall|k: int| 0 <= k < i ==> *res@[head + k] == self.enemies@[#[trigger] ids@[k]],
            decreases ids.len() - i,
        {
            let id = ids[i];
            assert(ids@.to_set().contains(id));
            match self.enemies.get(id) {
                Some(e) => {
                    res.push(e);
                },
                None => {
                    assert(false);
                },
            }
            i = i + 1;
        }
        proof {
            ids@.unique_seq_to_set();
            let tail = res@.subrange(head, res@.len() as int).unref();
            assert forall|k: int| 0 <= k < ids@.len() implies tail[k] == self.enemies@[ids@[k]] by {
                assert(tail[k] == *res@[head + k]);
            }
            assert(lists_values(self.enemies@, ids@, tail));
        }
        res
    }
}

/// `vs` holds the values of `m` one for each key, the keys taken in the
/// order `ids`, which lists every key once: the same values, each as often
/// as keys map to it.
pub open spec fn lists_values(m: Map<usize, Entity>, ids: Seq<usize>, vs: Seq<Entity>) -> bool {
    &&& ids.no_duplicates()
    &&& ids.to_set() == m.dom()
    &&& vs.len() == ids.len()
    &&& forall|k: int| 0 <= k < ids.len() ==> vs[k] == m[ids[k]]
}

/// Reading an id back after `add` stored an entity under it gives that
/// entity, and every other id still holds what it held.
pub proof fn lemma_get_after_add<E>(before: Map<usize, E>, id: usize, entity: E)
    ensures
        before.insert(id, entity).contains_key(id),
        before.insert(id, entity)[id] == entity,
        forall|other: usize|
            other != id ==> (before.insert(id, entity).contains_key(other) == before.contains_key(
                other,
            )) && (before.contains_key(other) ==> before.insert(id, entity)[other]
                == before[other]),
{
}

} // verus!
