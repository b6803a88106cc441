use vstd::prelude::*;
use std::collections::HashMap;

verus! {

broadcast use vstd::std_specs::hash::group_hash_axioms;

/// An entity of an `EntityManager`: its id, the model it is drawn with, and
/// its motion state `P` (position, velocity and the like).
#[derive(Debug, Copy, Clone)]
pub struct ManagedEntity<P> {
    pub id: usize,
    pub model_id: usize,
    pub motion: P,
}

/// Entities under ids handed out one after the other, starting at 1, and
/// the models they are drawn with, by index.
pub struct EntityManager<P, M> {
    next_id: usize,
    entities: HashMap<usize, ManagedEntity<P>>,
    models: Vec<M>,
}

impl<P: Copy, M> EntityManager<P, M> {
    /// The entities, by id.
    pub closed spec fn view(&self) -> Map<usize, ManagedEntity<P>> {
        self.entities@
    }

    /// The id the next added entity gets.
    pub closed spec fn spec_next_id(&self) -> usize {
        self.next_id
    }

    /// The models, by index.
    pub closed spec fn spec_models(&self) -> Seq<M> {
        self.models@
    }

    /// No entities and no models; the first id is 1.
    pub fn new() -> (m: Self)
        ensures
            m@ == Map::<usize, ManagedEntity<P>>::empty(),
            m.spec_next_id() == 1,
            m.spec_models() == Seq::<M>::empty(),
    {
        EntityManager { next_id: 1, entities: HashMap::new(), models: Vec::new() }
    }

    fn next_entity(&mut self, model_id: usize, motion: P) -> (id: usize)
        requires
            old(self).spec_next_id() < usize::MAX,
        ensures
            id == old(self).spec_next_id(),
            final(self).spec_next_id() == id + 1,
            final(self)@ == old(self)@.insert(id, ManagedEntity { id, model_id, motion }),
            final(self).spec_models() == old(self).spec_models(),
    {
        let id = self.next_id;
        self.next_id = self.next_id + 1;
        let e = ManagedEntity { id, model_id, motion };
        self.entities.insert(id, e);
        id
    }

    /// Put `entity` under its own id, replacing what was there.
    pub fn update_entity(&mut self, entity: ManagedEntity<P>)
        ensures
            final(self)@ == old(self)@.insert(entity.id, entity),
            final(self).spec_next_id() == old(self).spec_next_id(),
            final(self).spec_models() == old(self).spec_models(),
    {
        self.entities.insert(entity.id, entity);
    }

    /// Drop the entity with id `id`, if there is one.
    pub fn remove_entity(&mut self, id: usize)
        ensures
            final(self)@ == old(self)@.remove(id),
            final(self).spec_next_id() == old(self).spec_next_id(),
            final(self).spec_models() == old(self).spec_models(),
    {
        self.entities.remove(&id);
    }

    /// Add an entity drawn with model `model_id` in the motion state
    /// `motion`, under the next id, which is returned.
    pub fn add_entity(&mut self, model_id: usize, motion: P) -> (id: usize)
        requires
            old(self).spec_next_id() < usize::MAX,
        ensures
            id == old(self).spec_next_id(),
            final(self).spec_next_id() == id + 1,
            final(self)@ == old(self)@.insert(id, ManagedEntity { id, model_id, motion }),
            final(self).spec_models() == old(self).spec_models(),
    {
        self.next_entity(model_id, motion)
    }

    /// A copy of the entity with id `id`, if there is one.
    pub fn get_entity(&self, id: usize) -> (r: Option<ManagedEntity<P>>)
        ensures
            match r {
                Some(e) => self@.contains_key(id) && e == self@[id],
                None => !self@.contains_key(id),
            },
    {
        match self.entities.get(&id) {
            Some(e) => Some(*e),
            None => None,
        }
    }

    /// Add a model; the result is its index.
    pub fn add_model(&mut self, model: M) -> (index: usize)
        ensures
            final(self).spec_models() == old(self).spec_models().push(model),
            index == old(self).spec_models().len(),
            final(self)@ == old(self)@,
            final(self).spec_next_id() == old(self).spec_next_id(),
    {
        self.models.push(model);
        self.models.len() - 1
    }

    /// The model at `index`, if there is one.
    pub fn model(&self, index: usize) -> (r: Option<&M>)
        ensures
            match r {
                Some(m) => index < self.spec_models().len() && *m == self.spec_models()[index as int],
                None => index >= self.spec_models().len(),
            },
    {
        if index < self.models.len() {
            Some(&self.models[index])
        } else {
            None
        }
    }
}

/// Ids handed out by two additions in a row differ, and the first entity is
/// still there after the second is added.
pub proof fn lemma_added_ids_differ<P>(
    m0: Map<usize, ManagedEntity<P>>,
    next: usize,
    a: ManagedEntity<P>,
    b: ManagedEntity<P>,
)
    requires
        a.id == next,
        b.id == next + 1,
    ensures
        a.id != b.id,
        m0.insert(a.id, a).insert(b.id, b)[a.id] == a,
        m0.insert(a.id, a).insert(b.id, b)[b.id] == b,
{
}

} // verus!
