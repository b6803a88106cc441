use vstd::prelude::*;
use std::collections::VecDeque;

verus! {

/// The actions of one entity: the one playing, the ones queued after it,
/// and the one to fall back to when the queue is empty. `D` is the data of
/// one action.
pub struct ActionsInfo<D> {
    pub entity_id: usize,
    pub default: Option<D>,
    pub queue: VecDeque<D>,
    pub active: Option<D>,
}

impl<D: Copy> ActionsInfo<D> {
    /// Nothing queued, playing the fallback action (if any).
    pub fn new(entity_id: usize, default: Option<D>) -> (a: ActionsInfo<D>)
        ensures
            a.entity_id == entity_id,
            a.default == default,
            a.queue@ == Seq::<D>::empty(),
            a.active == default,
    {
        ActionsInfo { entity_id, default, queue: VecDeque::new(), active: default }
    }

    /// Move on once the playing action is done (`active_done`: its time has
    /// run out): the next queued action plays, or the fallback when nothing
    /// is queued. The result is the action that just ended, whose completion
    /// hook the caller runs; `None` if nothing ended.
    pub fn next(&mut self, active_done: bool) -> (expired: Option<D>)
        ensures
            final(self).entity_id == old(self).entity_id,
            final(self).default == old(self).default,
            old(self).active.is_some() && !active_done ==> {
                &&& expired.is_none()
                &&& final(self).active == old(self).active
                &&& final(self).queue@ == old(self).queue@
            },
            old(self).active.is_none() || active_done ==> {
                &&& expired == old(self).active
                &&& if old(self).queue@.len() > 0 {
                    &&& final(self).active == Some(old(self).queue@[0])
                    &&& final(self).queue@ == old(self).queue@.drop_first()
                } else {
                    &&& final(self).active == old(self).default
                    &&& final(self).queue@ == old(self).queue@
                }
            },
    {
        let expired = match self.active {
            Some(data) => {
                if !active_done {
                    return None;
                }
                Some(data)
            },
            None => None,
        };
        self.active = match self.queue.pop_front() {
            None => self.default,
            data => data,
        };
        proof {
            if old(self).queue@.len() > 0 {
                assert(self.queue@ =~= old(self).queue@.drop_first());
            }
        }
        expired
    }
}

} // verus!
