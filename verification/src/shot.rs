use vstd::prelude::*;

verus! {

/// A projectile's lifetime bookkeeping: the entity it is, the time it has
/// left, whether that time has run out, and whether it has hit something.
#[derive(Debug, Copy, Clone, PartialEq, Eq, Structural)]
pub struct Shot {
    pub entity_id: usize,
    pub time_remaining: i32,
    pub expired: bool,
    pub used: bool,
}

/// The shot after `update(delta)`.
pub open spec fn spec_update(s: Shot, delta: int) -> Shot {
    Shot {
        time_remaining: (s.time_remaining - delta) as i32,
        expired: s.time_remaining - delta <= 0,
        ..s
    }
}

/// The sum of `deltas`.
pub open spec fn total(deltas: Seq<i32>) -> int
    decreases deltas.len(),
{
    if deltas.len() == 0 {
        0
    } else {
        total(deltas.drop_last()) + deltas.last()
    }
}

/// The shot after an `update` for each of `deltas`, in order.
pub open spec fn after_updates(s: Shot, deltas: Seq<i32>) -> Shot
    decreases deltas.len(),
{
    if deltas.len() == 0 {
        s
    } else {
        spec_update(after_updates(s, deltas.drop_last()), deltas.last() as int)
    }
}

impl Shot {
    /// A fresh shot of entity `entity_id` that lives for `life_time`.
    pub fn new(entity_id: usize, life_time: i32) -> (s: Shot)
        ensures
            s == (Shot { entity_id, time_remaining: life_time, expired: false, used: false }),
    {
        Shot { entity_id, time_remaining: life_time, expired: false, used: false }
    }

    /// Let `delta` pass: the time left shrinks by `delta`, and the shot is
    /// expired once none is left.
    pub fn update(&mut self, delta: i32)
        requires
            i32::MIN <= old(self).time_remaining - delta <= i32::MAX,
        ensures
            *final(self) == spec_update(*old(self), delta as int),
    {
        self.time_remaining = self.time_remaining - delta;
        self.expired = self.time_remaining <= 0;
    }
}

/// After one or more updates whose partial sums stay in range, a shot made
/// with lifetime `life_time` has `life_time` minus the time passed left, and
/// it is expired exactly when that time has reached its lifetime.
pub proof fn lemma_expires_when_lifetime_passed(entity_id: usize, life_time: i32, deltas: Seq<i32>)
    requires
        forall|k: int|
            0 <= k <= deltas.len() ==> i32::MIN <= life_time - #[trigger] total(deltas.take(k))
                <= i32::MAX,
    ensures
        ({
            let s = after_updates(
                Shot { entity_id, time_remaining: life_time, expired: false, used: false },
                deltas,
            );
            &&& s.time_remaining == life_time - total(deltas)
            &&& s.entity_id == entity_id
            &&& !s.used
            &&& (deltas.len() > 0 ==> (s.expired <==> total(deltas) >= life_time))
            &&& (deltas.len() == 0 ==> !s.expired)
        }),
    decreases deltas.len(),
{
    assert(deltas.take(deltas.len() as int) =~= deltas);
    if deltas.len() > 0 {
        let rest = deltas.drop_last();
        assert forall|k: int| 0 <= k <= rest.len() implies i32::MIN <= life_time - #[trigger] total(
            rest.take(k),
        ) <= i32::MAX by {
            assert(rest.take(k) =~= deltas.take(k));
        }
        lemma_expires_when_lifetime_passed(entity_id, life_time, rest);
        assert(total(deltas.take(deltas.len() as int)) == total(deltas));
    }
}

} // verus!
