use vstd::prelude::*;

verus! {

/// Which leg an inverse-kinematics chain drives.
#[derive(Debug, Copy, Clone, PartialEq, Eq, Structural)]
pub enum IkSide {
    Left,
    Right,
}

/// Which legs may step: see `legs_can_transition`.
pub open spec fn spec_legs_can_transition(left_rooted: bool, right_rooted: bool, left_behind: bool) -> (bool, bool) {
    if left_rooted && right_rooted {
        (left_behind, !left_behind)
    } else if left_rooted {
        (false, true)
    } else if right_rooted {
        (true, false)
    } else {
        (true, true)
    }
}

/// Which legs may start a step this frame, given whether each foot is
/// planted (rooted) and whether the left foot is behind the right one. With
/// both feet planted only the foot that is behind may step; a foot that is
/// already stepping keeps stepping, and while one foot steps the planted one
/// stays put.
pub fn legs_can_transition(left_rooted: bool, right_rooted: bool, left_behind: bool) -> (r: (
    bool,
    bool,
))
    ensures
        r == spec_legs_can_transition(left_rooted, right_rooted, left_behind),
{
    if left_rooted && right_rooted {
        (left_behind, !left_behind)
    } else if left_rooted {
        (false, true)
    } else if right_rooted {
        (true, false)
    } else {
        (true, true)
    }
}

/// A planted foot never starts a step while the other foot is planted too
/// unless it is the one that may: with both feet down exactly one may step,
/// and a foot that is down while the other steps stays down.
pub proof fn lemma_one_step_at_a_time(left_rooted: bool, right_rooted: bool, left_behind: bool)
    ensures
        ({
            let r = spec_legs_can_transition(left_rooted, right_rooted, left_behind);
            &&& left_rooted && right_rooted ==> r.0 != r.1
            &&& left_rooted && !right_rooted ==> !r.0
            &&& right_rooted && !left_rooted ==> !r.1
        }),
{
}

} // verus!
