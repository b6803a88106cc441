use vstd::prelude::*;

verus! {

/// The actions an entity can play.
#[derive(Debug, Copy, Clone, PartialEq, Eq, Structural)]
pub enum Actions {
    Swing,
    Idle,
}

} // verus!
