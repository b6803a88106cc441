use vstd::prelude::*;

verus! {

/// A direction a free camera can be moved in.
#[derive(Debug, Copy, Clone, PartialEq, Eq, Structural)]
pub enum Direction {
    Forward,
    Left,
    Right,
    Backward,
}

/// How a camera is driven: following the player or flown freely.
#[derive(Debug, Copy, Clone, PartialEq, Eq, Structural)]
pub enum CameraMode {
    Follow,
    Free,
}

} // verus!
