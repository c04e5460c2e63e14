//! What an actor does after one of its actions.
use vstd::prelude::*;

verus! {

/// What an actor does after one of its actions: go on with the next, or stop.
#[derive(Debug, Clone, Copy, PartialEq, Eq, Structural)]
pub enum Outcome {
    Continue,
    Stop,
}

} // verus!
