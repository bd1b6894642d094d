//! The logical controls of the application.
use vstd::prelude::*;

verus! {

/// The controls.
#[derive(Clone, Copy, Debug, PartialEq, Eq, Structural)]
pub enum Control {
    Click,
}

} // verus!
