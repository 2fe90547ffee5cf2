use vstd::prelude::*;

verus! {

/// Events which modify the control flow of the application in some way.
#[derive(Clone, Copy, Debug, PartialEq, Eq, Structural)]
pub enum ControlEvent {
    Terminate,
}

} // verus!
