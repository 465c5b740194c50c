//! The error type of behavior manifest and capability checks.
use vstd::prelude::*;

verus! {

/// A rejected manifest, read plan or command list, with the message that the
/// runtime reports for it.
pub struct BehaviorError {
    pub message: String,
}

impl BehaviorError {
    pub fn new(message: String) -> (e: Self)
        ensures
            e.message@ == message@,
    {
        BehaviorError { message }
    }

    /// The text of the error.
    pub fn to_string(&self) -> (s: String)
        ensures
            s@ == self.message@,
    {
        self.message.clone()
    }
}

} // verus!
