use vstd::prelude::*;

verus! {

/// The signal that a page changed under an optimistic reader: the critical
/// section has to be run again.
#[derive(PartialEq, Eq, Clone, Copy, Debug)]
pub struct OptimisticError {
    _private: (),
}

impl OptimisticError {
    pub fn new() -> OptimisticError {
        OptimisticError { _private: () }
    }

    /// The text of the failure, for reports.
    pub fn message(&self) -> (r: &'static str)
        ensures
            r@ == "optimistic error"@,
    {
        "optimistic error"
    }
}

} // verus!
