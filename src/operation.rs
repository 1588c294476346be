//! The operation that git asks the helper for.
use vstd::prelude::*;

verus! {

#[derive(Clone, Copy, Debug, PartialEq, Eq, Structural)]
pub enum Operation {
    /// Stores the credentials in the backing helper.
    Store,
    /// Deletes the credentials from the backing helper.
    Erase,
    /// Gets the stored credentials.
    Get,
}

/// The canonical lowercase name of an operation.
pub open spec fn operation_name(op: Operation) -> Seq<char> {
    match op {
        Operation::Store => "store"@,
        Operation::Erase => "erase"@,
        Operation::Get => "get"@,
    }
}

impl Operation {
    pub fn is_get(&self) -> (r: bool)
        ensures
            r == (*self == Operation::Get),
    {
        match self {
            Operation::Get => true,
            _ => false,
        }
    }

    /// The name passed to the backing helper.
    pub fn name(&self) -> (r: &'static str)
        ensures
            r@ == operation_name(*self),
    {
        match self {
            Operation::Store => "store",
            Operation::Erase => "erase",
            Operation::Get => "get",
        }
    }
}

} // verus!
