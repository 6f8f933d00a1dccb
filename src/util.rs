//! Small helpers on standard types.
use vstd::prelude::*;

verus! {

/// Comparing an optional string with a string.
pub trait StringOptionExt<T> {
    spec fn equals_spec(&self, other: T) -> bool;

    /// Whether a value is present and equal to `other`.
    fn equals(&self, other: T) -> (r: bool)
        ensures
            r == self.equals_spec(other),
    ;
}

impl StringOptionExt<String> for Option<String> {
    open spec fn equals_spec(&self, other: String) -> bool {
        self is Some && self->0@ == other@
    }

    fn equals(&self, other: String) -> (r: bool) {
        match self {
            Some(s) => *s == other,
            None => false,
        }
    }
}

} // verus!
