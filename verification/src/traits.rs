//! Small helper traits.

use vstd::prelude::*;

verus! {

/// An optional string in which emptiness means absence.
pub trait NoneIfEmpty {
    /// What `none_if_empty` returns.
    spec fn none_if_empty_spec(&self) -> Option<String>;

    /// Collapse an empty value to `None`.
    fn none_if_empty(&self) -> (r: Option<String>)
        ensures
            r == self.none_if_empty_spec(),
    ;
}

impl NoneIfEmpty for Option<String> {
    open spec fn none_if_empty_spec(&self) -> Option<String> {
        match self {
            Some(s) => if s@.len() > 0 {
                Some(*s)
            } else {
                None
            },
            None => None,
        }
    }

    fn none_if_empty(&self) -> (r: Option<String>) {
        match self {
            Some(s) => if !s.as_str().is_empty() {
                Some(s.clone())
            } else {
                None
            },
            None => None,
        }
    }
}

} // verus!
