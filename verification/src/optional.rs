//! What a value that may be absent holds.

use vstd::prelude::*;

verus! {

/// The content of a value, where there is one.
pub open spec fn view_of<T: View>(value: Option<T>) -> Option<T::V> {
    match value {
        Some(v) => Some(v@),
        None => None,
    }
}

} // verus!
