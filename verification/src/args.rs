//! The guest's argument vector.

use vstd::prelude::*;

verus! {

/// Hands the raw trailing arguments to the guest as they are: same strings,
/// same order, nothing validated and nothing dropped.
pub fn collect_args(raw: Vec<String>) -> (args: Vec<String>)
    ensures
        args == raw,
{
    raw
}

} // verus!
