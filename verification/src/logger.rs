use vstd::prelude::*;
use crate::text::{parse_bool, parse_bool_spec};

verus! {

/// Whether a node runs locally, given the value of its `RUNNING_LOCAL` setting, if it has
/// one: only a value that reads as the boolean `true` says so.
pub fn running_local(value: Option<&str>) -> (r: bool)
    ensures
        r == match value {
            Some(v) => parse_bool_spec(v@) == Some(true),
            None => false,
        },
{
    match value {
        Some(v) => match parse_bool(v) {
            Some(b) => b,
            None => false,
        },
        None => false,
    }
}

} // verus!
