//! Detection of a frozen (disabled) application package.

use vstd::prelude::*;
use crate::text::{contains, str_contains};

verus! {

/// Whether the output of `dumpsys package <name>` shows the package as
/// disabled.
pub fn is_frozen(dumpsys_output: &str) -> (r: bool)
    ensures
        r == contains(dumpsys_output@, "enabled=false"@),
{
    str_contains(dumpsys_output, "enabled=false")
}

} // verus!
