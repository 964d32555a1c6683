//! System property values.

use vstd::prelude::*;
use crate::text::{trim, trim_text};

verus! {

/// The value of a system property from the output of `getprop <name>`: the
/// output without surrounding whitespace.
pub fn prop_value(getprop_output: &str) -> (value: String)
    ensures
        value@ == trim(getprop_output@),
{
    trim_text(getprop_output)
}

} // verus!
