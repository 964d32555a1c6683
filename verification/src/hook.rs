//! Hook (Frida) detection.

use vstd::prelude::*;
use crate::pattern::{matches_any, regex_compiles, some_match, TextPattern};
use crate::text::{contains, str_contains};

verus! {

/// Whether any path found under the scanned directories matches
/// `(?i)frida`, trying them in order.  The error is the one `regex` reports
/// when it refuses the pattern.
pub fn check_suspicious_files(paths: &Vec<String>) -> (r: Result<bool, regex::Error>)
    ensures
        r is Ok <==> regex_compiles("(?i)frida"@),
        r matches Ok(found) ==> found == some_match("(?i)frida"@, paths@),
{
    let pattern = match TextPattern::compile("(?i)frida") {
        Ok(p) => p,
        Err(e) => return Err(e),
    };
    Ok(matches_any(&pattern, paths))
}

/// Whether the output of `ps | grep -i frida` mentions `frida`.
pub fn check_frida_process(ps_output: &str) -> (r: bool)
    ensures
        r == contains(ps_output@, "frida"@),
{
    str_contains(ps_output, "frida")
}

/// Whether the output of `netstat -an | grep 27042` mentions Frida's default
/// port `27042`.
pub fn check_frida_port(netstat_output: &str) -> (r: bool)
    ensures
        r == contains(netstat_output@, "27042"@),
{
    str_contains(netstat_output, "27042")
}

} // verus!
