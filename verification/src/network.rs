//! Network tampering detection: traffic redirection, interception proxies
//! and interception certificates.

use vstd::prelude::*;
use crate::pattern::{matches_any, regex_compiles, some_match, TextPattern};
use crate::text::{chars_of, contains, is_white_space, lemma_trim_empty, trim, trim_text, same_text};

verus! {

/// Whether the output of `ip route show | grep -i frida` mentions `frida`.
pub fn check_redirects(route_output: &str) -> (r: bool)
    ensures
        r == contains(route_output@, "frida"@),
{
    crate::text::str_contains(route_output, "frida")
}

/// A proxy setting holds a value: its output, trimmed, is neither empty
/// nor `null` (what `settings get` prints for a setting that is not set).
pub open spec fn setting_is_set(output: Seq<char>) -> bool {
    trim(output).len() != 0 && trim(output) != "null"@
}

/// A proxy is configured when both the host and the port setting hold a
/// value.
pub open spec fn proxy_configured(host_output: Seq<char>, port_output: Seq<char>) -> bool {
    setting_is_set(host_output) && setting_is_set(port_output)
}

/// A proxy is reported exactly when both trimmed settings are non-empty and
/// not `null`: so only when both hold some character that is not
/// whitespace, and never when either setting reads `null`.
pub proof fn lemma_proxy_needs_both_settings(host_output: Seq<char>, port_output: Seq<char>)
    ensures
        proxy_configured(host_output, port_output) ==> (exists|i: int|
            0 <= i < host_output.len() && !is_white_space(#[trigger] host_output[i])) && (exists|
            j: int,
        |
            0 <= j < port_output.len() && !is_white_space(#[trigger] port_output[j])),
        trim(host_output) == "null"@ || trim(port_output) == "null"@ ==> !proxy_configured(
            host_output,
            port_output,
        ),
        proxy_configured(host_output, port_output) <==> (trim(host_output).len() > 0 && trim(
            host_output,
        ) != "null"@ && trim(port_output).len() > 0 && trim(port_output) != "null"@),
{
    lemma_trim_empty(host_output);
    lemma_trim_empty(port_output);
}

/// Whether the global HTTP proxy settings (the outputs of `settings get
/// global http_proxy` and `... http_proxy_port`) name a proxy.
pub fn detect_proxy(host_output: &str, port_output: &str) -> (r: bool)
    ensures
        r == proxy_configured(host_output@, port_output@),
{
    let host = trim_text(host_output);
    let port = trim_text(port_output);
    setting_value_present(host.as_str()) && setting_value_present(port.as_str())
}

fn setting_value_present(trimmed: &str) -> (r: bool)
    ensures
        r == (trimmed@.len() != 0 && trimmed@ != "null"@),
{
    !trimmed.is_empty() && !same_text(trimmed, "null")
}

/// The index of the last occurrence of `c` in `s`, if any.
pub open spec fn last_index_of(s: Seq<char>, c: char) -> Option<int>
    decreases s.len(),
{
    if s.len() == 0 {
        None
    } else if s.last() == c {
        Some(s.len() - 1)
    } else {
        last_index_of(s.drop_last(), c)
    }
}

/// The extension of a file name, as `Path::extension` defines it: none for
/// an empty name, `.` or `..`, none without a dot or when the only dot is the
/// first character, and otherwise what follows the last dot.
pub open spec fn file_extension(name: Seq<char>) -> Option<Seq<char>> {
    if name.len() == 0 || name == "."@ || name == ".."@ {
        None
    } else {
        match last_index_of(name, '.') {
            Some(k) => if k == 0 {
                None
            } else {
                Some(name.skip(k + 1))
            },
            None => None,
        }
    }
}

/// `last_index_of` finds `c` exactly where it occurs last.
pub proof fn lemma_last_index_of(s: Seq<char>, c: char)
    ensures
        last_index_of(s, c) matches Some(k) ==> 0 <= k < s.len() && s[k] == c && forall|i: int|
            k < i < s.len() ==> s[i] != c,
        last_index_of(s, c) is None ==> forall|i: int| 0 <= i < s.len() ==> s[i] != c,
    decreases s.len(),
{
    if s.len() > 0 && s.last() != c {
        lemma_last_index_of(s.drop_last(), c);
        assert forall|i: int| 0 <= i < s.len() - 1 implies s[i] == s.drop_last()[i] by {}
    }
}

/// A file has the extension `cer` exactly when its name ends with `.cer`
/// after at least one other character.
pub proof fn lemma_cer_extension(name: Seq<char>)
    ensures
        file_extension(name) == Some("cer"@) <==> (name.len() > 4 && name.skip(name.len() - 4)
            == ".cer"@),
{
    reveal_strlit("cer");
    reveal_strlit(".cer");
    reveal_strlit(".");
    reveal_strlit("..");
    lemma_last_index_of(name, '.');
    let n = name.len() as int;
    if name.len() > 4 && name.skip(n - 4) == ".cer"@ {
        assert(name[n - 4] == name.skip(n - 4)[0]);
        assert forall|i: int| n - 4 < i < n implies name[i] != '.' by {
            assert(name[i] == name.skip(n - 4)[i - (n - 4)]);
        }
        if name == "."@ || name == ".."@ {
            assert(false);
        }
        match last_index_of(name, '.') {
            Some(k) => {
                assert(k == n - 4);
                assert(name.skip(k + 1) =~= "cer"@) by {
                    assert forall|i: int| 0 <= i < 3 implies name.skip(k + 1)[i] == "cer"@[i] by {
                        assert(name.skip(k + 1)[i] == name.skip(n - 4)[i + 1]);
                    }
                }
            },
            None => {
                assert(name[n - 4] == '.');
            },
        }
    }
    if file_extension(name) == Some("cer"@) {
        let k = last_index_of(name, '.')->0;
        assert(name.skip(k + 1).len() == 3);
        assert(name.skip(n - 4) =~= ".cer"@) by {
            assert forall|i: int| 0 <= i < 4 implies name.skip(n - 4)[i] == ".cer"@[i] by {
                if i > 0 {
                    assert(name.skip(n - 4)[i] == name.skip(k + 1)[i - 1]);
                }
            }
        }
    }
}

/// Whether the file called `file_name` has the extension `cer`.
pub fn is_cer_file(file_name: &str) -> (r: bool)
    ensures
        r == (file_extension(file_name@) == Some("cer"@)),
{
    let c = chars_of(file_name);
    let n = c.len();
    if n == 0 || same_text(file_name, ".") || same_text(file_name, "..") {
        return false;
    }
    let mut k: usize = n;
    assert(file_name@.take(n as int) =~= file_name@);
    while k > 0 && c[k - 1] != '.'
        invariant
            n == file_name@.len(),
            c@ == file_name@,
            k <= n,
            last_index_of(file_name@, '.') == last_index_of(file_name@.take(k as int), '.'),
        decreases k,
    {
        assert(file_name@.take(k as int).drop_last() =~= file_name@.take(k - 1));
        k -= 1;
    }
    if k == 0 {
        assert(file_name@.take(0).len() == 0);
        return false;
    }
    assert(file_name@.take(k as int).last() == '.');
    if k == 1 {
        return false;
    }
    let ext = file_name.substring_char(k, n);
    assert(file_name@.skip(k as int) =~= file_name@.subrange(k as int, n as int));
    same_text(ext, "cer")
}

/// Whether any of the certificate files (their text) found under the scanned
/// directories matches `(?i)\bPortSwigger\b`, the issuer of Burp Suite's
/// interception certificate, trying them in order.  The error is the one
/// `regex` reports when it refuses the pattern.
pub fn burpcheck(certificates: &Vec<String>) -> (r: Result<bool, regex::Error>)
    ensures
        r is Ok <==> regex_compiles("(?i)\\bPortSwigger\\b"@),
        r matches Ok(found) ==> found == some_match("(?i)\\bPortSwigger\\b"@, certificates@),
{
    let pattern = match TextPattern::compile("(?i)\\bPortSwigger\\b") {
        Ok(p) => p,
        Err(e) => return Err(e),
    };
    Ok(matches_any(&pattern, certificates))
}

} // verus!
