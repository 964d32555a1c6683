//! Debugger detection.

use vstd::prelude::*;
use crate::text::{
    is_white_space, last_word, last_word_of, lemma_last_word_shape, same_text, starts_with,
    str_starts_with,
};

verus! {

/// What the process status lines say about a tracer: the first line that
/// starts with `TracerPid:` and has a last word decides, and a tracer is
/// attached when that word is not `0`; without such a line, none is.
pub open spec fn tracer_reported(lines: Seq<String>) -> bool
    decreases lines.len(),
{
    if lines.len() == 0 {
        false
    } else if starts_with(lines[0]@, "TracerPid:"@) && last_word(lines[0]@) is Some {
        last_word(lines[0]@)->0 != "0"@
    } else {
        tracer_reported(lines.drop_first())
    }
}

/// Whether the process status (its lines that could be read, in order)
/// shows an attached tracer.
pub fn has_tracer_pid(lines: &Vec<String>) -> (r: bool)
    ensures
        r == tracer_reported(lines@),
{
    let n = lines.len();
    let mut i: usize = 0;
    assert(lines@.skip(0) =~= lines@);
    while i < n
        invariant
            n == lines@.len(),
            i <= n,
            tracer_reported(lines@) == tracer_reported(lines@.skip(i as int)),
        decreases n - i,
    {
        let ghost rest = lines@.skip(i as int);
        assert(rest[0] == lines@[i as int]);
        assert(rest.drop_first() =~= lines@.skip(i + 1));
        let line = lines[i].as_str();
        if str_starts_with(line, "TracerPid:") {
            match last_word_of(line) {
                Some(value) => {
                    return !same_text(value.as_str(), "0");
                },
                None => {},
            }
        }
        i += 1;
    }
    assert(lines@.skip(n as int).len() == 0);
    false
}

/// Whether the application's flags include the debuggable flag.
pub fn debug_check(flags: i32, flag_debuggable: i32) -> (r: bool)
    ensures
        r == (flags & flag_debuggable != 0),
{
    flags & flag_debuggable != 0
}

/// Debugger detection: any of the four signs (two JNI booleans, a tracer in
/// the process status, and a successful signal to the own process).
pub fn is_debug(is_debuggable: u8, is_debugger_connected: u8, has_tracer: bool, can_kill: bool) -> (r:
    bool)
    ensures
        r == (is_debuggable != 0 || is_debugger_connected != 0 || has_tracer || can_kill),
{
    is_debuggable != 0 || is_debugger_connected != 0 || has_tracer || can_kill
}

/// A line that does not start with `TracerPid:` never decides; a line that
/// does decides by its last word, which it always has: a tracer is attached
/// exactly when that word is not `0`.
pub proof fn lemma_tracer_line_decides(line: String, rest: Seq<String>)
    ensures
        !starts_with(line@, "TracerPid:"@) ==> tracer_reported(seq![line] + rest)
            == tracer_reported(rest),
        starts_with(line@, "TracerPid:"@) ==> last_word(line@) is Some && tracer_reported(
            seq![line] + rest,
        ) == (last_word(line@)->0 != "0"@),
{
    let lines = seq![line] + rest;
    assert(lines[0] == line);
    assert(lines.drop_first() =~= rest);
    if starts_with(line@, "TracerPid:"@) {
        reveal_strlit("TracerPid:");
        let p = line@.subrange(0, 10);
        assert(p[0] == 'T');
        assert(line@[0] == 'T');
        lemma_last_word_shape(line@);
        if last_word(line@) is None {
            assert(is_white_space(line@[0]));
        }
    }
}

/// Without a line that starts with `TracerPid:`, no tracer is reported.
pub proof fn lemma_no_tracer_line(lines: Seq<String>)
    requires
        forall|i: int| 0 <= i < lines.len() ==> !starts_with(#[trigger] lines[i]@, "TracerPid:"@),
    ensures
        !tracer_reported(lines),
    decreases lines.len(),
{
    if lines.len() > 0 {
        let rest = lines.drop_first();
        assert forall|i: int| 0 <= i < rest.len() implies !starts_with(
            #[trigger] rest[i]@,
            "TracerPid:"@,
        ) by {
            assert(rest[i] == lines[i + 1]);
        }
        lemma_no_tracer_line(rest);
        assert(!starts_with(lines[0]@, "TracerPid:"@));
    }
}

} // verus!
