//! Character-level text operations used by the detectors.
//!
//! Strings are modelled by their views, sequences of `char`.  Whitespace is
//! the Unicode `White_Space` property, which is what `char::is_whitespace`
//! (and therefore `str::trim` and `str::split_whitespace`) uses.

use vstd::prelude::*;

verus! {

broadcast use vstd::string::group_string_axioms;

/// The Unicode `White_Space` property.
pub open spec fn is_white_space(c: char) -> bool {
    let u = c as u32;
    ||| 0x09 <= u <= 0x0d
    ||| u == 0x20
    ||| u == 0x85
    ||| u == 0xa0
    ||| u == 0x1680
    ||| 0x2000 <= u <= 0x200a
    ||| u == 0x2028
    ||| u == 0x2029
    ||| u == 0x202f
    ||| u == 0x205f
    ||| u == 0x3000
}

/// `needle` occurs in `hay` starting at position `i`.
pub open spec fn occurs_at(hay: Seq<char>, needle: Seq<char>, i: int) -> bool {
    &&& 0 <= i
    &&& i + needle.len() <= hay.len()
    &&& hay.subrange(i, i + needle.len()) == needle
}

/// `needle` occurs somewhere in `hay` (the empty text occurs everywhere).
pub open spec fn contains(hay: Seq<char>, needle: Seq<char>) -> bool {
    exists|i: int| occurs_at(hay, needle, i)
}

/// `s` begins with `prefix`.
pub open spec fn starts_with(s: Seq<char>, prefix: Seq<char>) -> bool {
    occurs_at(s, prefix, 0)
}

/// `s` without its leading whitespace.
pub open spec fn trim_start(s: Seq<char>) -> Seq<char>
    decreases s.len(),
{
    if s.len() > 0 && is_white_space(s[0]) {
        trim_start(s.drop_first())
    } else {
        s
    }
}

/// `s` without its trailing whitespace.
pub open spec fn trim_end(s: Seq<char>) -> Seq<char>
    decreases s.len(),
{
    if s.len() > 0 && is_white_space(s.last()) {
        trim_end(s.drop_last())
    } else {
        s
    }
}

/// `s` without leading and trailing whitespace.
pub open spec fn trim(s: Seq<char>) -> Seq<char> {
    trim_end(trim_start(s))
}

/// The run of non-whitespace characters at the end of `s`.
pub open spec fn trailing_word(s: Seq<char>) -> Seq<char>
    decreases s.len(),
{
    if s.len() > 0 && !is_white_space(s.last()) {
        trailing_word(s.drop_last()).push(s.last())
    } else {
        Seq::empty()
    }
}

/// The last whitespace-separated word of `s`, if it has one.
pub open spec fn last_word(s: Seq<char>) -> Option<Seq<char>> {
    if trim_end(s).len() == 0 {
        None
    } else {
        Some(trailing_word(trim_end(s)))
    }
}

/// The pieces of `s` between occurrences of `sep`, in order; there is always
/// at least one piece, and `sep` occurs in none of them.
pub open spec fn split_on(s: Seq<char>, sep: char) -> Seq<Seq<char>>
    decreases s.len(),
{
    if s.len() == 0 {
        seq![Seq::empty()]
    } else {
        let init = split_on(s.drop_last(), sep);
        if s.last() == sep {
            init.push(Seq::empty())
        } else {
            init.update(init.len() - 1, init.last().push(s.last()))
        }
    }
}

/// The characters of `s`, in order.
pub fn chars_of(s: &str) -> (v: Vec<char>)
    ensures
        v@ == s@,
{
    let mut v: Vec<char> = Vec::new();
    for c in it: s.chars()
        invariant
            it.seq() == s@,
            v@ == s@.take(it.index()),
    {
        v.push(c);
    }
    v
}

/// Whether `c` is Unicode whitespace.
pub fn is_whitespace(c: char) -> (b: bool)
    ensures
        b == is_white_space(c),
{
    let u = c as u32;
    (0x09 <= u && u <= 0x0d) || u == 0x20 || u == 0x85 || u == 0xa0 || u == 0x1680 || (0x2000
        <= u && u <= 0x200a) || u == 0x2028 || u == 0x2029 || u == 0x202f || u == 0x205f || u
        == 0x3000
}

/// Whether `needle` occurs in `hay` at position `i`.
fn matches_at(hay: &Vec<char>, needle: &Vec<char>, i: usize) -> (b: bool)
    requires
        i + needle@.len() <= hay@.len(),
    ensures
        b == occurs_at(hay@, needle@, i as int),
{
    let n = needle.len();
    let mut j: usize = 0;
    while j < n
        invariant
            n == needle@.len(),
            i + n <= hay.len(),
            j <= n,
            forall|k: int| 0 <= k < j ==> hay@[i + k] == needle@[k],
        decreases n - j,
    {
        if hay[i + j] != needle[j] {
            assert(hay@.subrange(i as int, i + n)[j as int] != needle@[j as int]);
            return false;
        }
        j += 1;
    }
    assert(hay@.subrange(i as int, i + n) =~= needle@);
    true
}

/// Whether `needle` occurs anywhere in `hay`, over character vectors.
pub fn contains_chars(hay: &Vec<char>, needle: &Vec<char>) -> (b: bool)
    ensures
        b == contains(hay@, needle@),
{
    let h = hay.len();
    let n = needle.len();
    if n > h {
        assert forall|i: int| !occurs_at(hay@, needle@, i) by {}
        return false;
    }
    let last = h - n;
    let mut i: usize = 0;
    loop
        invariant
            h == hay@.len(),
            n == needle@.len(),
            last == h - n,
            i <= last,
            forall|k: int| 0 <= k < i ==> !occurs_at(hay@, needle@, k),
        ensures
            forall|k: int| 0 <= k <= last ==> !occurs_at(hay@, needle@, k),
        decreases last - i,
    {
        if matches_at(hay, needle, i) {
            return true;
        }
        if i == last {
            break;
        }
        i += 1;
    }
    assert forall|k: int| !occurs_at(hay@, needle@, k) by {
        if 0 <= k && k + n <= h {
            assert(k <= last);
        }
    }
    false
}

/// Whether `needle` occurs anywhere in `hay`.
pub fn str_contains(hay: &str, needle: &str) -> (b: bool)
    ensures
        b == contains(hay@, needle@),
{
    let h = chars_of(hay);
    let n = chars_of(needle);
    contains_chars(&h, &n)
}

/// Whether `s` begins with `prefix`.
pub fn str_starts_with(s: &str, prefix: &str) -> (b: bool)
    ensures
        b == starts_with(s@, prefix@),
{
    let sc = chars_of(s);
    let pc = chars_of(prefix);
    if pc.len() > sc.len() {
        return false;
    }
    matches_at(&sc, &pc, 0)
}

/// Whether `a` and `b` are the same text.
pub fn same_text(a: &str, b: &str) -> (r: bool)
    ensures
        r == (a@ == b@),
{
    let ac = chars_of(a);
    let bc = chars_of(b);
    if ac.len() != bc.len() {
        return false;
    }
    let r = matches_at(&ac, &bc, 0);
    assert(ac@.subrange(0, ac@.len() as int) =~= ac@);
    r
}

/// Skipping a whitespace prefix does not change what `trim_start` gives.
pub proof fn lemma_trim_start_skip(s: Seq<char>, i: int)
    requires
        0 <= i <= s.len(),
        forall|k: int| 0 <= k < i ==> is_white_space(s[k]),
    ensures
        trim_start(s) == trim_start(s.skip(i)),
    decreases i,
{
    if i > 0 {
        assert(s.skip(1).skip(i - 1) =~= s.skip(i));
        assert(s.drop_first() =~= s.skip(1));
        lemma_trim_start_skip(s.drop_first(), i - 1);
    } else {
        assert(s.skip(0) =~= s);
    }
}

/// Dropping a whitespace suffix does not change what `trim_end` gives.
pub proof fn lemma_trim_end_take(s: Seq<char>, j: int)
    requires
        0 <= j <= s.len(),
        forall|k: int| j <= k < s.len() ==> is_white_space(s[k]),
    ensures
        trim_end(s) == trim_end(s.take(j)),
    decreases s.len() - j,
{
    if j < s.len() {
        assert(s.drop_last() =~= s.take(s.len() - 1));
        assert(s.take(s.len() - 1).take(j) =~= s.take(j));
        lemma_trim_end_take(s.drop_last(), j);
    } else {
        assert(s.take(j) =~= s);
    }
}

/// `s` with leading and trailing whitespace removed, as `str::trim` does.
pub fn trim_text(s: &str) -> (t: String)
    ensures
        t@ == trim(s@),
{
    let c = chars_of(s);
    let n = c.len();
    let mut start: usize = 0;
    while start < n && is_whitespace(c[start])
        invariant
            n == s@.len(),
            c@ == s@,
            start <= n,
            forall|k: int| 0 <= k < start ==> is_white_space(s@[k]),
        decreases n - start,
    {
        start += 1;
    }
    proof {
        lemma_trim_start_skip(s@, start as int);
    }
    let ghost rest = s@.skip(start as int);
    assert(trim_start(rest) == rest) by {
        if rest.len() > 0 {
            assert(rest[0] == s@[start as int]);
        }
    }
    let mut end: usize = n;
    while end > start && is_whitespace(c[end - 1])
        invariant
            n == s@.len(),
            c@ == s@,
            start <= end <= n,
            rest == s@.skip(start as int),
            forall|k: int| end <= k < n ==> is_white_space(s@[k]),
        decreases end - start,
    {
        end -= 1;
    }
    proof {
        lemma_trim_end_take(rest, end - start);
        let kept = rest.take(end - start);
        assert(kept =~= s@.subrange(start as int, end as int));
        if kept.len() > 0 {
            assert(kept.last() == s@[end - 1]);
        }
        assert(trim_end(kept) == kept);
    }
    s.substring_char(start, end).to_owned()
}

/// A word ending at the end of `t` and preceded by whitespace (or by nothing)
/// is what `trailing_word` gives.
pub proof fn lemma_trailing_word_skip(t: Seq<char>, k: int)
    requires
        0 <= k <= t.len(),
        forall|i: int| k <= i < t.len() ==> !is_white_space(t[i]),
        k == 0 || is_white_space(t[k - 1]),
    ensures
        trailing_word(t) == t.skip(k),
    decreases t.len() - k,
{
    if k < t.len() {
        let d = t.drop_last();
        assert forall|i: int| k <= i < d.len() implies !is_white_space(d[i]) by {
            assert(d[i] == t[i]);
        }
        if k > 0 {
            assert(d[k - 1] == t[k - 1]);
        }
        lemma_trailing_word_skip(d, k);
        assert(d.skip(k).push(t.last()) =~= t.skip(k));
    } else {
        assert(t.skip(k) =~= Seq::<char>::empty());
        if t.len() > 0 {
            assert(t.last() == t[k - 1]);
        }
    }
}

/// The last whitespace-separated word of `s`, as
/// `s.split_whitespace().last()` gives it.
pub fn last_word_of(s: &str) -> (w: Option<String>)
    ensures
        w is None <==> last_word(s@) is None,
        w matches Some(x) ==> last_word(s@) == Some(x@),
{
    let c = chars_of(s);
    let n = c.len();
    let mut end: usize = n;
    while end > 0 && is_whitespace(c[end - 1])
        invariant
            n == s@.len(),
            c@ == s@,
            end <= n,
            forall|k: int| end <= k < n ==> is_white_space(s@[k]),
        decreases end,
    {
        end -= 1;
    }
    let ghost t = s@.take(end as int);
    proof {
        lemma_trim_end_take(s@, end as int);
        if t.len() > 0 {
            assert(t.last() == s@[end - 1]);
        }
        assert(trim_end(t) == t);
    }
    if end == 0 {
        return None;
    }
    let mut start: usize = end;
    while start > 0 && !is_whitespace(c[start - 1])
        invariant
            n == s@.len(),
            c@ == s@,
            start <= end <= n,
            t == s@.take(end as int),
            forall|k: int| start <= k < end ==> !is_white_space(s@[k]),
        decreases start,
    {
        start -= 1;
    }
    proof {
        assert forall|i: int| start <= i < t.len() implies !is_white_space(t[i]) by {
            assert(t[i] == s@[i]);
        }
        if start > 0 {
            assert(t[start - 1] == s@[start - 1]);
        }
        lemma_trailing_word_skip(t, start as int);
        assert(t.skip(start as int) =~= s@.subrange(start as int, end as int));
    }
    Some(s.substring_char(start, end).to_owned())
}

/// The pieces of `s` separated by `sep`, as `s.split(sep)` gives them.
pub fn split_text(s: &str, sep: char) -> (pieces: Vec<String>)
    ensures
        pieces@.len() == split_on(s@, sep).len(),
        forall|i: int| 0 <= i < pieces@.len() ==> #[trigger] pieces@[i]@ == split_on(s@, sep)[i],
{
    let c = chars_of(s);
    let n = c.len();
    let mut pieces: Vec<String> = Vec::new();
    let mut start: usize = 0;
    let mut i: usize = 0;
    proof {
        assert(s@.take(0) =~= Seq::<char>::empty());
    }
    while i < n
        invariant
            n == s@.len(),
            c@ == s@,
            start <= i <= n,
            split_on(s@.take(i as int), sep).len() == pieces@.len() + 1,
            forall|k: int| 0 <= k < pieces@.len() ==> #[trigger] pieces@[k]@ == split_on(
                s@.take(i as int),
                sep,
            )[k],
            split_on(s@.take(i as int), sep).last() == s@.subrange(start as int, i as int),
        decreases n - i,
    {
        let ghost before = split_on(s@.take(i as int), sep);
        let ghost next = s@.take(i + 1);
        assert(next.drop_last() =~= s@.take(i as int));
        assert(next.last() == s@[i as int]);
        if c[i] == sep {
            let piece = s.substring_char(start, i).to_owned();
            pieces.push(piece);
            start = i + 1;
            assert(s@.subrange(start as int, i + 1) =~= Seq::<char>::empty());
        } else {
            assert(s@.subrange(start as int, i + 1) =~= s@.subrange(start as int, i as int).push(
                s@[i as int],
            ));
        }
        i += 1;
        assert(forall|k: int| 0 <= k < pieces@.len() ==> #[trigger] pieces@[k]@ == split_on(
            s@.take(i as int),
            sep,
        )[k]);
    }
    assert(s@.take(n as int) =~= s@);
    let last = s.substring_char(start, n).to_owned();
    pieces.push(last);
    pieces
}

/// `trim_start` leaves a suffix of `s` whose first character, if any, is not
/// whitespace, and everything it drops is whitespace.
pub proof fn lemma_trim_start_shape(s: Seq<char>)
    ensures
        exists|k: int|
            0 <= k <= s.len() && trim_start(s) == s.skip(k) && (forall|i: int|
                0 <= i < k ==> is_white_space(#[trigger] s[i])),
        trim_start(s).len() > 0 ==> !is_white_space(trim_start(s)[0]),
    decreases s.len(),
{
    if s.len() > 0 && is_white_space(s[0]) {
        lemma_trim_start_shape(s.drop_first());
        let k = choose|k: int|
            0 <= k <= s.drop_first().len() && trim_start(s.drop_first()) == s.drop_first().skip(k)
                && (forall|i: int| 0 <= i < k ==> is_white_space(#[trigger] s.drop_first()[i]));
        assert(s.drop_first().skip(k) =~= s.skip(k + 1));
        assert forall|i: int| 0 <= i < k + 1 implies is_white_space(#[trigger] s[i]) by {
            if i > 0 {
                assert(s[i] == s.drop_first()[i - 1]);
            }
        }
    } else {
        assert(s.skip(0) =~= s);
    }
}

/// `trim_end` leaves a prefix of `s` whose last character, if any, is not
/// whitespace, and everything it drops is whitespace.
pub proof fn lemma_trim_end_shape(s: Seq<char>)
    ensures
        exists|k: int|
            0 <= k <= s.len() && trim_end(s) == s.take(k) && (forall|i: int|
                k <= i < s.len() ==> is_white_space(#[trigger] s[i])),
        trim_end(s).len() > 0 ==> !is_white_space(trim_end(s).last()),
    decreases s.len(),
{
    if s.len() > 0 && is_white_space(s.last()) {
        lemma_trim_end_shape(s.drop_last());
        let k = choose|k: int|
            0 <= k <= s.drop_last().len() && trim_end(s.drop_last()) == s.drop_last().take(k)
                && (forall|i: int|
                k <= i < s.drop_last().len() ==> is_white_space(#[trigger] s.drop_last()[i]));
        assert(s.drop_last().take(k) =~= s.take(k));
        assert forall|i: int| k <= i < s.len() implies is_white_space(#[trigger] s[i]) by {
            if i < s.len() - 1 {
                assert(s[i] == s.drop_last()[i]);
            }
        }
    } else {
        assert(s.take(s.len() as int) =~= s);
    }
}

/// Trimming is idempotent: trimmed text has nothing left to trim.
pub proof fn lemma_trim_idempotent(s: Seq<char>)
    ensures
        trim(trim(s)) == trim(s),
{
    let a = trim_start(s);
    lemma_trim_start_shape(s);
    lemma_trim_end_shape(a);
    let t = trim_end(a);
    let k = choose|k: int|
        0 <= k <= a.len() && t == a.take(k) && (forall|i: int|
            k <= i < a.len() ==> is_white_space(#[trigger] a[i]));
    assert(trim_start(t) == t) by {
        if t.len() > 0 {
            assert(t[0] == a[0]);
        }
    }
    assert(trim_end(t) == t) by {
        if t.len() > 0 {
            assert(t.last() == t[t.len() - 1]);
        }
    }
}

/// Trimming leaves nothing exactly when the text is all whitespace.
pub proof fn lemma_trim_empty(s: Seq<char>)
    ensures
        trim(s).len() == 0 <==> forall|i: int| 0 <= i < s.len() ==> is_white_space(#[trigger] s[i]),
{
    let a = trim_start(s);
    lemma_trim_start_shape(s);
    lemma_trim_end_shape(a);
    let k1 = choose|k: int|
        0 <= k <= s.len() && a == s.skip(k) && (forall|i: int|
            0 <= i < k ==> is_white_space(#[trigger] s[i]));
    let k2 = choose|k: int|
        0 <= k <= a.len() && trim_end(a) == a.take(k) && (forall|i: int|
            k <= i < a.len() ==> is_white_space(#[trigger] a[i]));
    if trim(s).len() == 0 {
        assert forall|i: int| 0 <= i < s.len() implies is_white_space(#[trigger] s[i]) by {
            if i >= k1 {
                assert(s[i] == a[i - k1]);
            }
        }
    } else {
        assert(!is_white_space(a[0]));
        assert(a[0] == s[k1]);
    }
}

/// An occurrence anywhere is found; a found text fits in the haystack; the
/// empty text and the haystack itself always occur.
pub proof fn lemma_contains_basics(hay: Seq<char>, needle: Seq<char>)
    ensures
        forall|i: int| #[trigger] occurs_at(hay, needle, i) ==> contains(hay, needle),
        contains(hay, needle) ==> needle.len() <= hay.len(),
        contains(hay, Seq::empty()),
        contains(hay, hay),
{
    assert(occurs_at(hay, Seq::empty(), 0)) by {
        assert(hay.subrange(0, 0) =~= Seq::<char>::empty());
    }
    assert(occurs_at(hay, hay, 0)) by {
        assert(hay.subrange(0, hay.len() as int) =~= hay);
    }
}

/// Text around the haystack never hides an occurrence.
pub proof fn lemma_contains_in_context(
    before: Seq<char>,
    hay: Seq<char>,
    after: Seq<char>,
    needle: Seq<char>,
)
    requires
        contains(hay, needle),
    ensures
        contains(before + hay + after, needle),
{
    let i = choose|i: int| occurs_at(hay, needle, i);
    let whole = before + hay + after;
    let k = before.len() + i;
    assert(whole.subrange(k, k + needle.len()) =~= hay.subrange(i, i + needle.len()));
    assert(occurs_at(whole, needle, k));
}

/// `trim` keeps a middle part of `s`: everything cut off on either side is
/// whitespace, and what is kept, when not empty, starts and ends with a
/// character that is not whitespace.
pub proof fn lemma_trim_shape(s: Seq<char>)
    ensures
        exists|a: int, b: int|
            0 <= a <= b <= s.len() && trim(s) == s.subrange(a, b) && (forall|i: int|
                0 <= i < a ==> is_white_space(#[trigger] s[i])) && (forall|i: int|
                b <= i < s.len() ==> is_white_space(#[trigger] s[i])),
        trim(s).len() > 0 ==> !is_white_space(trim(s)[0]) && !is_white_space(trim(s).last()),
{
    lemma_trim_start_shape(s);
    let t = trim_start(s);
    lemma_trim_end_shape(t);
    let a = choose|k: int|
        0 <= k <= s.len() && trim_start(s) == s.skip(k) && (forall|i: int|
            0 <= i < k ==> is_white_space(#[trigger] s[i]));
    let m = choose|k: int|
        0 <= k <= t.len() && trim_end(t) == t.take(k) && (forall|i: int|
            k <= i < t.len() ==> is_white_space(#[trigger] t[i]));
    let b = a + m;
    assert(t.take(m) =~= s.subrange(a, b));
    assert forall|i: int| b <= i < s.len() implies is_white_space(#[trigger] s[i]) by {
        assert(s[i] == t[i - a]);
    }
    if trim(s).len() > 0 {
        assert(trim(s)[0] == t[0]);
    }
}

/// A run of non-whitespace at the end of `t`, after whitespace or at the
/// start, is what `trailing_word` gives.
proof fn lemma_trailing_word_shape(t: Seq<char>)
    ensures
        exists|k: int|
            0 <= k <= t.len() && trailing_word(t) == t.skip(k) && (forall|i: int|
                k <= i < t.len() ==> !is_white_space(#[trigger] t[i])) && (k == 0
                || is_white_space(t[k - 1])),
    decreases t.len(),
{
    if t.len() > 0 && !is_white_space(t.last()) {
        let d = t.drop_last();
        lemma_trailing_word_shape(d);
        let k = choose|k: int|
            0 <= k <= d.len() && trailing_word(d) == d.skip(k) && (forall|i: int|
                k <= i < d.len() ==> !is_white_space(#[trigger] d[i])) && (k == 0
                || is_white_space(d[k - 1]));
        assert(d.skip(k).push(t.last()) =~= t.skip(k));
        assert forall|i: int| k <= i < t.len() implies !is_white_space(#[trigger] t[i]) by {
            if i < d.len() {
                assert(t[i] == d[i]);
            }
        }
        if k > 0 {
            assert(t[k - 1] == d[k - 1]);
        }
    } else {
        assert(t.skip(t.len() as int) =~= Seq::<char>::empty());
        if t.len() > 0 {
            assert(t[t.len() - 1] == t.last());
        }
    }
}

/// The last word of `s`: absent exactly when `s` is all whitespace; else a
/// non-empty run of non-whitespace characters of `s` that is preceded by
/// whitespace (or starts `s`) and followed by whitespace only.
pub proof fn lemma_last_word_shape(s: Seq<char>)
    ensures
        last_word(s) is None <==> forall|i: int| 0 <= i < s.len() ==> is_white_space(#[trigger] s[i]),
        last_word(s) matches Some(w) ==> {
            &&& w.len() > 0
            &&& forall|i: int| 0 <= i < w.len() ==> !is_white_space(#[trigger] w[i])
            &&& exists|k: int|
                0 <= k && k + w.len() <= s.len() && #[trigger] s.subrange(k, k + w.len()) == w && (k == 0
                    || is_white_space(s[k - 1])) && (forall|i: int|
                    k + w.len() <= i < s.len() ==> is_white_space(#[trigger] s[i]))
        },
{
    lemma_trim_end_shape(s);
    let m = choose|k: int|
        0 <= k <= s.len() && trim_end(s) == s.take(k) && (forall|i: int|
            k <= i < s.len() ==> is_white_space(#[trigger] s[i]));
    let t = s.take(m);
    if m == 0 {
        assert forall|i: int| 0 <= i < s.len() implies is_white_space(#[trigger] s[i]) by {}
    } else {
        assert(!is_white_space(t.last()));
        assert(t.last() == s[m - 1]);
        lemma_trailing_word_shape(t);
        let k = choose|k: int|
            0 <= k <= t.len() && trailing_word(t) == t.skip(k) && (forall|i: int|
                k <= i < t.len() ==> !is_white_space(#[trigger] t[i])) && (k == 0
                || is_white_space(t[k - 1]));
        let w = t.skip(k);
        assert(k < m) by {
            if k == m {
                assert(is_white_space(t[m - 1]) || m == 0);
            }
        }
        assert(w =~= s.subrange(k, m));
        assert forall|i: int| 0 <= i < w.len() implies !is_white_space(#[trigger] w[i]) by {
            assert(w[i] == t[k + i]);
        }
        if k > 0 {
            assert(t[k - 1] == s[k - 1]);
        }
        assert(s.subrange(k, k + w.len()) == w);
    }
}

/// The separator-joined pieces.
pub open spec fn join_with(pieces: Seq<Seq<char>>, sep: char) -> Seq<char>
    decreases pieces.len(),
{
    if pieces.len() == 0 {
        Seq::empty()
    } else if pieces.len() == 1 {
        pieces[0]
    } else {
        join_with(pieces.drop_last(), sep).push(sep) + pieces.last()
    }
}

proof fn lemma_join_extend_last(pieces: Seq<Seq<char>>, sep: char, c: char)
    requires
        pieces.len() > 0,
    ensures
        join_with(pieces.update(pieces.len() - 1, pieces.last().push(c)), sep) == join_with(
            pieces,
            sep,
        ).push(c),
{
    let updated = pieces.update(pieces.len() - 1, pieces.last().push(c));
    if pieces.len() == 1 {
    } else {
        assert(updated.drop_last() =~= pieces.drop_last());
        assert((join_with(pieces.drop_last(), sep).push(sep) + pieces.last().push(c)) =~= (
        join_with(pieces.drop_last(), sep).push(sep) + pieces.last()).push(c));
    }
}

/// Splitting loses nothing and makes no piece hold the separator: joining
/// the pieces with the separator gives the text back.
pub proof fn lemma_split_join(s: Seq<char>, sep: char)
    ensures
        split_on(s, sep).len() >= 1,
        join_with(split_on(s, sep), sep) == s,
        forall|i: int, k: int|
            0 <= i < split_on(s, sep).len() && 0 <= k < split_on(s, sep)[i].len() ==> #[trigger] split_on(
                s,
                sep,
            )[i][k] != sep,
    decreases s.len(),
{
    if s.len() == 0 {
        assert(join_with(seq![Seq::<char>::empty()], sep) == Seq::<char>::empty());
    } else {
        let d = s.drop_last();
        lemma_split_join(d, sep);
        let init = split_on(d, sep);
        if s.last() == sep {
            let p = init.push(Seq::empty());
            assert(p.drop_last() =~= init);
            assert(join_with(p, sep) =~= d.push(sep));
            assert(d.push(sep) =~= s);
            assert forall|i: int, k: int|
                0 <= i < p.len() && 0 <= k < p[i].len() implies #[trigger] p[i][k] != sep by {
                assert(i < init.len());
            }
        } else {
            lemma_join_extend_last(init, sep, s.last());
            assert(d.push(s.last()) =~= s);
            let p = init.update(init.len() - 1, init.last().push(s.last()));
            assert forall|i: int, k: int|
                0 <= i < p.len() && 0 <= k < p[i].len() implies #[trigger] p[i][k] != sep by {
                if i == init.len() - 1 {
                    if k < init.last().len() {
                        assert(p[i][k] == init[i][k]);
                    }
                } else {
                    assert(p[i] == init[i]);
                }
            }
        }
    }
}

/// A text starts with a prefix exactly when its first characters are that
/// prefix; any text starts with itself and with the empty text, and what
/// follows a prefix never matters.
pub proof fn lemma_starts_with(s: Seq<char>, prefix: Seq<char>, rest: Seq<char>)
    ensures
        starts_with(s, prefix) <==> prefix.len() <= s.len() && s.take(prefix.len() as int)
            == prefix,
        starts_with(prefix + rest, prefix),
        starts_with(s, Seq::empty()),
        starts_with(s, prefix) ==> contains(s, prefix),
{
    assert((prefix + rest).subrange(0, prefix.len() as int) =~= prefix);
    assert(s.subrange(0, 0) =~= Seq::<char>::empty());
    if prefix.len() <= s.len() {
        assert(s.take(prefix.len() as int) =~= s.subrange(0, prefix.len() as int));
    }
}

} // verus!
