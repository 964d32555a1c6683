//! Regular-expression search, through the `regex` crate.

use vstd::prelude::*;

verus! {

/// A compiled regular expression of the `regex` crate.
#[verifier::external_type_specification]
#[verifier::external_body]
pub struct ExRegex(regex::Regex);

/// The error `regex::Regex::new` reports for a pattern it refuses.
#[verifier::external_type_specification]
#[verifier::external_body]
pub struct ExRegexError(regex::Error);

/// Whether the regular expression written `pattern` matches somewhere in
/// `haystack`, as the `regex` crate decides it.
pub uninterp spec fn regex_matches(pattern: Seq<char>, haystack: Seq<char>) -> bool;

/// Whether the `regex` crate accepts `pattern` as a regular expression.
pub uninterp spec fn regex_compiles(pattern: Seq<char>) -> bool;

/// A regular expression together with the text it was compiled from.
pub struct TextPattern {
    source: String,
    compiled: regex::Regex,
}

impl TextPattern {
    /// The text the pattern was compiled from.
    pub closed spec fn source(&self) -> Seq<char> {
        self.source@
    }

    /// `regex::Regex::new`: compiles `source`; it succeeds exactly when
    /// `regex_compiles` holds of `source` (whether a pattern is accepted
    /// depends on the pattern alone), and on success the pattern keeps
    /// `source` as its text.
    #[verifier::external_body]
    pub(crate) fn compile(source: &str) -> (r: Result<TextPattern, regex::Error>)
        ensures
            r is Ok <==> regex_compiles(source@),
            r matches Ok(p) ==> p.source() == source@,
    {
        match regex::Regex::new(source) {
            Ok(compiled) => Ok(TextPattern { source: source.to_string(), compiled }),
            Err(e) => Err(e),
        }
    }

    /// `regex::Regex::is_match`: named by `regex_matches` applied to the
    /// pattern's text and `haystack` (a compiled pattern is built only by
    /// `compile`, from that text).
    #[verifier::external_body]
    pub(crate) fn is_match(&self, haystack: &str) -> (b: bool)
        ensures
            b == regex_matches(self.source(), haystack@),
    {
        self.compiled.is_match(haystack)
    }
}

/// Some text of `texts` is matched by `pattern`.
pub open spec fn some_match(pattern: Seq<char>, texts: Seq<String>) -> bool {
    exists|i: int| 0 <= i < texts.len() && regex_matches(pattern, #[trigger] texts[i]@)
}

/// Whether `pattern` matches one of `texts`, trying them in order.
pub fn matches_any(pattern: &TextPattern, texts: &Vec<String>) -> (r: bool)
    ensures
        r == some_match(pattern.source(), texts@),
{
    let n = texts.len();
    for i in 0..n
        invariant
            n == texts@.len(),
            forall|k: int| 0 <= k < i ==> !regex_matches(pattern.source(), #[trigger] texts@[k]@),
    {
        if pattern.is_match(texts[i].as_str()) {
            return true;
        }
    }
    false
}

/// The search succeeds through any text the pattern matches, wherever that
/// text stands among the others, and only through such a text.
pub proof fn lemma_some_match_any_text(pattern: Seq<char>, texts: Seq<String>)
    ensures
        forall|i: int|
            0 <= i < texts.len() && regex_matches(pattern, #[trigger] texts[i]@) ==> some_match(
                pattern,
                texts,
            ),
        some_match(pattern, texts) ==> exists|i: int|
            0 <= i < texts.len() && regex_matches(pattern, #[trigger] texts[i]@),
        texts.len() == 0 ==> !some_match(pattern, texts),
{
}

/// More texts, before or after, never undo a match.
pub proof fn lemma_some_match_extend(pattern: Seq<char>, texts: Seq<String>, extra: Seq<String>)
    requires
        some_match(pattern, texts),
    ensures
        some_match(pattern, texts + extra),
        some_match(pattern, extra + texts),
{
    let i = choose|i: int| 0 <= i < texts.len() && regex_matches(pattern, #[trigger] texts[i]@);
    assert((texts + extra)[i] == texts[i]);
    assert((extra + texts)[extra.len() + i] == texts[i]);
}

} // verus!
