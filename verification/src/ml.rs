//! The integer side of the environment classifier's feature encoding:
//! categorical property values become codes in order of first appearance.

use vstd::prelude::*;
use crate::text::same_text;

verus! {

/// The key under which a property value is encoded: an empty value counts
/// as `unknown`.
pub open spec fn label_key(label: Seq<char>) -> Seq<char> {
    if label.len() == 0 {
        "unknown"@
    } else {
        label
    }
}

/// One encoding step on the keys seen so far (in order of first appearance):
/// the code of the label's key and the keys afterwards.  A known key keeps
/// its code; a new key gets the next code.
pub open spec fn encode_step(seen: Seq<Seq<char>>, label: Seq<char>) -> (int, Seq<Seq<char>>) {
    let key = label_key(label);
    if seen.contains(key) {
        (seen.index_of(key), seen)
    } else {
        (seen.len() as int, seen.push(key))
    }
}

/// The codes given so far to categorical values: the keys, in the order in
/// which they were first seen; a key's code is its position.
pub struct LabelEncoder {
    labels: Vec<String>,
}

impl LabelEncoder {
    /// The keys seen so far, in order of first appearance.
    pub closed spec fn view(&self) -> Seq<Seq<char>> {
        self.labels@.map_values(|s: String| s@)
    }

    /// An encoder that has seen nothing.
    pub fn new() -> (e: LabelEncoder)
        ensures
            e.view() == Seq::<Seq<char>>::empty(),
            e.view().no_duplicates(),
    {
        let e = LabelEncoder { labels: Vec::new() };
        assert(e.view() =~= Seq::<Seq<char>>::empty());
        e
    }

    /// How many distinct keys have been seen.
    pub fn len(&self) -> (n: usize)
        ensures
            n == self.view().len(),
    {
        self.labels.len()
    }
}

/// Encodes a categorical value: the position of its key among the keys
/// seen so far, the key being recorded first when it is new.
pub fn label_encode(s: &str, map: &mut LabelEncoder) -> (code: usize)
    requires
        old(map).view().no_duplicates(),
    ensures
        (code as int, final(map).view()) == encode_step(old(map).view(), s@),
        final(map).view().no_duplicates(),
{
    let key: &str = if s.is_empty() {
        "unknown"
    } else {
        s
    };
    let ghost seen = map.view();
    let n = map.labels.len();
    assert(key@ == label_key(s@));
    for i in 0..n
        invariant
            n == map.labels@.len(),
            seen == map.view(),
            seen.no_duplicates(),
            key@ == label_key(s@),
            forall|j: int| 0 <= j < i ==> seen[j] != key@,
    {
        assert(seen[i as int] == map.labels@[i as int]@);
        if same_text(map.labels[i].as_str(), key) {
            proof {
                assert(seen.contains(key@));
                let k = seen.index_of(key@);
                assert(seen[k] == key@);
            }
            return i;
        }
    }
    proof {
        assert(!seen.contains(key@)) by {
            if seen.contains(key@) {
                let k = choose|k: int| 0 <= k < seen.len() && seen[k] == key@;
                assert(seen[k] != key@);
            }
        }
    }
    map.labels.push(key.to_owned());
    assert(map.view() =~= seen.push(key@));
    n
}

/// The target of a training record: `1` when the environment was marked
/// `Sim` (compromised), `0` otherwise.
pub fn target_label(answer: &str) -> (label: usize)
    ensures
        label == (if answer@ == "Sim"@ { 1usize } else { 0usize }),
{
    if same_text(answer, "Sim") {
        1
    } else {
        0
    }
}

/// Encoding the same value twice in a row gives the same code and records
/// nothing the second time; encoding two values in a row gives the same code
/// exactly when their keys are the same.
pub proof fn lemma_codes_stable_and_distinct(seen: Seq<Seq<char>>, a: Seq<char>, b: Seq<char>)
    requires
        seen.no_duplicates(),
    ensures
        ({
            let (code_a, after_a) = encode_step(seen, a);
            let (code_b, after_b) = encode_step(after_a, b);
            &&& (code_a == code_b <==> label_key(a) == label_key(b))
            &&& (label_key(a) == label_key(b) ==> after_b == after_a)
            &&& 0 <= code_a < after_a.len()
            &&& after_a[code_a] == label_key(a)
        }),
{
    let ka = label_key(a);
    let kb = label_key(b);
    let (code_a, after_a) = encode_step(seen, a);
    lemma_step_facts(seen, a);
    lemma_step_facts(after_a, b);
    let (code_b, after_b) = encode_step(after_a, b);
    if code_a == code_b {
        assert(after_b[code_b] == kb);
        assert(after_a[code_a] == ka);
        if code_b < after_a.len() {
            assert(after_b[code_b] == after_a[code_b]);
        }
    }
    if ka == kb {
        assert(after_a.contains(kb));
    }
}

/// One step yields a position that holds the key, keeps the earlier keys and
/// keeps them distinct.
pub proof fn lemma_step_facts(seen: Seq<Seq<char>>, label: Seq<char>)
    requires
        seen.no_duplicates(),
    ensures
        ({
            let (code, after) = encode_step(seen, label);
            &&& 0 <= code < after.len()
            &&& after[code] == label_key(label)
            &&& after.no_duplicates()
            &&& after.len() >= seen.len()
            &&& forall|i: int| 0 <= i < seen.len() ==> after[i] == seen[i]
            &&& (seen.contains(label_key(label)) ==> code < seen.len() && after == seen)
            &&& (!seen.contains(label_key(label)) ==> code == seen.len())
        }),
{
    let key = label_key(label);
    if seen.contains(key) {
        let k = seen.index_of(key);
        assert(seen[k] == key);
    } else {
        let after = seen.push(key);
        assert forall|i: int, j: int|
            0 <= i < after.len() && 0 <= j < after.len() && i != j implies after[i] != after[j] by {
            if i < seen.len() && j < seen.len() {
                assert(seen[i] != seen[j]);
            } else if i < seen.len() {
                assert(after[i] == seen[i]);
                assert(seen.contains(seen[i]));
            } else {
                assert(after[j] == seen[j]);
                assert(seen.contains(seen[j]));
            }
        }
    }
}

/// A non-empty value is its own key; the empty value is keyed as `unknown`.
pub proof fn lemma_label_key(label: Seq<char>)
    ensures
        label.len() > 0 ==> label_key(label) == label,
        label.len() == 0 ==> label_key(label) == "unknown"@,
{
}

/// Two different non-empty values encoded one after the other get
/// different codes; the empty value and `unknown` get the same code.
pub proof fn lemma_distinct_values_distinct_codes(
    seen: Seq<Seq<char>>,
    a: Seq<char>,
    b: Seq<char>,
)
    requires
        seen.no_duplicates(),
    ensures
        a.len() > 0 && b.len() > 0 && a != b ==> encode_step(seen, a).0 != encode_step(
            encode_step(seen, a).1,
            b,
        ).0,
        a.len() == 0 && b == "unknown"@ ==> encode_step(seen, a).0 == encode_step(
            encode_step(seen, a).1,
            b,
        ).0,
{
    reveal_strlit("unknown");
    lemma_codes_stable_and_distinct(seen, a, b);
    lemma_label_key(a);
    lemma_label_key(b);
}

} // verus!
