//! First occurrence of a pattern in a text, as a mathematical notion and as
//! executable search and splitting.

use vstd::prelude::*;

verus! {

/// `pattern` stands in `text` at position `i`.
pub open spec fn occurs_at(text: Seq<char>, pattern: Seq<char>, i: int) -> bool {
    &&& 0 <= i
    &&& i + pattern.len() <= text.len()
    &&& text.subrange(i, i + pattern.len()) =~= pattern
}

/// `pattern` stands somewhere in `text`.
pub open spec fn occurs(text: Seq<char>, pattern: Seq<char>) -> bool {
    exists|i: int| occurs_at(text, pattern, i)
}

/// `pattern` stands in `text` at position `i` and at no earlier position.
pub open spec fn is_first_occurrence(text: Seq<char>, pattern: Seq<char>, i: int) -> bool {
    &&& occurs_at(text, pattern, i)
    &&& forall|j: int| 0 <= j < i ==> !occurs_at(text, pattern, j)
}

/// The least position at which `pattern` stands in `text`; meaningful only
/// where `occurs(text, pattern)`.
pub open spec fn first_occurrence(text: Seq<char>, pattern: Seq<char>) -> int {
    choose|i: int| is_first_occurrence(text, pattern, i)
}

/// A first occurrence is the only first occurrence, so it is the one that
/// `first_occurrence` names.
pub proof fn lemma_first_occurrence_unique(text: Seq<char>, pattern: Seq<char>, i: int)
    requires
        is_first_occurrence(text, pattern, i),
    ensures
        occurs(text, pattern),
        first_occurrence(text, pattern) == i,
{
    let k = first_occurrence(text, pattern);
    assert(is_first_occurrence(text, pattern, k));
    if k < i {
        assert(!occurs_at(text, pattern, k));
    } else if i < k {
        assert(!occurs_at(text, pattern, i));
    }
}

/// What splitting `text` on the first occurrence of `pattern` gives: the part
/// before that occurrence and the part after it, or, where `pattern` does not
/// occur, the whole text and `second_default`.
pub open spec fn split_first(
    text: Seq<char>,
    pattern: Seq<char>,
    second_default: Seq<char>,
) -> (Seq<char>, Seq<char>) {
    if occurs(text, pattern) {
        let i = first_occurrence(text, pattern);
        (text.take(i), text.skip(i + pattern.len()))
    } else {
        (text, second_default)
    }
}

/// Below every occurrence there is a first one.
proof fn lemma_least_occurrence(text: Seq<char>, pattern: Seq<char>, i: int)
    requires
        occurs_at(text, pattern, i),
    ensures
        exists|k: int| is_first_occurrence(text, pattern, k),
    decreases i,
{
    if exists|j: int| 0 <= j < i && occurs_at(text, pattern, j) {
        let j = choose|j: int| 0 <= j < i && occurs_at(text, pattern, j);
        lemma_least_occurrence(text, pattern, j);
    } else {
        assert(is_first_occurrence(text, pattern, i));
    }
}

/// The two parts of a split and the pattern between them make up the text
/// again, and the pattern stands nowhere before the place where the text was
/// cut. A text in which the pattern does not occur is handed back whole, with
/// the default beside it.
pub proof fn lemma_split_first_rejoins(
    text: Seq<char>,
    pattern: Seq<char>,
    second_default: Seq<char>,
)
    ensures
        occurs(text, pattern) ==> {
            let parts = split_first(text, pattern, second_default);
            &&& parts.0 + pattern + parts.1 == text
            &&& is_first_occurrence(text, pattern, parts.0.len() as int)
        },
        !occurs(text, pattern) ==> split_first(text, pattern, second_default) == (
            text,
            second_default,
        ),
{
    if occurs(text, pattern) {
        let some = choose|i: int| occurs_at(text, pattern, i);
        lemma_least_occurrence(text, pattern, some);
        let i = first_occurrence(text, pattern);
        assert(is_first_occurrence(text, pattern, i));
        assert(text.take(i) + pattern + text.skip(i + pattern.len()) =~= text);
    }
}

/// A text that lacks the first character of a pattern lacks the pattern, so
/// splitting it gives the whole text and the default.
pub proof fn lemma_split_first_absent(
    text: Seq<char>,
    pattern: Seq<char>,
    second_default: Seq<char>,
)
    requires
        pattern.len() >= 1,
        !text.contains(pattern[0]),
    ensures
        !occurs(text, pattern),
        split_first(text, pattern, second_default) == (text, second_default),
{
    assert forall|i: int| !occurs_at(text, pattern, i) by {
        if occurs_at(text, pattern, i) {
            assert(text.subrange(i, i + pattern.len())[0] == pattern[0]);
            assert(text[i] == pattern[0]);
        }
    }
}

/// Where a pattern is put between two texts and the first lacks the pattern's
/// first character, splitting the whole gives those two texts back, whatever
/// the second holds.
pub proof fn lemma_split_first_joined(
    before: Seq<char>,
    pattern: Seq<char>,
    after: Seq<char>,
    second_default: Seq<char>,
)
    requires
        pattern.len() >= 1,
        !before.contains(pattern[0]),
    ensures
        split_first(before + pattern + after, pattern, second_default) == (before, after),
{
    let text = before + pattern + after;
    let i = before.len() as int;
    assert(text.subrange(i, i + pattern.len()) =~= pattern);
    assert forall|j: int| 0 <= j < i implies !occurs_at(text, pattern, j) by {
        if occurs_at(text, pattern, j) {
            assert(text.subrange(j, j + pattern.len())[0] == pattern[0]);
            assert(before[j] == pattern[0]);
        }
    }
    lemma_first_occurrence_unique(text, pattern, i);
    assert(text.take(i) =~= before);
    assert(text.skip(i + pattern.len()) =~= after);
}

/// The characters of `text`, in order.
pub fn chars_of(text: &str) -> (chars: Vec<char>)
    ensures
        chars@ == text@,
{
    let mut chars: Vec<char> = Vec::new();
    for c in it: text.chars()
        invariant
            it.seq() == text@,
            chars@ == it.seq().take(it.index()),
    {
        chars.push(c);
    }
    chars
}

/// Whether `pattern` stands in `text` at position `i`.
fn matches_at(text: &Vec<char>, pattern: &Vec<char>, i: usize) -> (hit: bool)
    requires
        i + pattern.len() <= text.len(),
    ensures
        hit == occurs_at(text@, pattern@, i as int),
{
    let mut k: usize = 0;
    while k < pattern.len()
        invariant
            k <= pattern.len(),
            i + pattern.len() <= text.len(),
            forall|j: int| 0 <= j < k ==> text@[i + j] == pattern@[j],
        decreases pattern.len() - k,
    {
        if text[i + k] != pattern[k] {
            assert(text@.subrange(i as int, i + pattern@.len())[k as int] != pattern@[k as int]);
            return false;
        }
        k += 1;
    }
    true
}

/// The position of the first occurrence of `pattern` in `text`, if there is
/// one. The empty pattern occurs at position 0 of every text.
pub fn find_first(text: &Vec<char>, pattern: &Vec<char>) -> (found: Option<usize>)
    ensures
        match found {
            Some(i) => is_first_occurrence(text@, pattern@, i as int),
            None => !occurs(text@, pattern@),
        },
{
    if pattern.len() > text.len() {
        return None;
    }
    let last: usize = text.len() - pattern.len();
    let mut i: usize = 0;
    while i <= last
        invariant
            i <= last + 1,
            last == text.len() - pattern.len(),
            forall|j: int| 0 <= j < i ==> !occurs_at(text@, pattern@, j),
        decreases last + 1 - i,
    {
        if matches_at(text, pattern, i) {
            return Some(i);
        }
        i += 1;
    }
    None
}

/// Splits `sentence` in two on the first occurrence of `pattern`. Later
/// occurrences stay in the second part. Where `pattern` does not occur the
/// first part is the whole sentence and the second is `second_default`.
pub fn split(sentence: String, pattern: &str, second_default: String) -> (parts: (String, String))
    ensures
        (parts.0@, parts.1@) == split_first(sentence@, pattern@, second_default@),
{
    let text = chars_of(sentence.as_str());
    let pat = chars_of(pattern);
    match find_first(&text, &pat) {
        Some(i) => {
            proof {
                lemma_first_occurrence_unique(text@, pat@, i as int);
            }
            let whole = sentence.as_str();
            let first = whole.substring_char(0, i).to_owned();
            let end: usize = text.len();
            let second = whole.substring_char(i + pat.len(), end).to_owned();
            (first, second)
        },
        None => (sentence, second_default),
    }
}

} // verus!
