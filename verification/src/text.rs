//! Texts as sequences of characters: finding a character, comparing, and
//! testing for a prefix.

use vstd::prelude::*;
use vstd::string::*;

verus! {

/// `i` is the first place in `s` that holds `c`.
pub open spec fn first_at(s: Seq<char>, c: char, i: int) -> bool {
    &&& 0 <= i < s.len()
    &&& s[i] == c
    &&& forall|j: int| 0 <= j < i ==> s[j] != c
}

/// The first place in `s` that holds `c`, if any.
pub open spec fn position(s: Seq<char>, c: char) -> Option<int> {
    if exists|i: int| first_at(s, c, i) {
        Some(choose|i: int| first_at(s, c, i))
    } else {
        None
    }
}

/// A character has at most one first place.
pub proof fn lemma_first_at_unique(s: Seq<char>, c: char, i: int, k: int)
    requires
        first_at(s, c, i),
        first_at(s, c, k),
    ensures
        i == k,
{
    if i < k {
        assert(s[i] != c);
    } else if k < i {
        assert(s[k] != c);
    }
}

/// Where `position` finds `c`, it is the first place that holds it; where it
/// finds nothing, no place holds it.
pub proof fn lemma_position(s: Seq<char>, c: char)
    ensures
        match position(s, c) {
            Some(i) => first_at(s, c, i),
            None => forall|j: int| 0 <= j < s.len() ==> s[j] != c,
        },
    decreases s.len(),
{
    if position(s, c) is None {
        assert forall|j: int| 0 <= j < s.len() implies s[j] != c by {
            if s[j] == c {
                lemma_occurrence_has_first(s, c, j);
            }
        }
    }
}

/// A character that occurs at `j` has a first place at or before `j`.
pub proof fn lemma_occurrence_has_first(s: Seq<char>, c: char, j: int)
    requires
        0 <= j < s.len(),
        s[j] == c,
    ensures
        exists|i: int| first_at(s, c, i) && i <= j,
    decreases j,
{
    if exists|k: int| 0 <= k < j && s[k] == c {
        let k = choose|k: int| 0 <= k < j && s[k] == c;
        lemma_occurrence_has_first(s, c, k);
    } else {
        assert(first_at(s, c, j));
    }
}

/// Finds the first place in `text` that holds `c`.
pub fn find_char(text: &str, c: char) -> (found: Option<usize>)
    ensures
        match found {
            Some(i) => position(text@, c) == Some(i as int),
            None => position(text@, c) is None,
        },
{
    let n: usize = text.unicode_len();
    let mut i: usize = 0;
    while i < n
        invariant
            n == text@.len(),
            i <= n,
            forall|j: int| 0 <= j < i ==> text@[j] != c,
        decreases n - i,
    {
        if text.get_char(i) == c {
            proof {
                assert(first_at(text@, c, i as int));
                lemma_position(text@, c);
                lemma_first_at_unique(text@, c, i as int, position(text@, c)->0);
            }
            return Some(i);
        }
        i = i + 1;
    }
    proof {
        lemma_position(text@, c);
    }
    None
}

/// Whether two texts hold the same characters.
pub fn same_text(a: &str, b: &str) -> (r: bool)
    ensures
        r == (a@ == b@),
{
    a.to_owned() == b.to_owned()
}

/// `text` begins with `prefix`.
pub open spec fn has_prefix(text: Seq<char>, prefix: Seq<char>) -> bool {
    prefix.len() <= text.len() && text.subrange(0, prefix.len() as int) == prefix
}

/// Whether `text` begins with `prefix`.
pub fn starts_with(text: &str, prefix: &str) -> (r: bool)
    ensures
        r == has_prefix(text@, prefix@),
{
    let n = prefix.unicode_len();
    if n > text.unicode_len() {
        return false;
    }
    same_text(text.substring_char(0, n), prefix)
}

/// The pieces that the separator cuts a text into: the text up to the first
/// separator, then the pieces of what follows it. A text without a separator
/// is one piece.
pub open spec fn pieces(text: Seq<char>, sep: char) -> Seq<Seq<char>>
    decreases text.len(),
    via pieces_decreases
{
    match position(text, sep) {
        None => seq![text],
        Some(i) => seq![text.subrange(0, i)] + pieces(
            text.subrange(i + 1, text.len() as int),
            sep,
        ),
    }
}

#[via_fn]
proof fn pieces_decreases(text: Seq<char>, sep: char) {
    lemma_position(text, sep);
}

/// Texts as plain characters.
pub open spec fn text_views(texts: Seq<String>) -> Seq<Seq<char>> {
    texts.map_values(|t: String| t@)
}

/// Cuts a text at every separator.
pub fn split(text: &str, sep: char) -> (parts: Vec<String>)
    ensures
        text_views(parts@) == pieces(text@, sep),
    decreases text@.len(),
{
    let mut parts: Vec<String> = Vec::new();
    match find_char(text, sep) {
        None => {
            parts.push(text.to_owned());
            assert(text_views(parts@) =~= seq![text@]);
        },
        Some(i) => {
            proof {
                lemma_position(text@, sep);
            }
            let n = text.unicode_len();
            parts.push(text.substring_char(0, i).to_owned());
            let mut rest = split(text.substring_char(i + 1, n), sep);
            let ghost rest_views = text_views(rest@);
            parts.append(&mut rest);
            assert(text_views(parts@) =~= seq![text@.subrange(0, i as int)] + rest_views);
        },
    }
    parts
}

} // verus!
