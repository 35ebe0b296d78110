//! Searching, splitting and joining text.
//!
//! Text is a sequence of characters. A pattern is matched as plain text,
//! character by character; nothing in it has a special meaning.

use vstd::prelude::*;

verus! {

/// The texts of a sequence of strings.
pub open spec fn texts(strings: Seq<String>) -> Seq<Seq<char>> {
    strings.map_values(|s: String| s@)
}

/// The pattern stands in the text at position `at`.
pub open spec fn occurs_at(text: Seq<char>, pattern: Seq<char>, at: int) -> bool {
    &&& 0 <= at
    &&& at + pattern.len() <= text.len()
    &&& text.subrange(at, at + pattern.len()) == pattern
}

/// The pattern stands somewhere in the text.
pub open spec fn contains_spec(text: Seq<char>, pattern: Seq<char>) -> bool {
    exists|at: int| occurs_at(text, pattern, at)
}

/// The first position at or after `from` at which the pattern stands.
pub open spec fn find_from(text: Seq<char>, pattern: Seq<char>, from: int) -> Option<int>
    decreases text.len() + 1 - from,
{
    if from < 0 || from + pattern.len() > text.len() {
        None
    } else if occurs_at(text, pattern, from) {
        Some(from)
    } else {
        find_from(text, pattern, from + 1)
    }
}

/// The pieces of the text from position `from` on, cut at each occurrence of
/// the separator. Occurrences are taken from left to right, each search
/// starting behind the occurrence before it, so occurrences never overlap.
pub open spec fn split_from(text: Seq<char>, separator: Seq<char>, from: int) -> Seq<Seq<char>>
    decreases text.len() + 1 - from,
{
    match find_from(text, separator, from) {
        Some(at) if from <= at && at + separator.len() <= text.len() && separator.len() > 0 => {
            seq![text.subrange(from, at)] + split_from(text, separator, at + separator.len())
        },
        _ => seq![text.subrange(from, text.len() as int)],
    }
}

/// The pieces of the text between the occurrences of the separator. There is
/// always at least one piece. Two occurrences in a row give an empty piece
/// between them, one at the very start an empty first piece, one at the very
/// end an empty last piece.
pub open spec fn split_spec(text: Seq<char>, separator: Seq<char>) -> Seq<Seq<char>> {
    split_from(text, separator, 0)
}

/// The parts in order, with the separator between each two neighbours.
pub open spec fn join_spec(parts: Seq<Seq<char>>, separator: Seq<char>) -> Seq<char>
    decreases parts.len(),
{
    if parts.len() == 0 {
        Seq::empty()
    } else if parts.len() == 1 {
        parts[0]
    } else {
        join_spec(parts.drop_last(), separator) + separator + parts.last()
    }
}

/// What `find_from` returns is an occurrence at or after `from`, and there
/// is none before it; where it returns nothing, there is none at or after
/// `from`.
pub proof fn lemma_find_from(text: Seq<char>, pattern: Seq<char>, from: int)
    requires
        0 <= from,
    ensures
        match find_from(text, pattern, from) {
            Some(at) => {
                &&& from <= at
                &&& occurs_at(text, pattern, at)
                &&& forall|k: int| from <= k < at ==> !occurs_at(text, pattern, k)
            },
            None => forall|k: int| from <= k ==> !occurs_at(text, pattern, k),
        },
    decreases text.len() + 1 - from,
{
    if from + pattern.len() <= text.len() && !occurs_at(text, pattern, from) {
        lemma_find_from(text, pattern, from + 1);
    }
}

/// A text contains a pattern exactly if a search from its start finds it.
pub proof fn lemma_contains_is_found(text: Seq<char>, pattern: Seq<char>)
    ensures
        contains_spec(text, pattern) <==> find_from(text, pattern, 0) is Some,
{
    lemma_find_from(text, pattern, 0);
}

/// Joining a first part with the parts behind it: the first part, the
/// separator, and the others joined.
proof fn lemma_join_first(first: Seq<char>, others: Seq<Seq<char>>, separator: Seq<char>)
    requires
        others.len() > 0,
    ensures
        join_spec(seq![first] + others, separator) == first + separator + join_spec(
            others,
            separator,
        ),
    decreases others.len(),
{
    let all = seq![first] + others;
    assert(all.drop_last() =~= seq![first] + others.drop_last());
    if others.len() > 1 {
        lemma_join_first(first, others.drop_last(), separator);
        let front = join_spec(others.drop_last(), separator);
        assert(join_spec(all.drop_last(), separator) == first + separator + front);
        assert(join_spec(all, separator) == join_spec(all.drop_last(), separator) + separator
            + all.last());
        assert(first + separator + front + separator + others.last() =~= first + separator + (front
            + separator + others.last()));
    }
}

/// Splitting never gives an empty sequence of pieces, and joining the pieces
/// with the separator gives the text back.
pub proof fn lemma_join_split(text: Seq<char>, separator: Seq<char>)
    ensures
        split_spec(text, separator).len() >= 1,
        join_spec(split_spec(text, separator), separator) == text,
{
    lemma_join_split_from(text, separator, 0);
}

/// The pieces from a position on, joined, are the text from that position
/// on.
proof fn lemma_join_split_from(text: Seq<char>, separator: Seq<char>, from: int)
    requires
        0 <= from <= text.len(),
    ensures
        split_from(text, separator, from).len() >= 1,
        join_spec(split_from(text, separator, from), separator) == text.subrange(
            from,
            text.len() as int,
        ),
    decreases text.len() + 1 - from,
{
    lemma_find_from(text, separator, from);
    match find_from(text, separator, from) {
        Some(at) if from <= at && at + separator.len() <= text.len() && separator.len() > 0 => {
            let next = at + separator.len();
            let others = split_from(text, separator, next);
            lemma_join_split_from(text, separator, next);
            lemma_join_first(text.subrange(from, at), others, separator);
        },
        _ => {},
    }
}

/// The characters of a string slice.
pub fn to_chars(s: &str) -> (chars: Vec<char>)
    ensures
        chars@ == s@,
{
    let mut chars: Vec<char> = Vec::new();
    for c in it: s.chars()
        invariant
            it.seq() == s@,
            chars@ == s@.take(it.index()),
    {
        chars.push(c);
    }
    chars
}

/// Whether the pattern stands in the text at position `at`.
pub fn matches_at(text: &Vec<char>, pattern: &Vec<char>, at: usize) -> (b: bool)
    ensures
        b == occurs_at(text@, pattern@, at as int),
{
    if pattern.len() > text.len() || at > text.len() - pattern.len() {
        return false;
    }
    let mut k: usize = 0;
    while k < pattern.len()
        invariant
            at + pattern.len() <= text.len(),
            k <= pattern.len(),
            forall|j: int| 0 <= j < k ==> text@[at + j] == pattern@[j],
        decreases pattern.len() - k,
    {
        if text[at + k] != pattern[k] {
            return false;
        }
        k += 1;
    }
    proof {
        assert(text@.subrange(at as int, at + pattern.len()) =~= pattern@);
    }
    true
}

/// The first position at or after `from` at which the pattern stands.
pub fn find(text: &Vec<char>, pattern: &Vec<char>, from: usize) -> (r: Option<usize>)
    ensures
        match r {
            Some(at) => find_from(text@, pattern@, from as int) == Some(at as int),
            None => find_from(text@, pattern@, from as int) is None,
        },
{
    if pattern.len() > text.len() {
        return None;
    }
    let last: usize = text.len() - pattern.len();
    let mut at: usize = from;
    while at <= last
        invariant
            last + pattern.len() == text.len(),
            from <= at,
            find_from(text@, pattern@, from as int) == find_from(text@, pattern@, at as int),
        decreases last - at,
    {
        if matches_at(text, pattern, at) {
            return Some(at);
        }
        if at == last {
            assert(find_from(text@, pattern@, at + 1) is None);
            return None;
        }
        at += 1;
    }
    None
}

/// Whether the pattern stands somewhere in the text.
pub fn contains(text: &str, pattern: &str) -> (b: bool)
    ensures
        b == contains_spec(text@, pattern@),
{
    let text_chars = to_chars(text);
    let pattern_chars = to_chars(pattern);
    proof {
        lemma_contains_is_found(text@, pattern@);
    }
    find(&text_chars, &pattern_chars, 0).is_some()
}

/// Cuts the text at each occurrence of the separator.
pub fn split(text: &str, separator: &str) -> (pieces: Vec<String>)
    requires
        separator@.len() > 0,
    ensures
        texts(pieces@) == split_spec(text@, separator@),
{
    let text_chars = to_chars(text);
    let separator_chars = to_chars(separator);
    let mut pieces: Vec<String> = Vec::new();
    let mut from: usize = 0;
    loop
        invariant
            text_chars@ == text@,
            separator_chars@ == separator@,
            separator@.len() > 0,
            from <= text_chars.len(),
            split_spec(text@, separator@) == texts(pieces@) + split_from(
                text@,
                separator@,
                from as int,
            ),
        ensures
            find_from(text@, separator@, from as int) is None,
        decreases text_chars.len() - from,
    {
        match find(&text_chars, &separator_chars, from) {
            Some(at) => {
                proof {
                    lemma_find_from(text@, separator@, from as int);
                }
                let piece = text.substring_char(from, at).to_owned();
                pieces.push(piece);
                from = at + separator_chars.len();
            },
            None => {
                break;
            },
        }
    }
    let piece = text.substring_char(from, text_chars.len()).to_owned();
    pieces.push(piece);
    pieces
}

/// Puts the parts together, with the separator between each two neighbours.
pub fn join(parts: &Vec<String>, separator: &str) -> (joined: String)
    ensures
        joined@ == join_spec(texts(parts@), separator@),
{
    let mut joined = String::new();
    let mut i: usize = 0;
    while i < parts.len()
        invariant
            i <= parts.len(),
            joined@ == join_spec(texts(parts@).take(i as int), separator@),
        decreases parts.len() - i,
    {
        proof {
            let done = texts(parts@).take(i + 1);
            assert(done.drop_last() =~= texts(parts@).take(i as int));
        }
        if i > 0 {
            joined.append(separator);
        }
        joined.append(parts[i].as_str());
        i += 1;
    }
    proof {
        assert(texts(parts@).take(parts@.len() as int) =~= texts(parts@));
    }
    joined
}

} // verus!
