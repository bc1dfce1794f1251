//! Small helpers on text.

use vstd::prelude::*;

verus! {

/// Whether two pieces of text hold the same characters.
pub fn same_text(a: &str, b: &str) -> (same: bool)
    ensures
        same == (a@ == b@),
{
    let left: String = a.to_owned();
    let right: String = b.to_owned();
    left == right
}

/// `piece` stands in `text` in one piece.
pub open spec fn is_piece_of(piece: Seq<char>, text: Seq<char>) -> bool {
    exists|from: int, to: int|
        0 <= from <= to <= text.len() && piece == #[trigger] text.subrange(from, to)
}

/// `text` without the white space at its two ends, as `str::trim` returns it.
pub uninterp spec fn trimmed(text: Seq<char>) -> Seq<char>;

/// `str::trim` of std: the part of `text` left when leading and trailing
/// white space (the Unicode property `White_Space`) is removed. The contract
/// names that result and says that it is one piece of `text`.
#[verifier::external_body]
pub(crate) fn trim(text: &str) -> (inner: &str)
    ensures
        inner@ == trimmed(text@),
        is_piece_of(inner@, text@),
{
    text.trim()
}

/// Whether `pattern` stands in `text` at position `at`.
pub open spec fn occurs_at(text: Seq<char>, pattern: Seq<char>, at: int) -> bool {
    &&& 0 <= at
    &&& at + pattern.len() <= text.len()
    &&& text.subrange(at, at + pattern.len()) == pattern
}

/// Position of the first occurrence of `pattern` in `text` at or after `from`.
pub open spec fn find_from(text: Seq<char>, pattern: Seq<char>, from: int) -> Option<int>
    decreases text.len() - from,
{
    if from < 0 || from + pattern.len() > text.len() {
        None
    } else if occurs_at(text, pattern, from) {
        Some(from)
    } else if from >= text.len() {
        None
    } else {
        find_from(text, pattern, from + 1)
    }
}

/// The part of `text` before the first `separator`, or all of it when there is none.
pub open spec fn first_field(text: Seq<char>, separator: Seq<char>) -> Seq<char> {
    match find_from(text, separator, 0) {
        Some(at) => text.take(at),
        None => text,
    }
}

/// The part of `text` after the first `separator`, if there is one.
pub open spec fn after_first_field(text: Seq<char>, separator: Seq<char>) -> Option<Seq<char>> {
    match find_from(text, separator, 0) {
        Some(at) => Some(text.skip(at + separator.len())),
        None => None,
    }
}

/// `str::split_once` of std, with a string as the delimiter: the text before
/// the first occurrence of the delimiter and the text after it, or `None`
/// when the delimiter does not occur.
#[verifier::external_body]
fn split_once<'a>(text: &'a str, separator: &str) -> (parts: Option<(&'a str, &'a str)>)
    ensures
        match parts {
            Some((before, after)) => {
                &&& text@ == before@ + separator@ + after@
                &&& forall|at: int| 0 <= at < before@.len() ==> !occurs_at(text@, separator@, at)
            },
            None => forall|at: int| !occurs_at(text@, separator@, at),
        },
{
    text.split_once(separator)
}

/// An occurrence with none before it is the first one.
proof fn lemma_first_occurrence(text: Seq<char>, pattern: Seq<char>, from: int, at: int)
    requires
        0 <= from <= at,
        occurs_at(text, pattern, at),
        forall|earlier: int| from <= earlier < at ==> !occurs_at(text, pattern, earlier),
    ensures
        find_from(text, pattern, from) == Some(at),
    decreases at - from,
{
    if from < at {
        lemma_first_occurrence(text, pattern, from + 1, at);
    }
}

/// Where the pattern never occurs, none is found.
proof fn lemma_no_occurrence(text: Seq<char>, pattern: Seq<char>, from: int)
    requires
        forall|at: int| !occurs_at(text, pattern, at),
    ensures
        find_from(text, pattern, from) is None,
    decreases text.len() - from,
{
    if 0 <= from && from + pattern.len() <= text.len() && from < text.len() {
        lemma_no_occurrence(text, pattern, from + 1);
    }
}

/// Cuts `text` at the first `separator`: the field before it, and what follows it if it occurs.
pub fn split_first<'a>(text: &'a str, separator: &str) -> (parts: (&'a str, Option<&'a str>))
    ensures
        parts.0@ == first_field(text@, separator@),
        match parts.1 {
            Some(rest) => after_first_field(text@, separator@) == Some(rest@),
            None => after_first_field(text@, separator@) is None,
        },
{
    match split_once(text, separator) {
        Some((before, after)) => {
            proof {
                let at = before@.len() as int;
                assert(text@.subrange(at, at + separator@.len()) =~= separator@);
                lemma_first_occurrence(text@, separator@, 0, at);
                assert(text@.take(at) =~= before@);
                assert(text@.skip(at + separator@.len()) =~= after@);
            }
            (before, Some(after))
        },
        None => {
            proof {
                lemma_no_occurrence(text@, separator@, 0);
            }
            (text, None)
        },
    }
}

/// `function` may return `output` when it is handed text that reads `input`.
pub open spec fn returns_on_text<R, F: Fn(&str) -> R>(
    function: F,
    input: Seq<char>,
    output: R,
) -> bool {
    exists|text: &str| text@ == input && call_ensures(function, (text,), output)
}

/// What a function may return does not depend on whether it is called directly or through a reference.
pub proof fn lemma_returns_on_text_by_ref<R, F: Fn(&str) -> R>(
    function: &F,
    input: Seq<char>,
    output: R,
)
    requires
        returns_on_text(function, input, output),
    ensures
        returns_on_text(*function, input, output),
{
    let text = choose|text: &str| text@ == input && call_ensures(function, (text,), output);
    assert(call_ensures(*function, (text,), output));
}

} // verus!
