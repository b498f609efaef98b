//! The shape of a Singer metric line: an optional timestamp, the marker
//! `INFO METRIC: `, and a JSON payload that runs to the end of the line.

use crate::text::{chars_of, text_of};
use vstd::prelude::*;

verus! {

/// The marker that stands before the payload. It ends with one space.
pub open spec fn marker() -> Seq<char> {
    "INFO METRIC: "@
}

/// Whether the marker stands in `line` at position `at`.
pub open spec fn marker_at(line: Seq<char>, at: int) -> bool {
    &&& 0 <= at
    &&& at + marker().len() <= line.len()
    &&& line.subrange(at, at + marker().len()) == marker()
}

/// Whether the marker stands anywhere in `line`.
pub open spec fn has_marker(line: Seq<char>) -> bool {
    exists|at: int| marker_at(line, at)
}

/// Whether `at` is the first position of `line` at which the marker stands.
pub open spec fn first_marker_at(line: Seq<char>, at: int) -> bool {
    &&& marker_at(line, at)
    &&& forall|earlier: int| 0 <= earlier < at ==> !marker_at(line, earlier)
}

/// White space: the characters with Unicode's `White_Space` property.
pub open spec fn is_space(c: char) -> bool {
    ||| c == ' '
    ||| '\t' <= c <= '\r'
    ||| c == '\u{85}'
    ||| c == '\u{a0}'
    ||| c == '\u{1680}'
    ||| '\u{2000}' <= c <= '\u{200a}'
    ||| c == '\u{2028}'
    ||| c == '\u{2029}'
    ||| c == '\u{202f}'
    ||| c == '\u{205f}'
    ||| c == '\u{3000}'
}

/// `s` without the white space at its end.
pub open spec fn trimmed_end(s: Seq<char>) -> Seq<char>
    decreases s.len(),
{
    if s.len() > 0 && is_space(s.last()) {
        trimmed_end(s.drop_last())
    } else {
        s
    }
}

/// The two parts of a metric line: what stands before the first marker,
/// without the white space at its end, and what stands behind that marker.
/// `None` for a line without the marker. The first part is empty where the
/// line gives no timestamp.
pub open spec fn split_line(line: Seq<char>) -> Option<(Seq<char>, Seq<char>)> {
    if has_marker(line) {
        let at = choose|at: int| first_marker_at(line, at);
        Some((trimmed_end(line.take(at)), line.skip(at + marker().len())))
    } else {
        None
    }
}

/// The first marker decides: a line whose first marker stands at `at` splits
/// into what stands before `at`, trimmed at its end, and what stands behind
/// the marker.
pub proof fn lemma_split_at_first_marker(line: Seq<char>, at: int)
    requires
        first_marker_at(line, at),
    ensures
        split_line(line) == Some((trimmed_end(line.take(at)), line.skip(at + marker().len()))),
{
    let chosen = choose|k: int| first_marker_at(line, k);
    assert(chosen == at);
}

/// Whether `pattern` stands in `chars` at position `at`.
fn stands_at(chars: &Vec<char>, pattern: &Vec<char>, at: usize) -> (r: bool)
    requires
        at + pattern@.len() <= chars@.len(),
    ensures
        r == (chars@.subrange(at as int, at + pattern@.len()) == pattern@),
{
    let total = chars.len();
    let mut k: usize = 0;
    while k < pattern.len()
        invariant
            k <= pattern@.len(),
            at + pattern@.len() <= chars@.len() == total,
            forall|j: int| 0 <= j < k ==> chars@[at + j] == pattern@[j],
        decreases pattern@.len() - k,
    {
        if chars[at + k] != pattern[k] {
            assert(chars@.subrange(at as int, at + pattern@.len())[k as int] != pattern@[k as int]);
            return false;
        }
        k += 1;
    }
    assert(chars@.subrange(at as int, at + pattern@.len()) =~= pattern@);
    true
}

/// Whether `c` is white space.
pub fn is_whitespace(c: char) -> (r: bool)
    ensures
        r == is_space(c),
{
    c == ' ' || (c >= '\t' && c <= '\r') || c == '\u{85}' || c == '\u{a0}' || c == '\u{1680}' || (c
        >= '\u{2000}' && c <= '\u{200a}') || c == '\u{2028}' || c == '\u{2029}' || c == '\u{202f}'
        || c == '\u{205f}' || c == '\u{3000}'
}

/// The length of `chars[..end]` without the white space at its end.
fn trimmed_length(chars: &Vec<char>, end: usize) -> (n: usize)
    requires
        end <= chars@.len(),
    ensures
        n <= end,
        chars@.take(n as int) == trimmed_end(chars@.take(end as int)),
{
    let mut n = end;
    while n > 0 && is_whitespace(chars[n - 1])
        invariant
            n <= end <= chars@.len(),
            trimmed_end(chars@.take(n as int)) == trimmed_end(chars@.take(end as int)),
        decreases n,
    {
        assert(chars@.take(n as int).drop_last() == chars@.take(n - 1));
        n -= 1;
    }
    n
}

/// Splits a metric line at its first marker into the timestamp's text and
/// the payload's text. The timestamp's text is empty where the line gives
/// none.
pub fn split_metric_line(line: &str) -> (r: Option<(String, String)>)
    ensures
        match r {
            Some((timestamp, payload)) => split_line(line@) == Some((timestamp@, payload@)),
            None => split_line(line@) is None,
        },
{
    let chars = chars_of(line);
    let pattern = chars_of("INFO METRIC: ");
    proof {
        reveal_strlit("INFO METRIC: ");
    }
    if pattern.len() > chars.len() {
        return None;
    }
    let last = chars.len() - pattern.len();
    let mut at: usize = 0;
    while at <= last
        invariant
            chars@ == line@,
            pattern@ == marker(),
            pattern@.len() > 0,
            last + pattern@.len() == chars@.len() <= usize::MAX,
            at <= last + 1,
            forall|earlier: int| 0 <= earlier < at ==> !marker_at(line@, earlier),
        decreases last + 1 - at,
    {
        if stands_at(&chars, &pattern, at) {
            proof {
                lemma_split_at_first_marker(line@, at as int);
            }
            let end = trimmed_length(&chars, at);
            let timestamp = text_of(&chars, 0, end);
            let payload = text_of(&chars, at + pattern.len(), chars.len());
            assert(chars@.subrange(0, end as int) == chars@.take(end as int));
            assert(chars@.subrange(at + pattern@.len(), chars@.len() as int) == line@.skip(
                at + marker().len(),
            ));
            return Some((timestamp, payload));
        }
        at += 1;
    }
    assert(!has_marker(line@));
    None
}

} // verus!
