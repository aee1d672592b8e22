//! Comparing and searching text, character by character.

use vstd::prelude::*;
use vstd::utf8::encode_utf8_decode_utf8;

verus! {

/// Whether `needle` stands in `text` from position `at` on, character for
/// character.
pub open spec fn occurs_at(needle: Seq<char>, text: Seq<char>, at: int) -> bool {
    &&& 0 <= at
    &&& at + needle.len() <= text.len()
    &&& text.subrange(at, at + needle.len()) == needle
}

/// Whether `needle` is a substring of `text`: the same characters, in the
/// same case, side by side. The empty needle is a substring of every text.
pub open spec fn occurs_in(needle: Seq<char>, text: Seq<char>) -> bool {
    exists|at: int| occurs_at(needle, text, at)
}

/// A needle occurs only where the text holds each of its characters, as they
/// are: the match is literal, and upper and lower case differ.
pub proof fn lemma_occurrence_is_exact(needle: Seq<char>, text: Seq<char>, at: int)
    requires
        occurs_at(needle, text, at),
    ensures
        forall|j: int| 0 <= j < needle.len() ==> text[at + j] == #[trigger] needle[j],
{
    assert forall|j: int| 0 <= j < needle.len() implies text[at + j] == #[trigger] needle[j] by {
        assert(text.subrange(at, at + needle.len())[j] == text[at + j]);
    }
}

/// A needle with a character that the text does not hold occurs nowhere in
/// it.
pub proof fn lemma_foreign_char_never_occurs(needle: Seq<char>, text: Seq<char>, j: int)
    requires
        0 <= j < needle.len(),
        !text.contains(needle[j]),
    ensures
        !occurs_in(needle, text),
{
    assert forall|at: int| !occurs_at(needle, text, at) by {
        if occurs_at(needle, text, at) {
            lemma_occurrence_is_exact(needle, text, at);
            assert(text[at + j] == needle[j]);
        }
    }
}

/// The characters of `text`, in order.
pub fn chars_of(text: &str) -> (chars: Vec<char>)
    ensures
        chars@ == text@,
{
    let mut chars: Vec<char> = Vec::new();
    for c in it: text.chars()
        invariant
            chars@ == it.seq().take(it.index()),
    {
        chars.push(c);
    }
    chars
}

/// Whether `needle` stands in `text` from position `at` on.
fn matches_at(needle: &Vec<char>, text: &Vec<char>, at: usize) -> (found: bool)
    requires
        at + needle@.len() <= text@.len(),
    ensures
        found == occurs_at(needle@, text@, at as int),
{
    let m = needle.len();
    let n = text.len();
    let mut k: usize = 0;
    while k < m
        invariant
            m == needle@.len(),
            n == text@.len(),
            at + m <= n,
            k <= m,
            forall|j: int| 0 <= j < k ==> text@[at + j] == needle@[j],
        decreases m - k,
    {
        if text[at + k] != needle[k] {
            return false;
        }
        k += 1;
    }
    proof {
        assert(text@.subrange(at as int, at + m) =~= needle@);
    }
    true
}

/// Whether `needle` is a substring of `text`, both given by their characters.
pub fn occurs(needle: &Vec<char>, text: &Vec<char>) -> (found: bool)
    ensures
        found == occurs_in(needle@, text@),
{
    let m = needle.len();
    let n = text.len();
    if m > n {
        return false;
    }
    let last = n - m;
    let mut at: usize = 0;
    loop
        invariant
            m == needle@.len(),
            n == text@.len(),
            last == n - m,
            at <= last,
            forall|p: int| 0 <= p < at ==> !occurs_at(needle@, text@, p),
        decreases last - at,
    {
        if matches_at(needle, text, at) {
            return true;
        }
        if at == last {
            return false;
        }
        at += 1;
    }
}

/// Whether `needle` is a substring of `text`.
pub fn contains(text: &str, needle: &str) -> (found: bool)
    ensures
        found == occurs_in(needle@, text@),
{
    let pattern = chars_of(needle);
    let subject = chars_of(text);
    occurs(&pattern, &subject)
}

/// Whether two texts hold the same characters.
pub fn same_text(a: &str, b: &str) -> (same: bool)
    ensures
        same == (a@ == b@),
{
    let x = a.as_bytes();
    let y = b.as_bytes();
    proof {
        // A text is what its bytes decode to, so equal bytes mean equal texts.
        encode_utf8_decode_utf8(a@);
        encode_utf8_decode_utf8(b@);
    }
    if x.len() != y.len() {
        return false;
    }
    let n = x.len();
    let mut i: usize = 0;
    while i < n
        invariant
            x@ == vstd::utf8::encode_utf8(a@),
            y@ == vstd::utf8::encode_utf8(b@),
            n == x@.len(),
            n == y@.len(),
            i <= n,
            forall|j: int| 0 <= j < i ==> x@[j] == y@[j],
        decreases n - i,
    {
        if x[i] != y[i] {
            return false;
        }
        i += 1;
    }
    proof {
        assert(x@ =~= y@);
    }
    true
}

} // verus!
