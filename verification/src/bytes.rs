//! Byte strings as a text file holds them: white space at their ends,
//! searching, comparing, removing a pattern, and the proof that none of
//! these turns a text into something that is no text.

use vstd::prelude::*;
use vstd::slice::*;
use vstd::string::*;
use vstd::utf8::{is_continuation_byte, length_of_first_scalar, valid_utf8};
use crate::fuzzy::{ascii_lower, lower_spec};
use crate::text::{
    lemma_concat_valid, lemma_cut_after_ascii, lemma_rest_valid, lemma_slice_valid,
    lemma_start_cuttable,
};

verus! {

/// The byte that ends a line.
pub const NEWLINE: u8 = 10;

/// The byte `=`, which parts a key from its value.
pub const EQUALS: u8 = 61;

/// The byte `#`, which starts a comment.
pub const HASH: u8 = 35;

/// Length of the white-space character whose encoding starts `s`, 0 where
/// `s` starts with none. White space is what Unicode calls so: the ASCII
/// controls 9 to 13, the space, and the wider spaces and separators whose
/// encodings begin with `C2`, `E1`, `E2` or `E3`.
pub open spec fn space_at_start(s: Seq<u8>) -> nat {
    if s.len() >= 1 && (9 <= s[0] <= 13 || s[0] == 32) {
        1
    } else if s.len() >= 2 && s[0] == 0xC2 && (s[1] == 0x85 || s[1] == 0xA0) {
        2
    } else if s.len() >= 3 && wide_space(s[0], s[1], s[2]) {
        3
    } else {
        0
    }
}

/// Whether three bytes encode a white-space character.
pub open spec fn wide_space(a: u8, b: u8, c: u8) -> bool {
    ||| a == 0xE1 && b == 0x9A && c == 0x80
    ||| a == 0xE2 && b == 0x80 && (0x80 <= c <= 0x8A || c == 0xA8 || c == 0xA9 || c == 0xAF)
    ||| a == 0xE2 && b == 0x81 && c == 0x9F
    ||| a == 0xE3 && b == 0x80 && c == 0x80
}

/// Length of the white-space character whose encoding ends `s`, 0 where
/// `s` ends with none.
pub open spec fn space_at_end(s: Seq<u8>) -> nat {
    let n = s.len() as int;
    if n >= 1 && (9 <= s[n - 1] <= 13 || s[n - 1] == 32) {
        1
    } else if n >= 2 && s[n - 2] == 0xC2 && (s[n - 1] == 0x85 || s[n - 1] == 0xA0) {
        2
    } else if n >= 3 && wide_space(s[n - 3], s[n - 2], s[n - 1]) {
        3
    } else {
        0
    }
}

/// `s` without the white space it starts with.
pub open spec fn trim_start_spec(s: Seq<u8>) -> Seq<u8>
    decreases s.len(),
{
    if space_at_start(s) > 0 {
        trim_start_spec(s.skip(space_at_start(s) as int))
    } else {
        s
    }
}

/// `s` without the white space it ends with.
pub open spec fn trim_end_spec(s: Seq<u8>) -> Seq<u8>
    decreases s.len(),
{
    if space_at_end(s) > 0 {
        trim_end_spec(s.take(s.len() - space_at_end(s)))
    } else {
        s
    }
}

/// `s` without the white space around it.
pub open spec fn trim_spec(s: Seq<u8>) -> Seq<u8> {
    trim_end_spec(trim_start_spec(s))
}

fn is_wide_space(a: u8, b: u8, c: u8) -> (wide: bool)
    ensures
        wide == wide_space(a, b, c),
{
    (a == 0xE1 && b == 0x9A && c == 0x80) || (a == 0xE2 && b == 0x80 && ((0x80 <= c && c <= 0x8A)
        || c == 0xA8 || c == 0xA9 || c == 0xAF)) || (a == 0xE2 && b == 0x81 && c == 0x9F) || (a
        == 0xE3 && b == 0x80 && c == 0x80)
}

fn leading_space(s: &[u8]) -> (n: usize)
    ensures
        n == space_at_start(s@),
        n <= s@.len(),
{
    let len = s.len();
    if len >= 1 && ((9 <= s[0] && s[0] <= 13) || s[0] == 32) {
        1
    } else if len >= 2 && s[0] == 0xC2 && (s[1] == 0x85 || s[1] == 0xA0) {
        2
    } else if len >= 3 && is_wide_space(s[0], s[1], s[2]) {
        3
    } else {
        0
    }
}

fn trailing_space(s: &[u8]) -> (n: usize)
    ensures
        n == space_at_end(s@),
        n <= s@.len(),
{
    let len = s.len();
    if len >= 1 && ((9 <= s[len - 1] && s[len - 1] <= 13) || s[len - 1] == 32) {
        1
    } else if len >= 2 && s[len - 2] == 0xC2 && (s[len - 1] == 0x85 || s[len - 1] == 0xA0) {
        2
    } else if len >= 3 && is_wide_space(s[len - 3], s[len - 2], s[len - 1]) {
        3
    } else {
        0
    }
}

/// Cuts the white space off both ends.
pub fn trim<'a>(s: &'a [u8]) -> (cut: &'a [u8])
    ensures
        cut@ == trim_spec(s@),
{
    let mut cut: &[u8] = s;
    loop
        invariant
            trim_start_spec(cut@) == trim_start_spec(s@),
        ensures
            cut@ == trim_start_spec(s@),
        decreases cut@.len(),
    {
        let n = leading_space(cut);
        if n == 0 {
            break;
        }
        cut = slice_subrange(cut, n, cut.len());
    }
    let ghost front = cut@;
    loop
        invariant
            trim_end_spec(cut@) == trim_end_spec(front),
        ensures
            cut@ == trim_end_spec(front),
        decreases cut@.len(),
    {
        let n = trailing_space(cut);
        if n == 0 {
            break;
        }
        cut = slice_subrange(cut, 0, cut.len() - n);
    }
    cut
}

/// Whether `needle` stands in `hay` at position `i`.
pub open spec fn occurs_at(hay: Seq<u8>, needle: Seq<u8>, i: int) -> bool {
    0 <= i && i + needle.len() <= hay.len() && hay.subrange(i, i + needle.len()) == needle
}

/// The first position at or after `from` where `needle` stands in `hay`.
pub open spec fn find_from(hay: Seq<u8>, needle: Seq<u8>, from: int) -> Option<int>
    decreases hay.len() + 1 - from,
{
    if from < 0 || from + needle.len() > hay.len() {
        None
    } else if occurs_at(hay, needle, from) {
        Some(from)
    } else {
        find_from(hay, needle, from + 1)
    }
}

/// The first position where `needle` stands in `hay`.
pub open spec fn find_spec(hay: Seq<u8>, needle: Seq<u8>) -> Option<int> {
    find_from(hay, needle, 0)
}

/// `find_from` answers with the first occurrence at or after `from`, and
/// with `None` only where there is none.
pub proof fn lemma_find_is_first(hay: Seq<u8>, needle: Seq<u8>, from: int)
    requires
        0 <= from,
    ensures
        match find_from(hay, needle, from) {
            Some(i) => from <= i && occurs_at(hay, needle, i) && forall|j: int|
                from <= j < i ==> !occurs_at(hay, needle, j),
            None => forall|j: int| from <= j ==> !occurs_at(hay, needle, j),
        },
    decreases hay.len() + 1 - from,
{
    if from + needle.len() <= hay.len() && !occurs_at(hay, needle, from) {
        lemma_find_is_first(hay, needle, from + 1);
    }
}

/// Whether two byte strings are the same.
pub fn bytes_eq(a: &[u8], b: &[u8]) -> (same: bool)
    ensures
        same == (a@ == b@),
{
    if a.len() != b.len() {
        return false;
    }
    let mut i: usize = 0;
    while i < a.len()
        invariant
            0 <= i <= a@.len(),
            a@.len() == b@.len(),
            forall|k: int| 0 <= k < i ==> a@[k] == b@[k],
        decreases a.len() - i,
    {
        if a[i] != b[i] {
            return false;
        }
        i = i + 1;
    }
    assert(a@ =~= b@);
    true
}

/// The first position where `needle` stands in `hay`.
pub fn find(hay: &[u8], needle: &[u8]) -> (at: Option<usize>)
    ensures
        match at {
            Some(i) => find_spec(hay@, needle@) == Some(i as int) && i + needle@.len() <= hay@.len(),
            None => find_spec(hay@, needle@).is_none(),
        },
{
    if needle.len() > hay.len() {
        return None;
    }
    if needle.len() == 0 {
        assert(hay@.subrange(0, 0) =~= needle@);
        return Some(0);
    }
    let last: usize = hay.len() - needle.len();
    let mut i: usize = 0;
    while i <= last
        invariant
            0 <= i <= last + 1,
            last + needle@.len() == hay@.len(),
            hay@.len() <= usize::MAX,
            needle@.len() > 0,
            find_spec(hay@, needle@) == find_from(hay@, needle@, i as int),
        decreases last + 1 - i,
    {
        if bytes_eq(slice_subrange(hay, i, i + needle.len()), needle) {
            return Some(i);
        }
        i = i + 1;
    }
    None
}

/// Position of the first byte `b` in `s`, the length of `s` where it holds
/// none.
pub open spec fn byte_index(s: Seq<u8>, b: u8) -> nat
    decreases s.len(),
{
    if s.len() == 0 || s[0] == b {
        0
    } else {
        1 + byte_index(s.skip(1), b)
    }
}

/// `byte_index` names the first `b`, or the end where there is none.
pub proof fn lemma_byte_index(s: Seq<u8>, b: u8)
    ensures
        byte_index(s, b) <= s.len(),
        byte_index(s, b) < s.len() ==> s[byte_index(s, b) as int] == b,
        forall|k: int| 0 <= k < byte_index(s, b) ==> s[k] != b,
    decreases s.len(),
{
    if s.len() > 0 && s[0] != b {
        lemma_byte_index(s.skip(1), b);
        assert forall|k: int| 0 <= k < byte_index(s, b) implies s[k] != b by {
            if k > 0 {
                assert(s.skip(1)[k - 1] == s[k]);
            }
        }
    }
}

pub fn find_byte(s: &[u8], b: u8) -> (at: usize)
    ensures
        at == byte_index(s@, b),
        at <= s@.len(),
{
    let mut i: usize = 0;
    proof {
        lemma_byte_index(s@, b);
    }
    while i < s.len() && s[i] != b
        invariant
            0 <= i <= s@.len(),
            i <= byte_index(s@, b) <= s@.len(),
            byte_index(s@, b) < s@.len() ==> s@[byte_index(s@, b) as int] == b,
            forall|k: int| 0 <= k < byte_index(s@, b) ==> s@[k] != b,
        decreases s.len() - i,
    {
        i = i + 1;
    }
    i
}

/// Whether `a` and `b` are the same up to the case of ASCII letters.
pub open spec fn same_ignoring_case(a: Seq<u8>, b: Seq<u8>) -> bool {
    a.len() == b.len() && forall|i: int| 0 <= i < a.len() ==> lower_spec(a[i]) == lower_spec(b[i])
}

/// Whether two byte strings are the same up to the case of ASCII letters.
pub fn eq_ignore_case(a: &[u8], b: &[u8]) -> (same: bool)
    ensures
        same == same_ignoring_case(a@, b@),
{
    if a.len() != b.len() {
        return false;
    }
    let mut i: usize = 0;
    while i < a.len()
        invariant
            0 <= i <= a@.len(),
            a@.len() == b@.len(),
            forall|k: int| 0 <= k < i ==> lower_spec(a@[k]) == lower_spec(b@[k]),
        decreases a.len() - i,
    {
        if ascii_lower(a[i]) != ascii_lower(b[i]) {
            return false;
        }
        i = i + 1;
    }
    true
}

/// `s` without the occurrences of `pattern`, taken from left to right and
/// never overlapping. The empty pattern removes nothing.
pub open spec fn remove_all_spec(s: Seq<u8>, pattern: Seq<u8>) -> Seq<u8>
    decreases s.len(),
{
    if pattern.len() == 0 || s.len() < pattern.len() {
        s
    } else if s.take(pattern.len() as int) == pattern {
        remove_all_spec(s.skip(pattern.len() as int), pattern)
    } else {
        seq![s[0]] + remove_all_spec(s.skip(1), pattern)
    }
}

/// Removes every occurrence of `pattern` from `s`.
pub fn remove_all(s: &[u8], pattern: &[u8]) -> (cleaned: Vec<u8>)
    ensures
        cleaned@ == remove_all_spec(s@, pattern@),
{
    let mut cleaned: Vec<u8> = Vec::new();
    let mut i: usize = 0;
    let n = pattern.len();
    assert(s@.skip(0) =~= s@);
    while i < s.len() && n > 0 && s.len() - i >= n
        invariant
            0 <= i <= s@.len(),
            n == pattern@.len(),
            remove_all_spec(s@, pattern@) == cleaned@ + remove_all_spec(s@.skip(i as int), pattern@),
        decreases s.len() - i,
    {
        let ghost rest = s@.skip(i as int);
        if bytes_eq(slice_subrange(s, i, i + n), pattern) {
            assert(rest.take(n as int) =~= s@.subrange(i as int, i + n));
            assert(rest.skip(n as int) =~= s@.skip(i + n));
            i = i + n;
        } else {
            assert(rest.take(n as int) =~= s@.subrange(i as int, i + n));
            assert(rest.skip(1) =~= s@.skip(i + 1));
            let ghost before = cleaned@;
            cleaned.push(s[i]);
            assert(cleaned@ + remove_all_spec(s@.skip(i + 1), pattern@) =~= before + (seq![rest[0]]
                + remove_all_spec(rest.skip(1), pattern@)));
            i = i + 1;
        }
    }
    let ghost done = cleaned@;
    let ghost tail = s@.skip(i as int);
    assert(remove_all_spec(tail, pattern@) == tail);
    while i < s.len()
        invariant
            0 <= i <= s@.len(),
            cleaned@ + s@.skip(i as int) == done + tail,
        decreases s.len() - i,
    {
        let ghost before = cleaned@;
        cleaned.push(s[i]);
        assert(cleaned@ + s@.skip(i + 1) =~= before + s@.skip(i as int));
        i = i + 1;
    }
    assert(cleaned@ + s@.skip(i as int) =~= cleaned@);
    cleaned
}

/// Whether a byte string is not empty and starts and ends with an ASCII
/// byte.
pub open spec fn ascii_ended(p: Seq<u8>) -> bool {
    p.len() > 0 && p[0] < 0x80 && p.last() < 0x80
}

pub proof fn lemma_ascii_literal(s: &str)
    requires
        is_ascii(s),
        s@.len() > 0,
    ensures
        ascii_ended(s.spec_bytes()),
{
    vstd::utf8::is_ascii_chars_encode_utf8(s@);
    let b = s.spec_bytes();
    assert(s@[0] as u8 == b[0]);
    assert(s@[s@.len() - 1] as u8 == b[b.len() - 1]);
}

/// A text without the white space it starts with is a text.
proof fn lemma_trim_start_valid(s: Seq<u8>)
    requires
        valid_utf8(s),
    ensures
        valid_utf8(trim_start_spec(s)),
    decreases s.len(),
{
    let n = space_at_start(s) as int;
    if n > 0 {
        lemma_rest_valid(s);
        assert(length_of_first_scalar(s) == n);
        assert(s.skip(n) =~= s.subrange(n, s.len() as int));
        lemma_trim_start_valid(s.skip(n));
    }
}

/// A text without the white space it ends with is a text.
proof fn lemma_trim_end_valid(s: Seq<u8>)
    requires
        valid_utf8(s),
    ensures
        valid_utf8(trim_end_spec(s)),
    decreases s.len(),
{
    let n = space_at_end(s) as int;
    if n > 0 {
        let at = s.len() - n;
        assert(!is_continuation_byte(s[at]));
        lemma_start_cuttable(s);
        lemma_slice_valid(s, 0, at);
        assert(s.take(at) =~= s.subrange(0, at));
        lemma_trim_end_valid(s.take(at));
    }
}

pub proof fn lemma_trim_valid(s: Seq<u8>)
    requires
        valid_utf8(s),
    ensures
        valid_utf8(trim_spec(s)),
{
    lemma_trim_start_valid(s);
    lemma_trim_end_valid(trim_start_spec(s));
}

/// A text cut at its first ASCII byte `b` gives two texts: what stands
/// before the byte and what stands behind it.
pub proof fn lemma_split_valid(s: Seq<u8>, b: u8)
    requires
        valid_utf8(s),
        b < 0x80,
    ensures
        valid_utf8(s.take(byte_index(s, b) as int)),
        byte_index(s, b) < s.len() ==> valid_utf8(s.skip(byte_index(s, b) as int + 1)),
{
    lemma_byte_index(s, b);
    let i = byte_index(s, b) as int;
    lemma_start_cuttable(s);
    if i < s.len() {
        lemma_cut_after_ascii(s, i);
        lemma_slice_valid(s, i + 1, s.len() as int);
        assert(s.skip(i + 1) =~= s.subrange(i + 1, s.len() as int));
    }
    lemma_slice_valid(s, 0, i);
    assert(s.take(i) =~= s.subrange(0, i));
}

proof fn lemma_remove_step(s: Seq<u8>, pattern: Seq<u8>)
    requires
        pattern.len() > 0,
        s.len() > 0,
        !(s.len() >= pattern.len() && s.take(pattern.len() as int) == pattern),
    ensures
        remove_all_spec(s, pattern) == seq![s[0]] + remove_all_spec(s.skip(1), pattern),
{
    if s.len() < pattern.len() {
        assert(seq![s[0]] + s.skip(1) =~= s);
    }
}

proof fn lemma_remove_run(s: Seq<u8>, pattern: Seq<u8>, k: int)
    requires
        pattern.len() > 0,
        pattern[0] < 0x80,
        1 <= k <= s.len(),
        !(s.len() >= pattern.len() && s.take(pattern.len() as int) == pattern),
        forall|j: int| 1 <= j < k ==> is_continuation_byte(#[trigger] s[j]),
    ensures
        remove_all_spec(s, pattern) == s.take(k) + remove_all_spec(s.skip(k), pattern),
    decreases k,
{
    if k == 1 {
        lemma_remove_step(s, pattern);
        assert(s.take(1) =~= seq![s[0]]);
    } else {
        lemma_remove_run(s, pattern, k - 1);
        let t = s.skip(k - 1);
        assert(t[0] == s[k - 1]);
        assert(is_continuation_byte(s[k - 1]));
        if t.len() >= pattern.len() && t.take(pattern.len() as int) == pattern {
            assert(t.take(pattern.len() as int)[0] == t[0]);
        }
        lemma_remove_step(t, pattern);
        assert(t.skip(1) =~= s.skip(k));
        assert(s.take(k - 1) + (seq![t[0]] + remove_all_spec(s.skip(k), pattern)) =~= s.take(k)
            + remove_all_spec(s.skip(k), pattern));
    }
}

/// A text from which an ASCII pattern was removed is a text.
pub proof fn lemma_remove_valid(s: Seq<u8>, pattern: Seq<u8>)
    requires
        valid_utf8(s),
        ascii_ended(pattern),
    ensures
        valid_utf8(remove_all_spec(s, pattern)),
    decreases s.len(),
{
    let n = pattern.len() as int;
    if s.len() < n {
    } else if s.take(n) == pattern {
        assert(s.take(n)[n - 1] == s[n - 1]);
        lemma_cut_after_ascii(s, n - 1);
        lemma_slice_valid(s, n, s.len() as int);
        assert(s.skip(n) =~= s.subrange(n, s.len() as int));
        lemma_remove_valid(s.skip(n), pattern);
    } else {
        lemma_rest_valid(s);
        let k = length_of_first_scalar(s);
        lemma_remove_run(s, pattern, k);
        assert(s.take(k) =~= s.subrange(0, k));
        assert(s.skip(k) =~= s.subrange(k, s.len() as int));
        lemma_remove_valid(s.skip(k), pattern);
        lemma_concat_valid(s.take(k), remove_all_spec(s.skip(k), pattern));
    }
}

} // verus!
