//! Facts about UTF-8 that cutting a text at ASCII bytes rests on, and the
//! way from bytes back to text.

use vstd::prelude::*;
use vstd::utf8::*;

verus! {

/// `String::from_utf8`: the text whose UTF-8 encoding is `bytes`, `None`
/// exactly where `bytes` is no UTF-8 encoding.
#[verifier::external_body]
pub(crate) fn text_from_utf8(bytes: Vec<u8>) -> (text: Option<String>)
    ensures
        text.is_some() <==> valid_utf8(bytes@),
        match text {
            Some(t) => encode_utf8(t@) == bytes@,
            None => true,
        },
{
    String::from_utf8(bytes).ok()
}

/// Whether position `i` of `b` is its end or holds a byte that starts a
/// character.
pub open spec fn cuttable(b: Seq<u8>, i: int) -> bool {
    i == b.len() || (0 <= i < b.len() && !is_continuation_byte(b[i]))
}

/// A text cut between two positions that start characters is a text.
pub proof fn lemma_slice_valid(b: Seq<u8>, i: int, j: int)
    requires
        valid_utf8(b),
        0 <= i <= j <= b.len(),
        cuttable(b, i),
        cuttable(b, j),
    ensures
        valid_utf8(b.subrange(i, j)),
{
    if j == b.len() {
        is_char_boundary_start_end_of_seq(b);
    } else {
        is_char_boundary_iff_not_is_continuation_byte(b, j);
    }
    valid_utf8_split(b, j);
    let p = b.subrange(0, j);
    if i == j {
        is_char_boundary_start_end_of_seq(p);
    } else {
        assert(p[i] == b[i]);
        is_char_boundary_iff_not_is_continuation_byte(p, i);
    }
    valid_utf8_split(p, i);
    assert(p.subrange(i, j) =~= b.subrange(i, j));
}

/// A text that is not empty starts with a byte that starts a character.
pub proof fn lemma_first_byte_leads(u: Seq<u8>)
    requires
        valid_utf8(u),
        u.len() > 0,
    ensures
        !is_continuation_byte(u[0]),
{
    reveal_with_fuel(valid_utf8, 2);
}

/// A text starts where a character starts.
pub proof fn lemma_start_cuttable(u: Seq<u8>)
    requires
        valid_utf8(u),
    ensures
        cuttable(u, 0),
{
    if u.len() > 0 {
        lemma_first_byte_leads(u);
    }
}

/// What follows the first character of a text is a text.
pub proof fn lemma_rest_valid(u: Seq<u8>)
    requires
        valid_utf8(u),
        u.len() > 0,
    ensures
        1 <= length_of_first_scalar(u) <= u.len(),
        valid_utf8(u.subrange(length_of_first_scalar(u), u.len() as int)),
        valid_utf8(u.subrange(0, length_of_first_scalar(u))),
        cuttable(u, length_of_first_scalar(u)),
        forall|k: int| 1 <= k < length_of_first_scalar(u) ==> is_continuation_byte(#[trigger] u[k]),
{
    reveal_with_fuel(valid_utf8, 2);
    let n = length_of_first_scalar(u);
    let rest = u.subrange(n, u.len() as int);
    if rest.len() > 0 {
        lemma_first_byte_leads(rest);
        assert(rest[0] == u[n]);
    }
}

/// In a text, the position behind an ASCII byte starts a character.
pub proof fn lemma_cut_after_ascii(b: Seq<u8>, i: int)
    requires
        valid_utf8(b),
        0 <= i < b.len(),
        b[i] < 0x80,
    ensures
        cuttable(b, i + 1),
        cuttable(b, i),
{
    lemma_slice_valid(b, i, b.len() as int);
    let t = b.subrange(i, b.len() as int);
    lemma_rest_valid(t);
    assert(t[0] == b[i]);
    assert(length_of_first_scalar(t) == 1);
    if i + 1 < b.len() {
        assert(t[1] == b[i + 1]);
    }
}

/// Two texts written one after the other are a text.
pub proof fn lemma_concat_valid(a: Seq<u8>, b: Seq<u8>)
    requires
        valid_utf8(a),
        valid_utf8(b),
    ensures
        valid_utf8(a + b),
{
    valid_utf8_concat(a, b);
}

/// A single ASCII byte is a text.
pub proof fn lemma_ascii_byte_valid(b: u8)
    requires
        b < 0x80,
    ensures
        valid_utf8(seq![b]),
{
    reveal_with_fuel(valid_utf8, 2);
    let s = seq![b];
    assert(s.subrange(1, 1) =~= Seq::<u8>::empty());
    assert(valid_first_scalar(s));
    assert(pop_first_scalar(s) =~= Seq::<u8>::empty());
}

/// A text can be cut at a position so that its first part is a text only
/// where a character starts at that position.
pub proof fn lemma_valid_prefix_is_cut(b: Seq<u8>, n: int)
    requires
        valid_utf8(b),
        0 <= n <= b.len(),
        valid_utf8(b.subrange(0, n)),
    ensures
        cuttable(b, n),
    decreases n,
{
    if n == 0 {
        lemma_start_cuttable(b);
    } else {
        let p = b.subrange(0, n);
        lemma_rest_valid(b);
        lemma_rest_valid(p);
        assert(p[0] == b[0]);
        let k = length_of_first_scalar(b);
        assert(length_of_first_scalar(p) == k);
        let rest = b.subrange(k, b.len() as int);
        assert(rest.subrange(0, n - k) =~= p.subrange(k, p.len() as int));
        lemma_valid_prefix_is_cut(rest, n - k);
        if n < b.len() {
            assert(rest[n - k] == b[n]);
        }
    }
}

} // verus!
