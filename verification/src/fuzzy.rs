//! Case-insensitive subsequence matching, used to filter a list by what the
//! user has typed.

use vstd::prelude::*;
use vstd::string::*;

verus! {

/// ASCII lower case of a byte: `A`..`Z` move to `a`..`z`, all else stays.
pub open spec fn lower_spec(b: u8) -> u8 {
    if 65 <= b <= 90 {
        (b + 32) as u8
    } else {
        b
    }
}

/// `at` places the bytes of `pattern`, in order, on positions of `text` that
/// hold the same byte up to ASCII case.
pub open spec fn embeds(at: Seq<int>, text: Seq<u8>, pattern: Seq<u8>) -> bool {
    &&& at.len() == pattern.len()
    &&& forall|j: int|
        0 <= j < at.len() ==> 0 <= #[trigger] at[j] < text.len() && lower_spec(text[at[j]])
            == lower_spec(pattern[j])
    &&& forall|j: int, k: int| 0 <= j < k < at.len() ==> #[trigger] at[j] < #[trigger] at[k]
}

/// `pattern` is a subsequence of `text`, ASCII case ignored.
pub open spec fn fuzzy_spec(text: Seq<u8>, pattern: Seq<u8>) -> bool {
    exists|at: Seq<int>| embeds(at, text, pattern)
}

/// ASCII lower case of a byte.
pub fn ascii_lower(b: u8) -> (l: u8)
    ensures
        l == lower_spec(b),
{
    if 65 <= b && b <= 90 {
        b + 32
    } else {
        b
    }
}

proof fn lemma_embeds_prefix(at: Seq<int>, text: Seq<u8>, pattern: Seq<u8>, j: int)
    requires
        0 <= j <= pattern.len(),
        embeds(at, text, pattern),
    ensures
        embeds(at.take(j), text, pattern.take(j)),
{
    let a = at.take(j);
    assert forall|x: int| 0 <= x < a.len() implies 0 <= #[trigger] a[x] < text.len() && lower_spec(
        text[a[x]],
    ) == lower_spec(pattern.take(j)[x]) by {
        assert(a[x] == at[x]);
    }
    assert forall|x: int, y: int| 0 <= x < y < a.len() implies #[trigger] a[x] < #[trigger] a[y] by {
        assert(a[x] == at[x]);
        assert(a[y] == at[y]);
    }
}

/// Whether the bytes of `pattern` occur in `text` in order, not necessarily
/// side by side, ASCII case ignored. The empty pattern occurs in every text.
pub fn fuzzy_bytes(text: &[u8], pattern: &[u8]) -> (found: bool)
    ensures
        found == fuzzy_spec(text@, pattern@),
{
    let mut i: usize = 0;
    let mut j: usize = 0;
    let ghost mut at: Seq<int> = Seq::empty();
    proof {
        assert(pattern@.take(0) =~= Seq::<u8>::empty());
    }
    while j < pattern.len()
        invariant
            0 <= i <= text.len(),
            0 <= j <= pattern.len(),
            j == 0 ==> i == 0,
            j > 0 ==> at[j - 1] < i,
            embeds(at, text@, pattern@.take(j as int)),
            forall|e: Seq<int>| #[trigger]
                embeds(e, text@, pattern@.take(j as int)) && j > 0 ==> e[j - 1] + 1 >= i,
        decreases pattern.len() - j,
    {
        let want: u8 = ascii_lower(pattern[j]);
        let ghost start: int = i as int;
        let mut found: bool = false;
        assert(forall|e: Seq<int>| #[trigger]
            embeds(e, text@, pattern@.take(j as int)) && j > 0 ==> e[j - 1] + 1 >= start);
        while i < text.len() && !found
            invariant
                0 <= start <= i <= text.len(),
                j < pattern.len(),
                want == lower_spec(pattern@[j as int]),
                forall|k: int|
                    start <= k < i - (if found { 1int } else { 0int }) ==> lower_spec(
                        #[trigger] text@[k],
                    ) != want,
                found ==> i > start && lower_spec(text@[i - 1]) == want,
            decreases text.len() - i,
        {
            if ascii_lower(text[i]) == want {
                found = true;
            }
            i = i + 1;
        }
        if !found {
            proof {
                assert forall|e: Seq<int>| !embeds(e, text@, pattern@) by {
                    if embeds(e, text@, pattern@) {
                        lemma_embeds_prefix(e, text@, pattern@, j as int);
                        let p = e.take(j as int);
                        assert(embeds(p, text@, pattern@.take(j as int)));
                        if j > 0 {
                            assert(p[j - 1] == e[j - 1]);
                            assert(e[j - 1] < e[j as int]);
                        }
                        assert(start <= e[j as int] < text@.len());
                        assert(lower_spec(text@[e[j as int]]) == want);
                    }
                }
            }
            return false;
        }
        proof {
            let longer = at.push(i - 1);
            let next = pattern@.take(j + 1);
            assert forall|x: int| 0 <= x < longer.len() implies 0 <= #[trigger] longer[x]
                < text@.len() && lower_spec(text@[longer[x]]) == lower_spec(next[x]) by {
                if x < j {
                    assert(longer[x] == at[x]);
                    assert(pattern@.take(j as int)[x] == next[x]);
                }
            }
            assert forall|x: int, y: int| 0 <= x < y < longer.len() implies #[trigger] longer[x]
                < #[trigger] longer[y] by {
                assert(longer[x] == at[x]);
                if y < j {
                    assert(longer[y] == at[y]);
                } else {
                    assert(at[j - 1] < start);
                    assert(at[x] <= at[j - 1]);
                }
            }
            assert forall|e: Seq<int>| #[trigger] embeds(e, text@, next) implies e[j as int] + 1
                >= i by {
                lemma_embeds_prefix(e, text@, next, j as int);
                let p = e.take(j as int);
                assert(next.take(j as int) =~= pattern@.take(j as int));
                assert(embeds(p, text@, pattern@.take(j as int)));
                if j > 0 {
                    assert(p[j - 1] == e[j - 1]);
                    assert(e[j - 1] < e[j as int]);
                }
                assert(start <= e[j as int] < text@.len());
                assert(lower_spec(text@[e[j as int]]) == lower_spec(next[j as int]));
            }
            at = longer;
        }
        j = j + 1;
    }
    proof {
        assert(pattern@.take(j as int) =~= pattern@);
    }
    true
}

/// Whether `pattern` occurs in `s` as a subsequence of its bytes, ASCII case
/// ignored.
pub fn fuzzy(s: &str, pattern: &str) -> (found: bool)
    ensures
        found == fuzzy_spec(s.spec_bytes(), pattern.spec_bytes()),
{
    fuzzy_bytes(s.as_bytes(), pattern.as_bytes())
}

/// The empty pattern matches every text.
pub proof fn lemma_fuzzy_empty_pattern(text: Seq<u8>)
    ensures
        fuzzy_spec(text, Seq::<u8>::empty()),
{
    assert(embeds(Seq::<int>::empty(), text, Seq::<u8>::empty()));
}

/// A pattern longer than the text does not match it.
pub proof fn lemma_fuzzy_longer_pattern(text: Seq<u8>, pattern: Seq<u8>)
    requires
        pattern.len() > text.len(),
    ensures
        !fuzzy_spec(text, pattern),
{
    assert forall|at: Seq<int>| !embeds(at, text, pattern) by {
        if embeds(at, text, pattern) {
            lemma_embedding_spreads(at, text, pattern, at.len() - 1);
        }
    }
}

proof fn lemma_embedding_spreads(at: Seq<int>, text: Seq<u8>, pattern: Seq<u8>, j: int)
    requires
        embeds(at, text, pattern),
        0 <= j < at.len(),
    ensures
        at[j] >= j,
    decreases j,
{
    if j > 0 {
        lemma_embedding_spreads(at, text, pattern, j - 1);
        assert(at[j - 1] < at[j]);
    }
}

/// Every text matches itself, whatever the case of its letters.
pub proof fn lemma_fuzzy_reflexive(text: Seq<u8>)
    ensures
        fuzzy_spec(text, text),
{
    let at = Seq::new(text.len(), |i: int| i);
    assert(embeds(at, text, text));
}

/// A text that matches a pattern matches every beginning of it: typing
/// more never brings back a text that was filtered out.
pub proof fn lemma_fuzzy_shorter_pattern(text: Seq<u8>, pattern: Seq<u8>, k: int)
    requires
        0 <= k <= pattern.len(),
        fuzzy_spec(text, pattern),
    ensures
        fuzzy_spec(text, pattern.take(k)),
{
    let at = choose|at: Seq<int>| embeds(at, text, pattern);
    lemma_embeds_prefix(at, text, pattern, k);
}

} // verus!
