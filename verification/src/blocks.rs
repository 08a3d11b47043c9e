//! What a row of the list says about an entry.

use vstd::prelude::*;
use vstd::slice::*;
use vstd::string::*;
use vstd::utf8::{encode_utf8, valid_utf8};
use crate::config::{AppEntry, EntryText};
use crate::text::{
    cuttable, lemma_ascii_byte_valid, lemma_concat_valid, lemma_cut_after_ascii,
    lemma_slice_valid, lemma_start_cuttable, lemma_valid_prefix_is_cut, text_from_utf8,
};

verus! {

/// Longest description, in bytes, that a row shows in full.
pub const DESCRIPTION_LIMIT: usize = 60;

/// Whether a row names the generic name beside the name: only where there
/// is one and it says something else.
pub open spec fn shows_generic(entry: EntryText) -> bool {
    match entry.genc {
        Some(g) => g != entry.name,
        None => false,
    }
}

/// The generic name to show beside the entry's name, if any.
pub fn generic_label(entry: &AppEntry) -> (label: Option<&String>)
    ensures
        match label {
            Some(g) => shows_generic(entry@) && Some(g@) == entry@.genc,
            None => !shows_generic(entry@),
        },
{
    match &entry.genc {
        Some(g) => {
            if *g != entry.name {
                Some(g)
            } else {
                None
            }
        },
        None => None,
    }
}

/// The bytes a row shows of a description: all of it up to the limit, else
/// its first bytes up to the limit followed by three dots.
pub open spec fn shortened(description: Seq<u8>) -> Seq<u8> {
    if description.len() > DESCRIPTION_LIMIT {
        description.take(DESCRIPTION_LIMIT as int) + seq![46u8, 46u8, 46u8]
    } else {
        description
    }
}

/// The description as a row shows it. A description within the limit is
/// shown as it is; a longer one is cut at the limit, and the answer is
/// `None` exactly where the cut would fall inside a character.
pub fn short_description(description: &str) -> (short: Option<String>)
    ensures
        short.is_some() <==> description.spec_bytes().len() <= DESCRIPTION_LIMIT || cuttable(
            description.spec_bytes(),
            DESCRIPTION_LIMIT as int,
        ),
        match short {
            Some(s) => encode_utf8(s@) == shortened(description.spec_bytes()),
            None => true,
        },
{
    let bytes = description.as_bytes();
    proof {
        vstd::utf8::encode_utf8_valid_utf8(description@);
    }
    if bytes.len() > DESCRIPTION_LIMIT {
        let mut cut = slice_to_vec(slice_subrange(bytes, 0, DESCRIPTION_LIMIT));
        cut.push(46u8);
        cut.push(46u8);
        cut.push(46u8);
        proof {
            let limit = DESCRIPTION_LIMIT as int;
            let head = bytes@.subrange(0, limit);
            let dots = seq![46u8, 46u8, 46u8];
            assert(cut@ =~= shortened(bytes@));
            assert(cut@ =~= head + dots);
            if cuttable(bytes@, limit) {
                lemma_start_cuttable(bytes@);
                lemma_slice_valid(bytes@, 0, limit);
                lemma_ascii_byte_valid(46u8);
                lemma_concat_valid(seq![46u8], seq![46u8]);
                lemma_concat_valid(seq![46u8] + seq![46u8], seq![46u8]);
                assert(seq![46u8] + seq![46u8] + seq![46u8] =~= dots);
                lemma_concat_valid(head, dots);
            }
            if valid_utf8(cut@) {
                lemma_cut_after_ascii(cut@, limit);
                lemma_start_cuttable(cut@);
                lemma_slice_valid(cut@, 0, limit);
                assert(cut@.subrange(0, limit) =~= head);
                lemma_valid_prefix_is_cut(bytes@, limit);
            }
        }
        text_from_utf8(cut)
    } else {
        Some(description.to_owned())
    }
}

} // verus!
