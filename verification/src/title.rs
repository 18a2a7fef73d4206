//! What a finished title edit stores.
//!
//! An edited title with substance is kept as typed; one that is nothing
//! but whitespace falls back to the note's original title, and when that
//! is blank too, to a default.  Blankness is judged after Unicode
//! whitespace trimming.

use vstd::prelude::*;
use crate::utf8::is_utf8;

verus! {

/// The text that remains of `s` after leading and trailing whitespace is
/// removed.
pub uninterp spec fn trim_of(s: Seq<u8>) -> Seq<u8>;

/// Relies on str::trim: it removes leading and trailing Unicode
/// whitespace, and the result depends on the text alone.
#[verifier::external_body]
fn trim_bytes(s: &Vec<u8>) -> (r: Vec<u8>)
    requires
        is_utf8(s@),
    ensures
        r@ == trim_of(s@),
        r@.len() <= s@.len(),
{
    let t = core::str::from_utf8(s).unwrap();
    t.trim().as_bytes().to_vec()
}

/// The default title a note falls back to when nothing usable was typed
/// and it had none: `"Untitled Note"`.
pub open spec fn default_title() -> Seq<u8> {
    seq![
        0x55u8, 0x6Eu8, 0x74u8, 0x69u8, 0x74u8, 0x6Cu8, 0x65u8, 0x64u8, 0x20u8, 0x4Eu8, 0x6Fu8,
        0x74u8, 0x65u8,
    ]
}

/// Whether a title is blank: empty or nothing but whitespace.
pub fn title_is_blank(s: &Vec<u8>) -> (r: bool)
    requires
        is_utf8(s@),
    ensures
        r == (trim_of(s@).len() == 0),
{
    let t = trim_bytes(s);
    t.len() == 0
}

fn copy_bytes(s: &Vec<u8>) -> (r: Vec<u8>)
    ensures
        r@ == s@,
{
    let mut out: Vec<u8> = Vec::new();
    let mut i: usize = 0;
    while i < s.len()
        invariant
            i <= s@.len(),
            out@ =~= s@.take(i as int),
        decreases s@.len() - i,
    {
        out.push(s[i]);
        i = i + 1;
    }
    proof {
        assert(s@.take(s@.len() as int) =~= s@);
    }
    out
}

/// The title a finished title edit stores: the edited text when it has
/// substance, else the original title, else the default.
pub fn resolve_title(edited: &Vec<u8>, original: &Vec<u8>) -> (r: Vec<u8>)
    requires
        is_utf8(edited@),
        is_utf8(original@),
    ensures
        trim_of(edited@).len() != 0 ==> r@ == edited@,
        trim_of(edited@).len() == 0 && trim_of(original@).len() != 0 ==> r@ == original@,
        trim_of(edited@).len() == 0 && trim_of(original@).len() == 0 ==> r@ == default_title(),
{
    if title_is_blank(edited) {
        if title_is_blank(original) {
            let r: Vec<u8> = vec![
                0x55u8, 0x6Eu8, 0x74u8, 0x69u8, 0x74u8, 0x6Cu8, 0x65u8, 0x64u8, 0x20u8, 0x4Eu8,
                0x6Fu8, 0x74u8, 0x65u8,
            ];
            proof {
                assert(r@ =~= default_title());
            }
            r
        } else {
            copy_bytes(original)
        }
    } else {
        copy_bytes(edited)
    }
}

} // verus!
