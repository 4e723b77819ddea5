//! Rendering an individual as text for the progress report.

use vstd::prelude::*;
use vstd::utf8::{decode_utf8, valid_utf8};

verus! {

/// Relies on `String::from_utf8`: it returns the string whose characters are
/// the UTF-8 decoding of the bytes, and rejects exactly the byte sequences
/// that are not valid UTF-8.
#[verifier::external_body]
fn utf8_to_string(bytes: Vec<u8>) -> (r: Option<String>)
    ensures
        r is Some <==> valid_utf8(bytes@),
        r is Some ==> r.unwrap()@ == decode_utf8(bytes@),
{
    String::from_utf8(bytes).ok()
}

/// The text form of a chromosome: its bytes decoded as UTF-8. Callers hand in
/// valid UTF-8 (in practice, symbols of an ASCII genome alphabet).
pub fn format(chromosome: &Vec<u8>) -> (r: String)
    requires
        valid_utf8(chromosome@),
    ensures
        r@ == decode_utf8(chromosome@),
{
    let bytes = copy_bytes(chromosome);
    let rendered = utf8_to_string(bytes);
    match rendered {
        Some(s) => s,
        None => unreached(),
    }
}

/// A by-value copy of a byte sequence.
pub(crate) fn copy_bytes(v: &Vec<u8>) -> (r: Vec<u8>)
    ensures
        r@ == v@,
{
    let mut r: Vec<u8> = Vec::new();
    let mut i: usize = 0;
    while i < v.len()
        invariant
            i <= v@.len(),
            r@ == v@.take(i as int),
        decreases v@.len() - i,
    {
        r.push(v[i]);
        proof {
            assert(r@ =~= v@.take(i + 1 as int));
        }
        i = i + 1;
    }
    proof {
        assert(v@.take(v@.len() as int) =~= v@);
    }
    r
}

} // verus!
