//! Text decoding for the strings stored in a model file.
use vstd::prelude::*;
use vstd::utf8::{decode_utf8, valid_utf8};

verus! {

/// Relies on `String::from_utf8`: it succeeds exactly when the bytes are valid
/// UTF-8, and the text it returns is what those bytes encode.
#[verifier::external_body]
fn string_from_utf8(bytes: Vec<u8>) -> (r: Option<String>)
    ensures
        r is Some <==> valid_utf8(bytes@),
        r matches Some(s) ==> s@ == decode_utf8(bytes@),
{
    String::from_utf8(bytes).ok()
}

/// The position of the first NUL byte of `b`, or its length when it has none.
pub open spec fn nul_end(b: Seq<u8>) -> int
    decreases b.len(),
{
    if b.len() == 0 {
        0
    } else if b[0] == 0 {
        0
    } else {
        1 + nul_end(b.subrange(1, b.len() as int))
    }
}

proof fn lemma_nul_end(b: Seq<u8>, i: int)
    requires
        0 <= i <= b.len(),
        forall|k: int| 0 <= k < i ==> b[k] != 0,
        i == b.len() || b[i] == 0,
    ensures
        nul_end(b) == i,
    decreases i,
{
    if i > 0 {
        let t = b.subrange(1, b.len() as int);
        assert forall|k: int| 0 <= k < i - 1 implies t[k] != 0 by {
            assert(t[k] == b[k + 1]);
        }
        if i < b.len() {
            assert(t[i - 1] == b[i]);
        }
        lemma_nul_end(t, i - 1);
    }
}

/// The bytes of `b` before its first NUL, decoded as UTF-8. Fails when those
/// bytes are not valid UTF-8.
pub fn text_before_nul(b: &[u8]) -> (r: Option<String>)
    ensures
        r is Some <==> valid_utf8(b@.subrange(0, nul_end(b@))),
        r matches Some(s) ==> s@ == decode_utf8(b@.subrange(0, nul_end(b@))),
{
    let len = b.len();
    let mut end: usize = 0;
    while end < len && b[end] != 0
        invariant
            len == b@.len(),
            end <= len,
            forall|k: int| 0 <= k < end ==> b@[k] != 0,
        decreases len - end,
    {
        end = end + 1;
    }
    proof {
        lemma_nul_end(b@, end as int);
    }
    let mut out: Vec<u8> = Vec::new();
    let mut i: usize = 0;
    while i < end
        invariant
            len == b@.len(),
            i <= end <= len,
            out@ == b@.subrange(0, i as int),
        decreases end - i,
    {
        out.push(b[i]);
        assert(out@ =~= b@.subrange(0, i + 1));
        i = i + 1;
    }
    string_from_utf8(out)
}

} // verus!
