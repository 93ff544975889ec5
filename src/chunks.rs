//! The chunk sequence of a model file, walked by the chunks' own length fields,
//! and the checks on it that need no decoding: well-formed headers, chunks that
//! may appear once, the shield-tree rules and the presence of `HDR2`.
use vstd::prelude::*;
use crate::bytes::{i32_at, u32_at, u32_at_pos};
use crate::model::{ParseError, Version};
use crate::pof::{
    recognized, ACEN, DOCK, EYE, FUEL, GLOW, GPNT, HDR2, INSG, MPNT, PATH, PINF, SHLD, SLC2, SLDC, SPCL, TXTR,
};

verus! {

/// The length field of the chunk at `c`.
pub open spec fn chunk_len(b: Seq<u8>, c: int) -> int {
    i32_at(b, c + 4) as int
}

/// Where the chunk after the one at `c` starts: its payload's end, or the end
/// of the input when the payload reaches past it.
pub open spec fn next_chunk(b: Seq<u8>, c: int) -> int {
    if c + 8 + chunk_len(b, c) > b.len() {
        b.len() as int
    } else {
        c + 8 + chunk_len(b, c)
    }
}

/// The first fault of the chunk sequence from `c`, if any: a header cut short
/// (`Io`), a negative length (`MalformedChunk`), or a recognized chunk whose
/// payload reaches past the end (`Io`). The sequence ends normally where fewer
/// than four bytes are left.
pub open spec fn walk_error(b: Seq<u8>, c: int) -> Option<ParseError>
    decreases b.len() - c,
{
    if c < 0 || c + 4 > b.len() {
        None
    } else if c + 8 > b.len() {
        Some(ParseError::Io)
    } else if chunk_len(b, c) < 0 {
        Some(ParseError::MalformedChunk)
    } else if recognized(u32_at(b, c)) && c + 8 + chunk_len(b, c) > b.len() {
        Some(ParseError::Io)
    } else {
        walk_error(b, next_chunk(b, c))
    }
}

/// The start of every chunk from `c` on, in order.
pub open spec fn walk(b: Seq<u8>, c: int) -> Seq<int>
    decreases b.len() - c,
{
    if c < 0 || c + 8 > b.len() || chunk_len(b, c) < 0 {
        seq![]
    } else {
        seq![c] + walk(b, next_chunk(b, c))
    }
}

/// How many of the chunks starting at `w` have the id `id`.
pub open spec fn count_id(b: Seq<u8>, w: Seq<int>, id: u32) -> nat
    decreases w.len(),
{
    if w.len() == 0 {
        0
    } else {
        count_id(b, w.drop_last(), id) + if u32_at(b, w.last()) == id { 1nat } else { 0nat }
    }
}

/// Some chunk that may appear only once appears twice (`SLDC` and `SLC2` share one place).
pub open spec fn has_duplicate(b: Seq<u8>, w: Seq<int>) -> bool {
    ||| count_id(b, w, HDR2) > 1
    ||| count_id(b, w, TXTR) > 1
    ||| count_id(b, w, PATH) > 1
    ||| count_id(b, w, SPCL) > 1
    ||| count_id(b, w, EYE) > 1
    ||| count_id(b, w, GPNT) > 1
    ||| count_id(b, w, MPNT) > 1
    ||| count_id(b, w, FUEL) > 1
    ||| count_id(b, w, GLOW) > 1
    ||| count_id(b, w, ACEN) > 1
    ||| count_id(b, w, DOCK) > 1
    ||| count_id(b, w, INSG) > 1
    ||| count_id(b, w, SHLD) > 1
    ||| count_id(b, w, PINF) > 1
    ||| count_id(b, w, SLDC) + count_id(b, w, SLC2) > 1
}

/// The verdict on the chunk sequence from `c` at version `v`, checked in this
/// order: the sequence's own faults; a chunk that may appear once appearing
/// twice; `SLC2` before `V22_00`; a shield tree without `SHLD` (all three
/// `MalformedChunk`); no `HDR2` (`MissingHeader`).
#[verifier::opaque]
pub open spec fn scan_result(b: Seq<u8>, c: int, v: Version) -> Result<(), ParseError> {
    let w = walk(b, c);
    match walk_error(b, c) {
        Some(e) => Err(e),
        None => if has_duplicate(b, w) {
            Err(ParseError::MalformedChunk)
        } else if count_id(b, w, SLC2) > 0 && v.rank() < Version::V22_00.rank() {
            Err(ParseError::MalformedChunk)
        } else if count_id(b, w, SLDC) + count_id(b, w, SLC2) > 0 && count_id(b, w, SHLD) == 0 {
            Err(ParseError::MalformedChunk)
        } else if count_id(b, w, HDR2) == 0 {
            Err(ParseError::MissingHeader)
        } else {
            Ok(())
        },
    }
}

/// Finds the first fault of the chunk sequence from `start`.
pub fn walk_check(data: &[u8], start: usize) -> (r: Option<ParseError>)
    ensures
        r == walk_error(data@, start as int),
{
    let len = data.len();
    let mut c: usize = start;
    while c <= len && len - c >= 4
        invariant
            len == data@.len(),
            walk_error(data@, start as int) == walk_error(data@, c as int),
        decreases len - c,
    {
        if len - c < 8 {
            return Some(ParseError::Io);
        }
        let id = match u32_at_pos(data, c) {
            Ok(v) => v,
            Err(_) => 0,
        };
        let n = match u32_at_pos(data, c + 4) {
            Ok(v) => v as i32,
            Err(_) => 0,
        };
        if n < 0 {
            return Some(ParseError::MalformedChunk);
        }
        let is_known = id == HDR2 || id == crate::pof::OBJ2 || id == TXTR || id == PATH || id == SPCL || id == EYE || id
            == GPNT || id == MPNT || id == crate::pof::TGUN || id == crate::pof::TMIS || id == FUEL || id == GLOW || id
            == ACEN || id == DOCK || id == INSG || id == SHLD || id == SLDC || id == SLC2 || id == PINF;
        if n as usize > len - c - 8 {
            if is_known {
                return Some(ParseError::Io);
            }
            c = len;
        } else {
            c = c + 8 + n as usize;
        }
    }
    None
}

/// Counting over one more chunk adds one exactly when its id matches.
pub proof fn lemma_count_push_all(b: Seq<u8>, w: Seq<int>, c: int)
    ensures
        forall|id: u32| #[trigger] count_id(b, w.push(c), id) == count_id(b, w, id) + if u32_at(b, c) == id { 1nat } else { 0nat },
{
    assert(w.push(c).drop_last() =~= w);
}

proof fn lemma_count_push(b: Seq<u8>, w: Seq<int>, c: int, id: u32)
    ensures
        count_id(b, w.push(c), id) == count_id(b, w, id) + if u32_at(b, c) == id { 1nat } else { 0nat },
{
    assert(w.push(c).drop_last() =~= w);
}

/// How many chunks from `start` have the id `id`, counting up to two.
pub fn count_chunks(data: &[u8], start: usize, id: u32) -> (r: u8)
    requires
        walk_error(data@, start as int) is None,
    ensures
        r == if count_id(data@, walk(data@, start as int), id) >= 2 { 2 } else { count_id(data@, walk(data@, start as int), id) },
{
    let len = data.len();
    let mut c: usize = start;
    let mut count: u8 = 0;
    let ghost mut seen: Seq<int> = seq![];
    while c <= len && len - c >= 4
        invariant
            len == data@.len(),
            walk_error(data@, c as int) is None,
            walk(data@, start as int) == seen + walk(data@, c as int),
            count == if count_id(data@, seen, id) >= 2 { 2 } else { count_id(data@, seen, id) },
        decreases len - c,
    {
        let cid = match u32_at_pos(data, c) {
            Ok(v) => v,
            Err(_) => 0,
        };
        let n = match u32_at_pos(data, c + 4) {
            Ok(v) => v as i32,
            Err(_) => 0,
        };
        proof {
            lemma_count_push(data@, seen, c as int, id);
            assert(walk(data@, c as int) == seq![c as int] + walk(data@, next_chunk(data@, c as int)));
            assert(seen + walk(data@, c as int) =~= seen.push(c as int) + walk(data@, next_chunk(data@, c as int)));
            seen = seen.push(c as int);
        }
        if cid == id && count < 2 {
            count = count + 1;
        }
        if n as usize > len - c - 8 {
            c = len;
        } else {
            c = c + 8 + n as usize;
        }
    }
    proof {
        assert(seen + walk(data@, c as int) =~= seen);
    }
    count
}

/// Checks the chunk sequence from `start` (see `scan_result`).
pub fn scan_chunks(data: &[u8], start: usize, version: Version) -> (r: Result<(), ParseError>)
    ensures
        r == scan_result(data@, start as int, version),
{
    proof {
        reveal(scan_result);
    }
    if let Some(e) = walk_check(data, start) {
        return Err(e);
    }

    let hdr = count_chunks(data, start, HDR2);
    let txtr = count_chunks(data, start, TXTR);
    let path = count_chunks(data, start, PATH);
    let spcl = count_chunks(data, start, SPCL);
    let eye = count_chunks(data, start, EYE);
    let gpnt = count_chunks(data, start, GPNT);
    let mpnt = count_chunks(data, start, MPNT);
    let fuel = count_chunks(data, start, FUEL);
    let glow = count_chunks(data, start, GLOW);
    let acen = count_chunks(data, start, ACEN);
    let dock = count_chunks(data, start, DOCK);
    let insg = count_chunks(data, start, INSG);
    let shld = count_chunks(data, start, SHLD);
    let pinf = count_chunks(data, start, PINF);
    let sldc = count_chunks(data, start, SLDC);
    let slc2 = count_chunks(data, start, SLC2);
    if hdr > 1 || txtr > 1 || path > 1 || spcl > 1 || eye > 1 || gpnt > 1 || mpnt > 1 || fuel > 1 || glow > 1 || acen > 1
        || dock > 1 || insg > 1 || shld > 1 || pinf > 1 || sldc + slc2 > 1 {
        return Err(ParseError::MalformedChunk);
    }
    if slc2 > 0 && !version.at_least(Version::V22_00) {
        return Err(ParseError::MalformedChunk);
    }
    if sldc + slc2 > 0 && shld == 0 {
        return Err(ParseError::MalformedChunk);
    }
    if hdr == 0 {
        return Err(ParseError::MissingHeader);
    }
    Ok(())
}

} // verus!
