//! Decoder for the shield collision tree, in its two tag widths.
use vstd::prelude::*;
use crate::bsp::{bbox_at, bbox_at_pos, chunk_fits, header_width, parse_chunk_header};
use crate::bytes::{u32_at, u32_at_pos};
use crate::model::{BBox, ParseError, PolygonId, ShieldNode, Version};

verus! {

pub const SPLIT: u32 = 0;
pub const LEAF: u32 = 1;

/// Whether shield-tree tags are one byte wide in files of version `v` (up to `V21_17`).
pub open spec fn narrow_tags(v: Version) -> bool {
    v.rank() <= Version::V21_17.rank()
}

/// The tag of the shield node at `pos` and the position of its body.
pub open spec fn shield_tag_at(b: Seq<u8>, pos: int, narrow: bool) -> u32 {
    if narrow { b[pos] as u32 } else { u32_at(b, pos) }
}

/// Where the body of the shield node at `pos` starts: after its tag and its size.
pub open spec fn shield_body(pos: int, v: Version) -> int {
    pos + header_width(narrow_tags(v))
}

/// A shield leaf whose body starts at `body`: a box, a `u32` count, then that many polygon ids.
pub open spec fn leaf_decoded(b: Seq<u8>, body: int, bbox: Option<BBox>, ids: Seq<PolygonId>) -> bool {
    &&& bbox == Some(bbox_at(b, body))
    &&& ids.len() == u32_at(b, body + 24)
    &&& forall|i: int| 0 <= i < ids.len() ==> #[trigger] ids[i] == PolygonId(u32_at(b, body + 28 + 4 * i))
}

/// `n` is the shield tree whose root chunk starts at `pos`; child offsets count
/// from their split's start.
pub open spec fn node_decoded(b: Seq<u8>, pos: int, v: Version, n: ShieldNode) -> bool
    decreases n,
{
    let tag = shield_tag_at(b, pos, narrow_tags(v));
    let body = shield_body(pos, v);
    match n {
        ShieldNode::Split { bbox, front, back } => {
            &&& tag == SPLIT
            &&& bbox == bbox_at(b, body)
            &&& u32_at(b, body + 24) != 0
            &&& u32_at(b, body + 28) != 0
            &&& node_decoded(b, pos + u32_at(b, body + 24), v, *front)
            &&& node_decoded(b, pos + u32_at(b, body + 28), v, *back)
        },
        ShieldNode::Leaf { bbox, poly_list } => tag == LEAF && leaf_decoded(b, body, bbox, poly_list@),
    }
}

/// Every chunk, field and child link of the tree `n` at `pos` lies inside `b`.
pub open spec fn node_fits(b: Seq<u8>, pos: int, v: Version, n: ShieldNode) -> bool
    decreases n,
{
    let body = shield_body(pos, v);
    &&& chunk_fits(b, pos, narrow_tags(v))
    &&& match n {
        ShieldNode::Split { front, back, .. } => {
            &&& body + 32 <= b.len()
            &&& pos + u32_at(b, body + 24) <= b.len()
            &&& pos + u32_at(b, body + 28) <= b.len()
            &&& node_fits(b, pos + u32_at(b, body + 24), v, *front)
            &&& node_fits(b, pos + u32_at(b, body + 28), v, *back)
        },
        ShieldNode::Leaf { poly_list, .. } => body + 28 + 4 * poly_list@.len() <= b.len(),
    }
}

/// Decodes the shield node whose chunk starts at `pos`: a split (box, then two
/// non-zero child offsets counted from the node's start) or a leaf (box, then a
/// list of polygon ids).
pub fn parse_shield_node(buf: &[u8], pos: usize, version: Version) -> (r: Result<ShieldNode, ParseError>)
    requires
        pos <= buf@.len(),
    ensures
        r matches Ok(n) ==> node_decoded(buf@, pos as int, version, n) && node_fits(buf@, pos as int, version, n),
        (exists|n: ShieldNode| #[trigger] node_decoded(buf@, pos as int, version, n) && node_fits(buf@, pos as int, version, n))
            ==> r is Ok,
        ({
            let body = shield_body(pos as int, version);
            chunk_fits(buf@, pos as int, narrow_tags(version)) && shield_tag_at(buf@, pos as int, narrow_tags(version)) == SPLIT
                && body + 32 <= buf@.len() && (u32_at(buf@, body + 24) == 0 || u32_at(buf@, body + 28) == 0)
                ==> r == Err::<ShieldNode, ParseError>(ParseError::MalformedChunk)
        }),
        chunk_fits(buf@, pos as int, narrow_tags(version)) && shield_tag_at(buf@, pos as int, narrow_tags(version)) != SPLIT
            && shield_tag_at(buf@, pos as int, narrow_tags(version)) != LEAF
            ==> r == Err::<ShieldNode, ParseError>(ParseError::MalformedChunk),
    decreases buf@.len() - pos,
{
    let len = buf.len();
    let ghost good = exists|n: ShieldNode| #[trigger] node_decoded(buf@, pos as int, version, n) && node_fits(buf@, pos as int, version, n);
    let ghost w = choose|n: ShieldNode| #[trigger] node_decoded(buf@, pos as int, version, n) && node_fits(buf@, pos as int, version, n);
    let narrow = !version.at_least(Version::V21_18);
    let (tag, body, _size) = match parse_chunk_header(buf, pos, narrow) {
        Ok(h) => h,
        Err(e) => return Err(e),
    };
    assert(body == shield_body(pos as int, version));
    if tag == SPLIT {
        if len - body < 32 {
            return Err(ParseError::Io);
        }
        let bbox = bbox_at_pos(buf, body)?;
        let front_off = u32_at_pos(buf, body + 24)?;
        let back_off = u32_at_pos(buf, body + 28)?;
        if front_off == 0 || back_off == 0 {
            return Err(ParseError::MalformedChunk);
        }
        if front_off as usize > len - pos || back_off as usize > len - pos {
            return Err(ParseError::Io);
        }
        proof {
            if good {
                let f = *w->Split_front;
                let k = *w->Split_back;
                assert(node_decoded(buf@, pos + front_off, version, f) && node_fits(buf@, pos + front_off, version, f));
                assert(node_decoded(buf@, pos + back_off, version, k) && node_fits(buf@, pos + back_off, version, k));
            }
        }
        let front = match parse_shield_node(buf, pos + front_off as usize, version) {
            Ok(n) => n,
            Err(e) => return Err(e),
        };
        let back = match parse_shield_node(buf, pos + back_off as usize, version) {
            Ok(n) => n,
            Err(e) => return Err(e),
        };
        Ok(ShieldNode::Split { bbox, front: Box::new(front), back: Box::new(back) })
    } else if tag == LEAF {
        parse_shield_leaf(buf, body)
    } else {
        Err(ParseError::MalformedChunk)
    }
}

/// Decodes a shield leaf body at `body`: a box, a `u32` count, then that many polygon ids.
fn parse_shield_leaf(buf: &[u8], body: usize) -> (r: Result<ShieldNode, ParseError>)
    ensures
        r matches Ok(n) ==> n is Leaf,
        r matches Ok(ShieldNode::Leaf { bbox, poly_list }) ==> leaf_decoded(buf@, body as int, bbox, poly_list@)
            && body + 28 + 4 * poly_list@.len() <= buf@.len(),
        body + 28 <= buf@.len() && body + 28 + 4 * u32_at(buf@, body + 24) <= buf@.len() ==> r is Ok,
{
    let len = buf.len();
    let bbox: BBox = match bbox_at_pos(buf, body) {
        Ok(b) => b,
        Err(e) => return Err(e),
    };
    let count = u32_at_pos(buf, body + 24)?;
    let mut ids: Vec<PolygonId> = Vec::new();
    let mut p: usize = body + 28;
    let mut i: u32 = 0;
    while i < count
        invariant
            i <= count,
            len == buf@.len(),
            ids@.len() == i,
            p == body + 28 + 4 * i,
            count == u32_at(buf@, body + 24),
            body + 28 <= buf@.len(),
            p <= buf@.len(),
            forall|k: int| 0 <= k < i ==> #[trigger] ids@[k] == PolygonId(u32_at(buf@, body + 28 + 4 * k)),
        decreases count - i,
    {
        let id = u32_at_pos(buf, p)?;
        ids.push(PolygonId(id));
        p = p + 4;
        i = i + 1;
    }
    Ok(ShieldNode::Leaf { bbox: Some(bbox), poly_list: ids })
}

} // verus!
