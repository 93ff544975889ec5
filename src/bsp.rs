//! Decoder for the polygon BSP tree stored inline in a subobject's geometry buffer.
use vstd::prelude::*;
use crate::bytes::{u16_at, u16_at_pos, u32_at, u32_at_pos, u8_at};
use crate::model::{
    node_index_within, polys_index_within, BBox, BspData, BspNode, Color, NormalId, ParseError, PolyVertex, Polygon,
    TextureId, Texturing, Vec3d, VertexId,
};

verus! {

pub const ENDOFBRANCH: u32 = 0;
pub const DEFFPOINTS: u32 = 1;
pub const FLATPOLY: u32 = 2;
pub const TMAPPOLY: u32 = 3;
pub const SORTNORM: u32 = 4;
pub const BOUNDBOX: u32 = 5;

/// The vector of three little-endian singles at `pos`.
pub open spec fn vec3_at(b: Seq<u8>, pos: int) -> Vec3d {
    Vec3d { x: u32_at(b, pos), y: u32_at(b, pos + 4), z: u32_at(b, pos + 8) }
}

/// The box of two vectors at `pos`.
pub open spec fn bbox_at(b: Seq<u8>, pos: int) -> BBox {
    BBox { min: vec3_at(b, pos), max: vec3_at(b, pos + 12) }
}

/// A textured polygon corner at `pos`: vertex id, normal id, then the two texture coordinates.
pub open spec fn tmap_vertex_at(b: Seq<u8>, pos: int) -> PolyVertex {
    PolyVertex {
        vertex_id: VertexId(u16_at(b, pos)),
        normal_id: NormalId(u16_at(b, pos + 2)),
        uv: (u32_at(b, pos + 4), u32_at(b, pos + 8)),
    }
}

/// A flat polygon corner at `pos`: vertex id and normal id, with zero texture coordinates.
pub open spec fn flat_vertex_at(b: Seq<u8>, pos: int) -> PolyVertex {
    PolyVertex { vertex_id: VertexId(u16_at(b, pos)), normal_id: NormalId(u16_at(b, pos + 2)), uv: (0, 0) }
}

pub fn vec3d_at(buf: &[u8], pos: usize) -> (r: Result<Vec3d, ParseError>)
    ensures
        pos + 12 <= buf@.len() ==> r == Ok::<Vec3d, ParseError>(vec3_at(buf@, pos as int)),
        pos + 12 > buf@.len() ==> r == Err::<Vec3d, ParseError>(ParseError::Io),
{
    if pos > buf.len() || buf.len() - pos < 12 {
        return Err(ParseError::Io);
    }
    let x = u32_at_pos(buf, pos)?;
    let y = u32_at_pos(buf, pos + 4)?;
    let z = u32_at_pos(buf, pos + 8)?;
    Ok(Vec3d { x, y, z })
}

pub fn bbox_at_pos(buf: &[u8], pos: usize) -> (r: Result<BBox, ParseError>)
    ensures
        pos + 24 <= buf@.len() ==> r == Ok::<BBox, ParseError>(bbox_at(buf@, pos as int)),
        pos + 24 > buf@.len() ==> r == Err::<BBox, ParseError>(ParseError::Io),
{
    if pos > buf.len() || buf.len() - pos < 24 {
        return Err(ParseError::Io);
    }
    let min = vec3d_at(buf, pos)?;
    let max = vec3d_at(buf, pos + 12)?;
    Ok(BBox { min, max })
}

/// Bytes taken by a chunk header: the tag, then the `u32` size.
pub open spec fn header_width(tag_is_u8: bool) -> int {
    if tag_is_u8 { 5 } else { 8 }
}

/// The header at `pos` and the chunk its size field describes both lie inside `b`.
pub open spec fn chunk_fits(b: Seq<u8>, pos: int, tag_is_u8: bool) -> bool {
    &&& pos + header_width(tag_is_u8) <= b.len()
    &&& pos + u32_at(b, pos + header_width(tag_is_u8) - 4) <= b.len()
}

/// A chunk header at `pos`: its tag (one byte when `tag_is_u8`, else four), then
/// its `u32` size. Returns the tag, the position of the body and the size. A
/// header that does not fit, or a size that reaches past the end, fails with `Io`.
pub fn parse_chunk_header(buf: &[u8], pos: usize, tag_is_u8: bool) -> (r: Result<(u32, usize, u32), ParseError>)
    ensures
        chunk_fits(buf@, pos as int, tag_is_u8) ==> r == Ok::<(u32, usize, u32), ParseError>((
            if tag_is_u8 { buf@[pos as int] as u32 } else { u32_at(buf@, pos as int) },
            (pos + header_width(tag_is_u8)) as usize,
            u32_at(buf@, pos + header_width(tag_is_u8) - 4),
        )),
        !chunk_fits(buf@, pos as int, tag_is_u8) ==> r == Err::<(u32, usize, u32), ParseError>(ParseError::Io),
{
    let w: usize = if tag_is_u8 { 1 } else { 4 };
    if pos > buf.len() || buf.len() - pos < w + 4 {
        return Err(ParseError::Io);
    }
    let tag = if tag_is_u8 { u8_at(buf, pos)? as u32 } else { u32_at_pos(buf, pos)? };
    let size = u32_at_pos(buf, pos + w)?;
    if size as usize > buf.len() - pos {
        return Err(ParseError::Io);
    }
    Ok((tag, pos + w + 4, size))
}

/// Corner `i` of a corner list that starts at `pos`.
pub open spec fn corner_at(b: Seq<u8>, pos: int, textured: bool, i: int) -> PolyVertex {
    if textured {
        tmap_vertex_at(b, pos + 12 * i)
    } else {
        flat_vertex_at(b, pos + 4 * i)
    }
}

/// The `n` corners at `pos` lie inside `b` and name vertices below `nv` and normals below `nn`.
pub open spec fn corners_fit(b: Seq<u8>, pos: int, n: int, textured: bool, nv: int, nn: int) -> bool {
    &&& pos + (if textured { 12int } else { 4int }) * n <= b.len()
    &&& forall|i: int| 0 <= i < n ==> (#[trigger] corner_at(b, pos, textured, i)).vertex_id.0 < nv
        && corner_at(b, pos, textured, i).normal_id.0 < nn
}

/// Reads `n` polygon corners starting at `pos`, textured (12 bytes each) or flat
/// (4 bytes each). Fails with `MalformedChunk` on a corner whose vertex id is not
/// below `nv` or whose normal id is not below `nn`.
pub fn read_poly_verts(buf: &[u8], pos: usize, n: u32, textured: bool, nv: usize, nn: usize) -> (r: Result<Vec<PolyVertex>, ParseError>)
    ensures
        corners_fit(buf@, pos as int, n as int, textured, nv as int, nn as int) ==> r is Ok,
        pos <= buf@.len() && r is Ok ==> corners_fit(buf@, pos as int, n as int, textured, nv as int, nn as int),
        r matches Ok(v) ==> {
            &&& v@.len() == n
            &&& forall|i: int| 0 <= i < n ==> #[trigger] v@[i] == if textured {
                tmap_vertex_at(buf@, pos + 12 * i)
            } else {
                flat_vertex_at(buf@, pos + 4 * i)
            }
            &&& forall|i: int| 0 <= i < n ==> (#[trigger] v@[i]).vertex_id.0 < nv && v@[i].normal_id.0 < nn
        },
{
    let step: usize = if textured { 12 } else { 4 };
    let mut out: Vec<PolyVertex> = Vec::new();
    let mut p: usize = pos;
    let mut i: u32 = 0;
    while i < n
        invariant
            i <= n,
            out@.len() == i,
            step == (if textured { 12usize } else { 4usize }),
            p == pos + step * i,
            pos <= buf@.len() ==> p <= buf@.len(),
            forall|k: int| 0 <= k < i ==> #[trigger] out@[k] == if textured {
                tmap_vertex_at(buf@, pos + 12 * k)
            } else {
                flat_vertex_at(buf@, pos + 4 * k)
            },
            forall|k: int| 0 <= k < i ==> (#[trigger] out@[k]).vertex_id.0 < nv && out@[k].normal_id.0 < nn,
        decreases n - i,
    {
        proof {
            if corners_fit(buf@, pos as int, n as int, textured, nv as int, nn as int) {
                assert(step * i + step <= step * n) by (nonlinear_arith)
                    requires
                        i < n,
                        step >= 0,
                ;
                assert(corner_at(buf@, pos as int, textured, i as int).vertex_id.0 < nv);
            }
        }
        if p > buf.len() || buf.len() - p < step {
            return Err(ParseError::Io);
        }
        let vid = u16_at_pos(buf, p)?;
        let nid = u16_at_pos(buf, p + 2)?;
        let uv = if textured { (u32_at_pos(buf, p + 4)?, u32_at_pos(buf, p + 8)?) } else { (0u32, 0u32) };
        if vid as usize >= nv || nid as usize >= nn {
            return Err(ParseError::MalformedChunk);
        }
        let vert = PolyVertex { vertex_id: VertexId(vid), normal_id: NormalId(nid), uv };
        out.push(vert);
        proof {
            assert(step * (i + 1) == step * i + step) by (nonlinear_arith);
        }
        p = p + step;
        i = i + 1;
    }
    proof {
        assert forall|k: int| 0 <= k < n implies (#[trigger] corner_at(buf@, pos as int, textured, k)).vertex_id.0 < nv
            && corner_at(buf@, pos as int, textured, k).normal_id.0 < nn by {
            assert(out@[k] == corner_at(buf@, pos as int, textured, k));
        }
    }
    Ok(out)
}

/// `p` is the polygon whose body starts at `body`: normal, center, radius, corner
/// count, then a texture id (textured) or a color and a padding byte (flat), then the corners.
pub open spec fn polygon_decoded(b: Seq<u8>, body: int, textured: bool, p: Polygon) -> bool {
    &&& p.normal == vec3_at(b, body)
    &&& p.center == vec3_at(b, body + 12)
    &&& p.radius == u32_at(b, body + 24)
    &&& p.texture == if textured {
        Texturing::Texture(TextureId(u32_at(b, body + 32)))
    } else {
        Texturing::Flat(Color { red: b[body + 32], green: b[body + 33], blue: b[body + 34] })
    }
    &&& p.verts@.len() == u32_at(b, body + 28)
    &&& forall|i: int| 0 <= i < p.verts@.len() ==> #[trigger] p.verts@[i] == if textured {
        tmap_vertex_at(b, body + 36 + 12 * i)
    } else {
        flat_vertex_at(b, body + 36 + 4 * i)
    }
}

/// Where the `k`-th chunk of a polygon run that starts at `start` begins: each
/// chunk's size field gives the distance to the next.
pub open spec fn run_pos(b: Seq<u8>, start: int, k: nat) -> int
    decreases k,
{
    if k == 0 {
        start
    } else {
        let c = run_pos(b, start, (k - 1) as nat);
        c + u32_at(b, c + 4)
    }
}

/// The chunk at `c` is a polygon chunk, and `p` is the polygon it holds.
pub open spec fn poly_chunk_decoded(b: Seq<u8>, c: int, p: Polygon) -> bool {
    &&& u32_at(b, c) == TMAPPOLY || u32_at(b, c) == FLATPOLY
    &&& polygon_decoded(b, c + 8, u32_at(b, c) == TMAPPOLY, p)
}

/// `polys` are the first polygons of the run that starts at `start`.
pub open spec fn run_prefix_decoded(b: Seq<u8>, start: int, polys: Seq<Polygon>) -> bool {
    forall|k: int| 0 <= k < polys.len() ==> poly_chunk_decoded(b, run_pos(b, start, k as nat), #[trigger] polys[k])
}

/// `polys` are the polygons of the run that starts at `start`, which an
/// `ENDOFBRANCH` chunk closes right after them.
pub open spec fn run_decoded(b: Seq<u8>, start: int, polys: Seq<Polygon>) -> bool {
    &&& run_prefix_decoded(b, start, polys)
    &&& u32_at(b, run_pos(b, start, polys.len())) == ENDOFBRANCH
}

/// The link `off`, counted from `pos`, is null or leads to an `ENDOFBRANCH` byte.
pub open spec fn empty_link(b: Seq<u8>, pos: int, off: u32) -> bool {
    off == 0 || (pos + off < b.len() && b[pos + off] == 0)
}

/// The run of `m` polygon chunks at `start` and the `ENDOFBRANCH` chunk after
/// them lie inside `b`, each size covers at least a header, and every corner
/// names a vertex below `nv` and a normal below `nn`.
pub open spec fn run_fits(b: Seq<u8>, start: int, m: nat, nv: int, nn: int) -> bool {
    &&& run_prefix_fits(b, start, m, nv, nn)
    &&& chunk_fits(b, run_pos(b, start, m), false)
    &&& u32_at(b, run_pos(b, start, m)) == ENDOFBRANCH
}

/// The first `m` polygon chunks of the run at `start` fit (see `run_fits`).
pub open spec fn run_prefix_fits(b: Seq<u8>, start: int, m: nat, nv: int, nn: int) -> bool {
    forall|k: nat| k < m ==> {
        let c = #[trigger] run_pos(b, start, k);
        &&& chunk_fits(b, c, false)
        &&& u32_at(b, c + 4) >= 8
        &&& (u32_at(b, c) == TMAPPOLY || u32_at(b, c) == FLATPOLY)
        &&& polygon_fits(b, c + 8, u32_at(b, c) == TMAPPOLY, nv, nn)
    }
}

/// Every chunk, field and link of the tree `n` at `pos` lies inside `b`, and
/// its polygons name vertices below `nv` and normals below `nn`.
pub open spec fn bsp_fits(b: Seq<u8>, pos: int, n: BspNode, nv: int, nn: int) -> bool
    decreases n,
{
    &&& chunk_fits(b, pos, false)
    &&& match n {
        BspNode::Split { front, back, .. } => {
            &&& pos + 80 <= b.len()
            &&& pos + u32_at(b, pos + 36) <= b.len()
            &&& pos + u32_at(b, pos + 40) <= b.len()
            &&& bsp_fits(b, pos + u32_at(b, pos + 36), *front, nv, nn)
            &&& bsp_fits(b, pos + u32_at(b, pos + 40), *back, nv, nn)
        },
        BspNode::Leaf { poly_list, .. } => {
            &&& pos + 32 <= b.len()
            &&& u32_at(b, pos + 4) >= 8
            &&& run_fits(b, pos + u32_at(b, pos + 4), poly_list@.len(), nv, nn)
        },
    }
}

/// `n` is the tree whose root chunk starts at `pos`. A split's child offsets
/// count from the split's own start; a leaf's polygon run starts one chunk
/// size after the leaf.
pub open spec fn bsp_node_decoded(b: Seq<u8>, pos: int, n: BspNode) -> bool
    decreases n,
{
    match n {
        BspNode::Split { normal, point, front, back, bbox } => {
            &&& u32_at(b, pos) == SORTNORM
            &&& normal == vec3_at(b, pos + 8)
            &&& point == vec3_at(b, pos + 20)
            &&& bbox == bbox_at(b, pos + 56)
            &&& u32_at(b, pos + 36) != 0
            &&& u32_at(b, pos + 40) != 0
            &&& empty_link(b, pos, u32_at(b, pos + 44))
            &&& empty_link(b, pos, u32_at(b, pos + 48))
            &&& empty_link(b, pos, u32_at(b, pos + 52))
            &&& bsp_node_decoded(b, pos + u32_at(b, pos + 36), *front)
            &&& bsp_node_decoded(b, pos + u32_at(b, pos + 40), *back)
        },
        BspNode::Leaf { bbox, poly_list } => {
            &&& u32_at(b, pos) == BOUNDBOX
            &&& bbox == bbox_at(b, pos + 8)
            &&& run_decoded(b, pos + u32_at(b, pos + 4), poly_list@)
        },
    }
}

/// In a decoded tree every split has both children, and each child starts
/// strictly after its split: following links never returns to a node.
pub proof fn lemma_split_children_follow(b: Seq<u8>, pos: int, n: BspNode)
    requires
        bsp_node_decoded(b, pos, n),
        n is Split,
    ensures
        ({
            let front_pos = pos + u32_at(b, pos + 36);
            let back_pos = pos + u32_at(b, pos + 40);
            &&& front_pos > pos
            &&& back_pos > pos
            &&& bsp_node_decoded(b, front_pos, *n->Split_front)
            &&& bsp_node_decoded(b, back_pos, *n->Split_back)
        }),
{
}

/// The polygon body at `body` and its corners lie inside `b`, and its corners
/// name vertices below `nv` and normals below `nn`.
pub open spec fn polygon_fits(b: Seq<u8>, body: int, textured: bool, nv: int, nn: int) -> bool {
    &&& body + 36 <= b.len()
    &&& corners_fit(b, body + 36, u32_at(b, body + 28) as int, textured, nv, nn)
}

/// Reads the polygon whose body starts at `body` (see `polygon_decoded`).
pub fn read_polygon(buf: &[u8], body: usize, textured: bool, nv: usize, nn: usize) -> (r: Result<Polygon, ParseError>)
    ensures
        polygon_fits(buf@, body as int, textured, nv as int, nn as int) ==> r is Ok,
        r is Ok ==> polygon_fits(buf@, body as int, textured, nv as int, nn as int),
        r matches Ok(p) ==> {
            &&& polygon_decoded(buf@, body as int, textured, p)
            &&& polys_index_within(seq![p], nv as nat, nn as nat)
        },
{
    if body > buf.len() || buf.len() - body < 36 {
        return Err(ParseError::Io);
    }
    let normal = vec3d_at(buf, body)?;
    let center = vec3d_at(buf, body + 12)?;
    let radius = u32_at_pos(buf, body + 24)?;
    let num_verts = u32_at_pos(buf, body + 28)?;
    let texture = if textured {
        Texturing::Texture(TextureId(u32_at_pos(buf, body + 32)?))
    } else {
        Texturing::Flat(Color { red: buf[body + 32], green: buf[body + 33], blue: buf[body + 34] })
    };
    let verts = read_poly_verts(buf, body + 36, num_verts, textured, nv, nn)?;
    let p = Polygon { normal, center, radius, texture, verts };
    proof {
        assert forall|i: int| 0 <= i < p.verts@.len() implies #[trigger] p.verts@[i] == if textured {
            tmap_vertex_at(buf@, body + 36 + 12 * i)
        } else {
            flat_vertex_at(buf@, body + 36 + 4 * i)
        } by {
            assert(p.verts@[i] == verts@[i]);
        }
        assert(seq![p][0] == p);
    }
    Ok(p)
}

/// Decodes the node whose chunk starts at `pos`: a `SORTNORM` split, whose child
/// offsets count from the split's own start and must be non-zero, or a `BOUNDBOX`
/// leaf followed by a run of polygons that `ENDOFBRANCH` closes. The
/// `prelist`, `postlist` and `online` links of a split must be zero or lead to an
/// `ENDOFBRANCH` byte.
#[verifier::rlimit(60)]
pub fn parse_bsp_node(buf: &[u8], pos: usize, nv: usize, nn: usize) -> (r: Result<BspNode, ParseError>)
    requires
        pos <= buf@.len(),
    ensures
        r matches Ok(n) ==> node_index_within(n, nv as nat, nn as nat),
        r matches Ok(n) ==> bsp_node_decoded(buf@, pos as int, n),
        r matches Ok(n) ==> bsp_fits(buf@, pos as int, n, nv as int, nn as int),
        (exists|n: BspNode| #[trigger] bsp_node_decoded(buf@, pos as int, n) && bsp_fits(buf@, pos as int, n, nv as int, nn as int))
            ==> r is Ok,
        chunk_fits(buf@, pos as int, false) && u32_at(buf@, pos as int) == SORTNORM && pos + 80 <= buf@.len() && (u32_at(
            buf@,
            pos + 36,
        ) == 0 || u32_at(buf@, pos + 40) == 0) ==> r == Err::<BspNode, ParseError>(ParseError::MalformedChunk),
        chunk_fits(buf@, pos as int, false) && u32_at(buf@, pos as int) != SORTNORM && u32_at(buf@, pos as int) != BOUNDBOX
            ==> r == Err::<BspNode, ParseError>(ParseError::MalformedChunk),
    decreases buf@.len() - pos,
{
    let ghost good = exists|n: BspNode| #[trigger] bsp_node_decoded(buf@, pos as int, n) && bsp_fits(buf@, pos as int, n, nv as int, nn as int);
    let ghost w = choose|n: BspNode| #[trigger] bsp_node_decoded(buf@, pos as int, n) && bsp_fits(buf@, pos as int, n, nv as int, nn as int);
    let (tag, body, size) = parse_chunk_header(buf, pos, false)?;
    if tag == SORTNORM {
        if buf.len() - body < 72 {
            return Err(ParseError::Io);
        }
        let normal = vec3d_at(buf, body)?;
        let point = vec3d_at(buf, body + 12)?;
        let front_off = u32_at_pos(buf, body + 28)?;
        let back_off = u32_at_pos(buf, body + 32)?;
        let prelist = u32_at_pos(buf, body + 36)?;
        let postlist = u32_at_pos(buf, body + 40)?;
        let online = u32_at_pos(buf, body + 44)?;
        let bbox = bbox_at_pos(buf, body + 48)?;
        if front_off == 0 || back_off == 0 {
            return Err(ParseError::MalformedChunk);
        }
        if !empty_branch(buf, pos, prelist) || !empty_branch(buf, pos, postlist) || !empty_branch(buf, pos, online) {
            return Err(ParseError::MalformedChunk);
        }
        if front_off as usize > buf.len() - pos || back_off as usize > buf.len() - pos {
            return Err(ParseError::Io);
        }
        proof {
            if good {
                let f = *w->Split_front;
                let k = *w->Split_back;
                assert(bsp_node_decoded(buf@, pos + front_off, f) && bsp_fits(buf@, pos + front_off, f, nv as int, nn as int));
                assert(bsp_node_decoded(buf@, pos + back_off, k) && bsp_fits(buf@, pos + back_off, k, nv as int, nn as int));
            }
        }
        let front = parse_bsp_node(buf, pos + front_off as usize, nv, nn)?;
        let back = parse_bsp_node(buf, pos + back_off as usize, nv, nn)?;
        Ok(BspNode::Split { normal, point, front: Box::new(front), back: Box::new(back), bbox })
    } else if tag == BOUNDBOX {
        proof {
            if good {
                assert(run_fits(buf@, pos + size, w->Leaf_poly_list@.len(), nv as int, nn as int));
            }
        }
        parse_leaf(buf, pos, nv, nn)
    } else {
        Err(ParseError::MalformedChunk)
    }
}

/// Decodes the `BOUNDBOX` leaf whose chunk starts at `pos`, with its run of polygons.
fn parse_leaf(buf: &[u8], pos: usize, nv: usize, nn: usize) -> (r: Result<BspNode, ParseError>)
    requires
        pos + 8 <= buf@.len(),
        u32_at(buf@, pos as int) == BOUNDBOX,
    ensures
        r matches Ok(n) ==> node_index_within(n, nv as nat, nn as nat),
        r matches Ok(n) ==> n is Leaf && bsp_node_decoded(buf@, pos as int, n),
        r matches Ok(n) ==> chunk_fits(buf@, pos as int, false) ==> bsp_fits(buf@, pos as int, n, nv as int, nn as int),
        pos + 32 <= buf@.len() && u32_at(buf@, pos + 4) >= 8 && pos + u32_at(buf@, pos + 4) <= buf@.len() && (exists|m: nat|
            #[trigger] run_fits(buf@, pos + u32_at(buf@, pos + 4), m, nv as int, nn as int)) ==> r is Ok,
{
    let len = buf.len();
    assert(pos + 8 <= len);
    let size = u32_at_pos(buf, pos + 4)?;
    let bbox = match bbox_at_pos(buf, pos + 8) {
        Ok(b) => b,
        Err(e) => return Err(e),
    };
    let poly_list = match parse_poly_run(buf, pos, size, nv, nn) {
        Ok(p) => p,
        Err(e) => return Err(e),
    };
    Ok(BspNode::Leaf { bbox, poly_list })
}

/// Whether the link `off`, counted from `pos`, is null or leads to an `ENDOFBRANCH` byte.
fn empty_branch(buf: &[u8], pos: usize, off: u32) -> (r: bool)
    requires
        pos <= buf@.len(),
    ensures
        r == (off == 0 || (pos + off < buf@.len() && buf@[pos + off] == 0)),
{
    off == 0 || (off as usize) < buf.len() - pos && buf[pos + off as usize] == 0
}

/// Reads the polygons that follow the chunk at `pos` of size `size`, each chunk
/// found `size` bytes after the one before, until an `ENDOFBRANCH` chunk.
fn parse_poly_run(buf: &[u8], pos: usize, size: u32, nv: usize, nn: usize) -> (r: Result<Vec<Polygon>, ParseError>)
    requires
        pos <= buf@.len(),
    ensures
        r matches Ok(polys) ==> polys_index_within(polys@, nv as nat, nn as nat) && run_decoded(buf@, pos + size, polys@),
        size >= 8 && pos + size <= buf@.len() && (exists|m: nat| #[trigger] run_fits(buf@, pos + size, m, nv as int, nn as int)) ==> r is Ok,
        r matches Ok(polys) ==> run_fits(buf@, pos + size, polys@.len(), nv as int, nn as int) && size >= 8,
{
    if size < 8 {
        return Err(ParseError::MalformedChunk);
    }
    if size as usize > buf.len() - pos {
        return Err(ParseError::Io);
    }
    let len = buf.len();
    let ghost start = pos + size;
    let ghost good = exists|m: nat| #[trigger] run_fits(buf@, start, m, nv as int, nn as int);
    let ghost wm = choose|m: nat| #[trigger] run_fits(buf@, start, m, nv as int, nn as int);
    let mut cur: usize = pos + size as usize;
    let mut polys: Vec<Polygon> = Vec::new();
    loop
        invariant
            good == (exists|m: nat| #[trigger] run_fits(buf@, start, m, nv as int, nn as int)),
            start == pos + size,
            good ==> run_fits(buf@, start, wm, nv as int, nn as int) && polys@.len() <= wm,
            len == buf@.len(),
            cur <= buf@.len(),
            cur == run_pos(buf@, start, polys@.len()),
            polys_index_within(polys@, nv as nat, nn as nat),
            run_prefix_decoded(buf@, start, polys@),
            run_prefix_fits(buf@, start, polys@.len(), nv as int, nn as int),
        ensures
            polys_index_within(polys@, nv as nat, nn as nat),
            run_decoded(buf@, start, polys@),
            run_fits(buf@, start, polys@.len(), nv as int, nn as int),
        decreases buf@.len() - cur,
    {
        proof {
            if good {
                let k = polys@.len();
                if k < wm {
                    assert(run_pos(buf@, start, k) == cur);
                    assert(chunk_fits(buf@, cur as int, false));
                    assert(u32_at(buf@, cur + 4) >= 8);
                    assert(u32_at(buf@, cur as int) == TMAPPOLY || u32_at(buf@, cur as int) == FLATPOLY);
                    assert(polygon_fits(buf@, cur + 8, u32_at(buf@, cur as int) == TMAPPOLY, nv as int, nn as int));
                } else {
                    assert(chunk_fits(buf@, cur as int, false));
                    assert(u32_at(buf@, cur as int) == ENDOFBRANCH);
                }
            }
        }
        let (tag, body, csize) = match parse_chunk_header(buf, cur, false) {
            Ok(h) => h,
            Err(e) => return Err(e),
        };
        if tag == ENDOFBRANCH {
            assert(u32_at(buf@, cur as int) == ENDOFBRANCH);
            assert(chunk_fits(buf@, cur as int, false));
            break;
        }
        assert(tag == u32_at(buf@, cur as int) && body == cur + 8);
        let poly = if tag == TMAPPOLY {
            read_polygon(buf, body, true, nv, nn)?
        } else if tag == FLATPOLY {
            read_polygon(buf, body, false, nv, nn)?
        } else {
            return Err(ParseError::MalformedChunk);
        };
        if csize < 8 {
            return Err(ParseError::MalformedChunk);
        }
        if csize as usize > buf.len() - cur {
            return Err(ParseError::Io);
        }
        proof {
            assert(seq![poly][0] == poly);
        }
        let ghost before = polys@;
        polys.push(poly);
        proof {
            assert(poly_chunk_decoded(buf@, cur as int, poly));
            assert forall|k: int| 0 <= k < polys@.len() implies poly_chunk_decoded(buf@, run_pos(buf@, start, k as nat), #[trigger] polys@[k]) by {
                if k < before.len() {
                    assert(polys@[k] == before[k]);
                } else {
                    assert(polys@[k] == poly);
                    assert(run_pos(buf@, start, k as nat) == cur);
                }
            }
            assert(run_pos(buf@, start, polys@.len()) == cur + csize);
            assert(chunk_fits(buf@, cur as int, false));
            assert forall|k: nat| k < polys@.len() implies {
                let c = #[trigger] run_pos(buf@, start, k);
                &&& chunk_fits(buf@, c, false)
                &&& u32_at(buf@, c + 4) >= 8
                &&& (u32_at(buf@, c) == TMAPPOLY || u32_at(buf@, c) == FLATPOLY)
                &&& polygon_fits(buf@, c + 8, u32_at(buf@, c) == TMAPPOLY, nv as int, nn as int)
            } by {
                if k == before.len() {
                    assert(run_pos(buf@, start, k) == cur);
                }
            }
        }
        cur = cur + csize as usize;
    }
    Ok(polys)
}

/// Where vertex `i` starts in a vertex blob that starts at `off`: each vertex is
/// followed by as many normals as the count table at byte 20 gives it.
pub open spec fn blob_pos(b: Seq<u8>, off: int, i: nat) -> int
    decreases i,
{
    if i == 0 {
        off
    } else {
        blob_pos(b, off, (i - 1) as nat) + 12 + 12 * b[20 + i - 1]
    }
}

/// How many normals the vertices before vertex `i` carry.
pub open spec fn norms_before(b: Seq<u8>, i: nat) -> int
    decreases i,
{
    if i == 0 {
        0
    } else {
        norms_before(b, (i - 1) as nat) + b[20 + i - 1]
    }
}

/// Normal `j` of vertex `i` in a vertex blob that starts at `off`.
pub open spec fn blob_normal(b: Seq<u8>, off: int, i: nat, j: int) -> Vec3d {
    vec3_at(b, blob_pos(b, off, i) + 12 + 12 * j)
}

proof fn lemma_norms_before_grows(b: Seq<u8>, i: nat)
    ensures
        forall|k: nat| k < i ==> #[trigger] norms_before(b, k) + b[20 + k as int] <= norms_before(b, i),
    decreases i,
{
    if i > 0 {
        lemma_norms_before_grows(b, (i - 1) as nat);
        lemma_norms_before_nonneg(b, (i - 1) as nat);
    }
}

proof fn lemma_norms_before_nonneg(b: Seq<u8>, i: nat)
    ensures
        norms_before(b, i) >= 0,
    decreases i,
{
    if i > 0 {
        lemma_norms_before_nonneg(b, (i - 1) as nat);
    }
}

/// Vertices later in the blob start no earlier.
proof fn lemma_blob_pos_mono(b: Seq<u8>, off: int, i: nat, j: nat)
    requires
        i <= j,
    ensures
        blob_pos(b, off, i) <= blob_pos(b, off, j),
    decreases j,
{
    if i < j {
        lemma_blob_pos_mono(b, off, i, (j - 1) as nat);
    }
}

/// The geometry buffer `b` is well formed: a `DEFFPOINTS` chunk inside `b`
/// whose count table and vertex blob lie inside `b`, whose normal counts add up
/// to its normal count, and after which a tree follows that decodes and fits.
pub open spec fn bsp_data_fits(b: Seq<u8>) -> bool {
    let nv = u32_at(b, 8);
    let off = u32_at(b, 16) as int;
    &&& chunk_fits(b, 0, false)
    &&& u32_at(b, 0) == DEFFPOINTS
    &&& 20 + nv <= b.len()
    &&& blob_pos(b, off, nv as nat) <= b.len()
    &&& norms_before(b, nv as nat) == u32_at(b, 12)
    &&& exists|n: BspNode| #[trigger] bsp_node_decoded(b, u32_at(b, 4) as int, n) && bsp_fits(b, u32_at(b, 4) as int, n, nv as int, norms_before(b, nv as nat))
}

/// Decodes a subobject's geometry buffer: a `DEFFPOINTS` chunk whose body holds
/// the vertex count, the normal count, the position of the vertex blob and a
/// table of normal counts per vertex, followed by the root of the tree.
pub fn parse_bsp_data(buf: &[u8]) -> (r: Result<BspData, ParseError>)
    ensures
        r matches Ok(d) ==> {
            &&& d.wf()
            &&& u32_at(buf@, 0) == DEFFPOINTS
            &&& d.verts@.len() == u32_at(buf@, 8)
            &&& d.norms@.len() == u32_at(buf@, 12)
            &&& norms_before(buf@, d.verts@.len()) == u32_at(buf@, 12)
            &&& forall|i: int| 0 <= i < d.verts@.len() ==> #[trigger] d.verts@[i] == vec3_at(buf@, blob_pos(buf@, u32_at(buf@, 16) as int, i as nat))
            &&& forall|i: int, j: int| 0 <= i < d.verts@.len() && 0 <= j < buf@[20 + i] ==> d.norms@[norms_before(buf@, i as nat) + j]
                == #[trigger] blob_normal(buf@, u32_at(buf@, 16) as int, i as nat, j)
            &&& bsp_node_decoded(buf@, u32_at(buf@, 4) as int, d.collision_tree)
        },
        chunk_fits(buf@, 0, false) && u32_at(buf@, 0) != DEFFPOINTS ==> r == Err::<BspData, ParseError>(ParseError::MalformedChunk),
        bsp_data_fits(buf@) ==> r is Ok,
        r is Ok ==> bsp_data_fits(buf@),
{
    let ghost good = bsp_data_fits(buf@);
    let (tag, body, size) = parse_chunk_header(buf, 0, false)?;
    if tag != DEFFPOINTS {
        return Err(ParseError::MalformedChunk);
    }
    let num_verts = u32_at_pos(buf, body)?;
    let num_norms = u32_at_pos(buf, body + 4)?;
    let offset = u32_at_pos(buf, body + 8)?;
    let table: usize = body + 12;
    if num_verts as usize > buf.len() - table {
        return Err(ParseError::Io);
    }
    proof {
        if good {
            lemma_blob_pos_mono(buf@, offset as int, 0, num_verts as nat);
        }
    }
    if offset as usize > buf.len() {
        return Err(ParseError::Io);
    }
    let mut verts: Vec<Vec3d> = Vec::new();
    let mut norms: Vec<Vec3d> = Vec::new();
    let ghost off = offset as int;
    assert(table == 20);
    proof {
        if good {
            lemma_blob_pos_mono(buf@, off, 0, num_verts as nat);
        }
    }
    let mut p: usize = offset as usize;
    let mut i: u32 = 0;
    while i < num_verts
        invariant
            i <= num_verts,
            table == 20,
            off == u32_at(buf@, 16),
            good == bsp_data_fits(buf@),
            num_verts == u32_at(buf@, 8),
            size == u32_at(buf@, 4),
            good ==> blob_pos(buf@, off, num_verts as nat) <= buf@.len(),
            p <= buf@.len(),
            verts@.len() == i,
            norms@.len() == norms_before(buf@, i as nat),
            p == blob_pos(buf@, off, i as nat),
            table + num_verts <= buf@.len(),
            buf@.len() <= usize::MAX,
            u32_at(buf@, 0) == DEFFPOINTS,
            forall|k: int| 0 <= k < i ==> #[trigger] verts@[k] == vec3_at(buf@, blob_pos(buf@, off, k as nat)),
            forall|k: int, m: int| 0 <= k < i && 0 <= m < buf@[20 + k] ==> norms@[norms_before(buf@, k as nat) + m]
                == #[trigger] blob_normal(buf@, off, k as nat, m),
        decreases num_verts - i,
    {
        let count = buf[table + i as usize];
        proof {
            if good {
                lemma_blob_pos_mono(buf@, off, (i + 1) as nat, num_verts as nat);
            }
        }
        let v = vec3d_at(buf, p)?;
        verts.push(v);
        p = p + 12;
        let ghost base = norms_before(buf@, i as nat);
        let mut j: u8 = 0;
        while j < count
            invariant
                j <= count,
                i < num_verts,
                table == 20,
                count == buf@[20 + i],
                off == u32_at(buf@, 16),
                good == bsp_data_fits(buf@),
                num_verts == u32_at(buf@, 8),
                size == u32_at(buf@, 4),
                good ==> blob_pos(buf@, off, num_verts as nat) <= buf@.len(),
                p <= buf@.len(),
                good ==> blob_pos(buf@, off, (i + 1) as nat) <= buf@.len(),
                verts@.len() == i + 1,
                base == norms_before(buf@, i as nat),
                norms@.len() == base + j,
                p == blob_pos(buf@, off, i as nat) + 12 + 12 * j,
                table + num_verts <= buf@.len(),
                buf@.len() <= usize::MAX,
                u32_at(buf@, 0) == DEFFPOINTS,
                forall|k: int| 0 <= k <= i ==> #[trigger] verts@[k] == vec3_at(buf@, blob_pos(buf@, off, k as nat)),
                forall|k: int, m: int| 0 <= k < i && 0 <= m < buf@[20 + k] ==> norms@[norms_before(buf@, k as nat) + m]
                    == #[trigger] blob_normal(buf@, off, k as nat, m),
                forall|m: int| 0 <= m < j ==> norms@[base + m] == #[trigger] blob_normal(buf@, off, i as nat, m),
            decreases count - j,
        {
            let n = vec3d_at(buf, p)?;
            let ghost before = norms@;
            norms.push(n);
            proof {
                lemma_norms_before_grows(buf@, i as nat);
                assert forall|k: int, m: int| 0 <= k < i && 0 <= m < buf@[20 + k] implies norms@[norms_before(buf@, k as nat) + m]
                    == #[trigger] blob_normal(buf@, off, k as nat, m) by {
                    assert(norms_before(buf@, k as nat) + buf@[20 + k] <= base);
                    lemma_norms_before_nonneg(buf@, k as nat);
                    assert(norms@[norms_before(buf@, k as nat) + m] == before[norms_before(buf@, k as nat) + m]);
                }
                assert forall|m: int| 0 <= m < j + 1 implies norms@[base + m] == #[trigger] blob_normal(buf@, off, i as nat, m) by {
                    lemma_norms_before_nonneg(buf@, i as nat);
                    if m < j {
                        assert(norms@[base + m] == before[base + m]);
                    } else {
                        assert(norms@[base + m] == n);
                    }
                }
            }
            p = p + 12;
            j = j + 1;
        }
        proof {
            assert forall|k: int, m: int| 0 <= k < i + 1 && 0 <= m < buf@[20 + k] implies norms@[norms_before(buf@, k as nat) + m]
                == #[trigger] blob_normal(buf@, off, k as nat, m) by {
                if k == i {
                    assert(blob_normal(buf@, off, i as nat, m) == norms@[base + m]);
                }
            }
        }
        i = i + 1;
    }
    if norms.len() != num_norms as usize {
        return Err(ParseError::MalformedChunk);
    }
    if size as usize > buf.len() {
        return Err(ParseError::Io);
    }
    proof {
        if good {
            let w = choose|n: BspNode| #[trigger] bsp_node_decoded(buf@, u32_at(buf@, 4) as int, n) && bsp_fits(
                buf@,
                u32_at(buf@, 4) as int,
                n,
                u32_at(buf@, 8) as int,
                norms_before(buf@, u32_at(buf@, 8) as nat),
            );
            assert(bsp_node_decoded(buf@, size as int, w) && bsp_fits(buf@, size as int, w, verts@.len() as int, norms@.len() as int));
        }
    }
    let tree = parse_bsp_node(buf, size as usize, verts.len(), norms.len())?;
    proof {
        assert(bsp_node_decoded(buf@, u32_at(buf@, 4) as int, tree) && bsp_fits(
            buf@,
            u32_at(buf@, 4) as int,
            tree,
            u32_at(buf@, 8) as int,
            norms_before(buf@, u32_at(buf@, 8) as nat),
        ));
    }
    Ok(BspData { verts, norms, collision_tree: tree })
}

} // verus!
