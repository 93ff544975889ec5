//! Assembly of a model from a scene document that has already been read:
//! materials, per-node geometry, the shield mesh and the detail levels.
use vstd::prelude::*;
use crate::hierarchy::{children_of, hierarchy_wf, lemma_no_parents};
use crate::model::{
    polys_index_within, BBox, BspData, BspNode, Color, Mat3d, Model, NormalId, ObjHeader, ObjectId, ParseError,
    PolyVertex, Polygon, PolygonId, ShieldData, ShieldPolygon, SubObject, SubsysMovementAxis, SubsysMovementType,
    TextureId, Texturing, Vec3d, VertexId, flip_y_z, ONE_BITS,
};
use crate::names::{chars_of, has_prefix, ids_increasing, name_le, sort_by_name, starts_with};
use crate::pof::model_wf;

verus! {

/// A material: the id that primitives refer to, and its display name.
pub struct DaeMaterial {
    pub id: String,
    pub name: String,
}

#[derive(Clone, Copy, Debug, PartialEq, Eq, Structural)]
pub enum PrimitiveKind {
    PolyList,
    Triangles,
    Other,
}

/// One corner of a primitive: indices into the mesh's positions and the
/// primitive's normals, and a texture coordinate (bit patterns).
#[derive(Clone, Copy, Debug, PartialEq, Eq)]
pub struct DaeCorner {
    pub position: u32,
    pub normal: Option<u32>,
    pub uv: Option<(u32, u32)>,
}

/// A primitive block. Its normals are given in the node's local frame.
pub struct DaePrimitive {
    pub kind: PrimitiveKind,
    pub material: Option<String>,
    pub normals: Option<Vec<Vec3d>>,
    pub vcount: Vec<u32>,
    pub corners: Vec<DaeCorner>,
}

/// A mesh instance, its positions given in the node's local frame.
pub struct DaeMesh {
    pub positions: Vec<Vec3d>,
    pub primitives: Vec<DaePrimitive>,
}

/// A scene node: its name, the translation of its world transform, and its meshes.
pub struct DaeNode {
    pub name: String,
    pub center: Vec3d,
    pub meshes: Vec<DaeMesh>,
}

pub struct DaeScene {
    pub materials: Vec<DaeMaterial>,
    pub nodes: Vec<DaeNode>,
}

pub open spec fn debris_prefix() -> Seq<char> {
    seq!['d', 'e', 'b', 'r', 'i', 's']
}

pub open spec fn detail_prefix() -> Seq<char> {
    seq!['d', 'e', 't', 'a', 'i', 'l']
}

pub open spec fn shield_name() -> Seq<char> {
    seq!['s', 'h', 'i', 'e', 'l', 'd']
}

/// The position of the last material whose id is `key`.
pub open spec fn last_material(m: Seq<DaeMaterial>, key: Seq<char>) -> Option<int> {
    if exists|i: int| 0 <= i < m.len() && (#[trigger] m[i]).id@ == key {
        Some(choose|i: int| 0 <= i < m.len() && (#[trigger] m[i]).id@ == key
            && forall|j: int| i < j < m.len() ==> (#[trigger] m[j]).id@ != key)
    } else {
        None
    }
}

/// The texture id of the material named `key`: the position of the last
/// material with that id, in discovery order.
pub fn material_index(materials: &Vec<DaeMaterial>, key: &String) -> (r: Option<usize>)
    ensures
        r is None <==> forall|i: int| 0 <= i < materials@.len() ==> (#[trigger] materials@[i]).id@ != key@,
        r matches Some(i) ==> {
            &&& i < materials@.len()
            &&& materials@[i as int].id@ == key@
            &&& forall|j: int| i < j < materials@.len() ==> (#[trigger] materials@[j]).id@ != key@
        },
{
    let mut k: usize = materials.len();
    while k > 0
        invariant
            k <= materials@.len(),
            forall|j: int| k <= j < materials@.len() ==> (#[trigger] materials@[j]).id@ != key@,
        decreases k,
    {
        if materials[k - 1].id == *key {
            return Some(k - 1);
        }
        k = k - 1;
    }
    None
}

/// `t` is the texturing of a block with material `material`: flat black when it
/// names none, else the texture id of the last material with that id.
pub open spec fn texture_is(materials: Seq<DaeMaterial>, material: Option<String>, t: Texturing) -> bool {
    match material {
        None => t == Texturing::Flat(Color { red: 0, green: 0, blue: 0 }),
        Some(key) => exists|i: int|
            0 <= i < materials.len() && (#[trigger] materials[i]).id@ == key@ && t == Texturing::Texture(TextureId(i as u32))
                && forall|j: int| i < j < materials.len() ==> (#[trigger] materials[j]).id@ != key@,
    }
}

/// Texturing for a primitive: its material's texture id, or a flat black
/// when it names none. A material id that no material has is malformed.
fn texture_for(materials: &Vec<DaeMaterial>, material: &Option<String>) -> (r: Result<Texturing, ParseError>)
    ensures
        r matches Ok(t) ==> texture_is(materials@, *material, t),
        material is None ==> r == Ok::<Texturing, ParseError>(Texturing::Flat(Color { red: 0, green: 0, blue: 0 })),
        material matches Some(key) ==> (r is Ok <==> exists|i: int| 0 <= i < materials@.len() && (#[trigger] materials@[i]).id@ == key@),
{
    match material {
        None => Ok(Texturing::Flat(Color { red: 0, green: 0, blue: 0 })),
        Some(key) => match material_index(materials, key) {
            Some(i) => Ok(Texturing::Texture(TextureId(i as u32))),
            None => Err(ParseError::MalformedChunk),
        },
    }
}

/// Appends `src` to `out` with Y and Z swapped.
fn append_flipped(out: &mut Vec<Vec3d>, src: &Vec<Vec3d>)
    ensures
        final(out)@ == old(out)@ + src@.map_values(|v: Vec3d| v.swapped()),
{
    let ghost start = out@;
    let mut i: usize = 0;
    while i < src.len()
        invariant
            i <= src@.len(),
            out@ == start + src@.subrange(0, i as int).map_values(|v: Vec3d| v.swapped()),
        decreases src@.len() - i,
    {
        out.push(flip_y_z(src[i]));
        assert(src@.subrange(0, i + 1).map_values(|v: Vec3d| v.swapped()) =~= src@.subrange(0, i as int).map_values(
            |v: Vec3d| v.swapped(),
        ).push(src@[i as int].swapped()));
        i = i + 1;
    }
    assert(src@.subrange(0, src@.len() as int) =~= src@);
}

/// The vertex id of `c`, its normal id (zero when it has none), before narrowing.
pub open spec fn corner_ids(c: DaeCorner, voff: int, noff: int) -> (int, int) {
    (c.position + voff, match c.normal {
        Some(n) => n + noff,
        None => 0,
    })
}

/// Both ids of `c` fit in 16 bits and name an existing vertex and normal.
pub open spec fn corner_fits(c: DaeCorner, voff: int, noff: int, nv: int, nn: int) -> bool {
    let (vid, nid) = corner_ids(c, voff, noff);
    vid < nv && vid <= u16::MAX && nid < nn && nid <= u16::MAX
}

/// The polygon corner that `c` stands for.
pub open spec fn corner_of(c: DaeCorner, voff: int, noff: int) -> PolyVertex {
    let (vid, nid) = corner_ids(c, voff, noff);
    PolyVertex {
        vertex_id: VertexId(vid as u16),
        normal_id: NormalId(nid as u16),
        uv: match c.uv {
            Some(uv) => uv,
            None => (0u32, 0u32),
        },
    }
}

/// A polygon corner from a primitive corner, with the vertex and normal
/// offsets at which the primitive's sources begin. Fails with
/// `MalformedChunk` when an id does not fit, or names no vertex (of `nv`)
/// or normal (of `nn`).
pub fn make_corner(c: DaeCorner, voff: usize, noff: usize, nv: usize, nn: usize) -> (r: Result<PolyVertex, ParseError>)
    ensures
        r is Ok <==> corner_fits(c, voff as int, noff as int, nv as int, nn as int),
        r matches Ok(v) ==> v == corner_of(c, voff as int, noff as int),
{
    if c.position as usize > u16::MAX as usize || voff > u16::MAX as usize - c.position as usize {
        return Err(ParseError::MalformedChunk);
    }
    let vid = c.position as usize + voff;
    let nid: usize = match c.normal {
        Some(n) => {
            if n as usize > u16::MAX as usize || noff > u16::MAX as usize - n as usize {
                return Err(ParseError::MalformedChunk);
            }
            n as usize + noff
        },
        None => 0,
    };
    if vid >= nv || nid >= nn {
        return Err(ParseError::MalformedChunk);
    }
    let uv = match c.uv {
        Some(uv) => uv,
        None => (0u32, 0u32),
    };
    Ok(PolyVertex { vertex_id: VertexId(vid as u16), normal_id: NormalId(nid as u16), uv })
}

/// Every corner of `corners` has ids that fit and name an existing vertex and normal.
pub open spec fn corners_fit_all(corners: Seq<DaeCorner>, voff: int, noff: int, nv: int, nn: int) -> bool {
    forall|k: int| 0 <= k < corners.len() ==> corner_fits(#[trigger] corners[k], voff, noff, nv, nn)
}

/// The sum of the first `n` vertex counts.
pub open spec fn vcount_sum(v: Seq<u32>, n: int) -> int
    decreases n,
{
    if n <= 0 {
        0
    } else {
        vcount_sum(v, n - 1) + v[n - 1]
    }
}

proof fn lemma_vcount_sum_mono(v: Seq<u32>, i: int, j: int)
    requires
        0 <= i <= j,
    ensures
        vcount_sum(v, i) <= vcount_sum(v, j),
    decreases j,
{
    if i < j {
        lemma_vcount_sum_mono(v, i, j - 1);
    }
}

/// A primitive block decodes: its material exists, it has normals, every corner
/// fits, and its corners cover its polygons (vertex counts for a polygon list,
/// whole triangles for a triangle list). Other blocks always decode.
pub open spec fn prim_ok(p: DaePrimitive, materials: Seq<DaeMaterial>, voff: int, noff: int, nv: int, nn: int) -> bool {
    p.kind != PrimitiveKind::Other ==> {
        &&& p.material matches Some(key) ==> exists|i: int| 0 <= i < materials.len() && (#[trigger] materials[i]).id@ == key@
        &&& p.normals is Some
        &&& corners_fit_all(p.corners@, voff, noff, nv, nn)
        &&& p.kind == PrimitiveKind::PolyList ==> vcount_sum(p.vcount@, p.vcount@.len() as int) <= p.corners@.len()
        &&& p.kind == PrimitiveKind::Triangles ==> p.corners@.len() % 3 == 0
    }
}

/// How many vertices the first `g` meshes hold.
pub open spec fn verts_upto(meshes: Seq<DaeMesh>, g: int) -> int
    decreases g,
{
    if g <= 0 {
        0
    } else {
        verts_upto(meshes, g - 1) + meshes[g - 1].positions@.len()
    }
}

/// How many normals a primitive block adds.
pub open spec fn prim_normals(p: DaePrimitive) -> int {
    if p.kind != PrimitiveKind::Other && p.normals is Some {
        p.normals->Some_0@.len() as int
    } else {
        0
    }
}

/// How many normals come before primitive `q` of mesh `g`.
pub open spec fn norms_upto(meshes: Seq<DaeMesh>, g: int, q: int) -> int
    decreases g, q,
{
    if q <= 0 {
        if g <= 0 {
            0
        } else {
            norms_upto(meshes, g - 1, meshes[g - 1].primitives@.len() as int)
        }
    } else {
        norms_upto(meshes, g, q - 1) + prim_normals(meshes[g].primitives@[q - 1])
    }
}

/// The positions of the first `g` meshes, in order, with Y and Z swapped.
pub open spec fn mesh_verts(meshes: Seq<DaeMesh>, g: int) -> Seq<Vec3d>
    decreases g,
{
    if g <= 0 {
        seq![]
    } else {
        mesh_verts(meshes, g - 1) + meshes[g - 1].positions@.map_values(|v: Vec3d| v.swapped())
    }
}

/// How many polygons a primitive block gives.
pub open spec fn prim_poly_count(p: DaePrimitive) -> int {
    if p.kind == PrimitiveKind::PolyList {
        p.vcount@.len() as int
    } else if p.kind == PrimitiveKind::Triangles {
        (p.corners@.len() / 3) as int
    } else {
        0
    }
}

/// How many polygons come before primitive `q` of mesh `g`.
pub open spec fn polys_upto(meshes: Seq<DaeMesh>, g: int, q: int) -> int
    decreases g, q,
{
    if q <= 0 {
        if g <= 0 {
            0
        } else {
            polys_upto(meshes, g - 1, meshes[g - 1].primitives@.len() as int)
        }
    } else {
        polys_upto(meshes, g, q - 1) + prim_poly_count(meshes[g].primitives@[q - 1])
    }
}

/// The polygons of block `p`, from position `base` of `ps`: one per vertex
/// count (polygon list) or per three corners (triangle list), corners reversed
/// and shifted by the block's offsets, all with texturing `t`.
pub open spec fn block_polys(ps: Seq<Polygon>, base: int, p: DaePrimitive, voff: int, noff: int, t: Texturing) -> bool {
    forall|i: int|
        0 <= i < prim_poly_count(p) ==> {
            &&& (#[trigger] ps[base + i]).texture == t
            &&& p.kind == PrimitiveKind::PolyList ==> polygon_from(ps[base + i], p.corners@, vcount_sum(p.vcount@, i), p.vcount@[i] as int, voff, noff)
            &&& p.kind == PrimitiveKind::Triangles ==> polygon_from(ps[base + i], p.corners@, 3 * i, 3, voff, noff)
        }
}

/// Block `q` of mesh `g` has its polygons in `ps` (see `block_polys`), with its
/// texturing.
pub open spec fn block_done(m: Seq<DaeMesh>, materials: Seq<DaeMaterial>, ps: Seq<Polygon>, g: int, q: int) -> bool {
    let p = m[g].primitives@[q];
    &&& polys_upto(m, g, q) + prim_poly_count(p) <= ps.len()
    &&& p.kind != PrimitiveKind::Other ==> exists|t: Texturing|
        #[trigger] texture_is(materials, p.material, t) && block_polys(ps, polys_upto(m, g, q), p, verts_upto(m, g), norms_upto(m, g, q), t)
}

/// `ps` are the polygons of the node's meshes `m`, block by block.
pub open spec fn node_polys(m: Seq<DaeMesh>, materials: Seq<DaeMaterial>, ps: Seq<Polygon>) -> bool {
    &&& ps.len() == polys_upto(m, m.len() as int, 0)
    &&& forall|g: int, q: int| 0 <= g < m.len() && 0 <= q < m[g].primitives@.len() ==> #[trigger] block_done(m, materials, ps, g, q)
}

proof fn lemma_polys_upto_nonneg(m: Seq<DaeMesh>, g: int, q: int)
    ensures
        polys_upto(m, g, q) >= 0,
    decreases g, q,
{
    if q <= 0 {
        if g > 0 {
            lemma_polys_upto_nonneg(m, g - 1, m[g - 1].primitives@.len() as int);
        }
    } else {
        lemma_polys_upto_nonneg(m, g, q - 1);
    }
}

proof fn lemma_block_done_grow(m: Seq<DaeMesh>, materials: Seq<DaeMaterial>, ps: Seq<Polygon>, more: Seq<Polygon>, g: int, q: int)
    requires
        block_done(m, materials, ps, g, q),
    ensures
        block_done(m, materials, ps + more, g, q),
{
    let p = m[g].primitives@[q];
    let base = polys_upto(m, g, q);
    lemma_polys_upto_nonneg(m, g, q);
    if p.kind != PrimitiveKind::Other {
        let t = choose|t: Texturing|
            #[trigger] texture_is(materials, p.material, t) && block_polys(ps, base, p, verts_upto(m, g), norms_upto(m, g, q), t);
        assert(block_polys(ps + more, base, p, verts_upto(m, g), norms_upto(m, g, q), t)) by {
            assert forall|i: int| 0 <= i < prim_poly_count(p) implies #[trigger] (ps + more)[base + i] == ps[base + i] by {}
        }
    }
}

/// Every primitive block of the node decodes, with the offsets at which its
/// mesh's vertices and its own normals begin.
pub open spec fn node_ok(node: DaeNode, materials: Seq<DaeMaterial>) -> bool {
    let m = node.meshes@;
    forall|g: int, q: int|
        0 <= g < m.len() && 0 <= q < m[g].primitives@.len() ==> prim_ok(
            #[trigger] m[g].primitives@[q],
            materials,
            verts_upto(m, g),
            norms_upto(m, g, q),
            verts_upto(m, g + 1),
            norms_upto(m, g, q + 1),
        )
}

/// Every node decodes, and the subobjects are fewer than `u32::MAX`.
pub open spec fn scene_ok(scene: DaeScene) -> bool {
    &&& forall|i: int| 0 <= i < scene.nodes@.len() ==> node_ok(#[trigger] scene.nodes@[i], scene.materials@)
    &&& kept_nodes(scene.nodes@, scene.nodes@.len() as int).len() < u32::MAX
}

/// `p` holds the corners `start .. start + count` of `corners`, in reverse order,
/// with the block's vertex and normal offsets added.
pub open spec fn polygon_from(p: Polygon, corners: Seq<DaeCorner>, start: int, count: int, voff: int, noff: int) -> bool {
    &&& p.verts@.len() == count
    &&& forall|k: int| 0 <= k < count ==> #[trigger] p.verts@[k] == corner_of(corners[start + count - 1 - k], voff, noff)
}

/// The polygon made of corners `start .. start + count`, in reverse order:
/// the axis swap inverts the winding, and reversing restores it.
fn reversed_polygon(
    corners: &Vec<DaeCorner>,
    start: usize,
    count: usize,
    texture: Texturing,
    voff: usize,
    noff: usize,
    nv: usize,
    nn: usize,
) -> (r: Result<Polygon, ParseError>)
    requires
        start + count <= corners@.len(),
    ensures
        r matches Ok(p) ==> {
            &&& p.verts@.len() == count
            &&& p.texture == texture
            &&& forall|k: int| 0 <= k < count ==> #[trigger] p.verts@[k] == corner_of(corners@[start + count - 1 - k], voff as int, noff as int)
            &&& polys_index_within(seq![p], nv as nat, nn as nat)
        },
        (forall|k: int| start <= k < start + count ==> corner_fits(#[trigger] corners@[k], voff as int, noff as int, nv as int, nn as int))
            ==> r is Ok,
{
    let len = corners.len();
    let mut verts: Vec<PolyVertex> = Vec::new();
    let mut k: usize = 0;
    while k < count
        invariant
            len == corners@.len(),
            start + count <= corners@.len(),
            k <= count,
            verts@.len() == k,
            forall|m: int| 0 <= m < k ==> #[trigger] verts@[m] == corner_of(corners@[start + count - 1 - m], voff as int, noff as int),
            forall|m: int| 0 <= m < k ==> (#[trigger] verts@[m]).vertex_id.0 < nv && verts@[m].normal_id.0 < nn,
        decreases count - k,
    {
        proof {
            let idx = start + count - 1 - k;
            if forall|k: int| start <= k < start + count ==> corner_fits(#[trigger] corners@[k], voff as int, noff as int, nv as int, nn as int) {
                assert(corner_fits(corners@[idx], voff as int, noff as int, nv as int, nn as int));
            }
        }
        let v = make_corner(corners[start + count - 1 - k], voff, noff, nv, nn)?;
        verts.push(v);
        k = k + 1;
    }
    let p = Polygon { normal: Vec3d::zero(), center: Vec3d::zero(), radius: 0, texture, verts };
    assert(seq![p][0] == p);
    Ok(p)
}

/// The polygons of one primitive block: a polygon list is cut by its vertex
/// counts, a triangle list three corners at a time, and other blocks give none.
/// Running out of corners is malformed.
pub fn primitive_polygons(prim: &DaePrimitive, texture: Texturing, voff: usize, noff: usize, nv: usize, nn: usize) -> (r: Result<
    Vec<Polygon>,
    ParseError,
>)
    ensures
        r matches Ok(ps) ==> {
            &&& polys_index_within(ps@, nv as nat, nn as nat)
            &&& prim.kind == PrimitiveKind::PolyList ==> ps@.len() == prim.vcount@.len() && forall|i: int|
                0 <= i < ps@.len() ==> polygon_from(#[trigger] ps@[i], prim.corners@, vcount_sum(prim.vcount@, i), prim.vcount@[i] as int, voff as int, noff as int)
            &&& prim.kind == PrimitiveKind::Triangles ==> ps@.len() * 3 == prim.corners@.len() && forall|i: int|
                0 <= i < ps@.len() ==> polygon_from(#[trigger] ps@[i], prim.corners@, 3 * i, 3, voff as int, noff as int)
            &&& prim.kind == PrimitiveKind::Other ==> ps@.len() == 0
            &&& forall|i: int| 0 <= i < ps@.len() ==> (#[trigger] ps@[i]).texture == texture
        },
        ({
            &&& corners_fit_all(prim.corners@, voff as int, noff as int, nv as int, nn as int)
            &&& prim.kind == PrimitiveKind::PolyList ==> vcount_sum(prim.vcount@, prim.vcount@.len() as int) <= prim.corners@.len()
            &&& prim.kind == PrimitiveKind::Triangles ==> prim.corners@.len() % 3 == 0
        }) ==> r is Ok,
{
    let ghost good = corners_fit_all(prim.corners@, voff as int, noff as int, nv as int, nn as int)
        && (prim.kind == PrimitiveKind::PolyList ==> vcount_sum(prim.vcount@, prim.vcount@.len() as int) <= prim.corners@.len())
        && (prim.kind == PrimitiveKind::Triangles ==> prim.corners@.len() % 3 == 0);
    let corners = &prim.corners;
    let total = corners.len();
    let mut out: Vec<Polygon> = Vec::new();
    let mut next: usize = 0;
    if prim.kind == PrimitiveKind::PolyList {
        let mut i: usize = 0;
        while i < prim.vcount.len()
            invariant
                total == corners@.len(),
                total == prim.corners@.len(),
                corners@ == prim.corners@,
                prim.kind == PrimitiveKind::PolyList,
                good == (corners_fit_all(prim.corners@, voff as int, noff as int, nv as int, nn as int)
                    && (prim.kind == PrimitiveKind::PolyList ==> vcount_sum(prim.vcount@, prim.vcount@.len() as int) <= prim.corners@.len())
                    && (prim.kind == PrimitiveKind::Triangles ==> prim.corners@.len() % 3 == 0)),
                next <= total,
                i <= prim.vcount@.len(),
                out@.len() == i,
                next == vcount_sum(prim.vcount@, i as int),
                forall|m: int| 0 <= m < i ==> polygon_from(#[trigger] out@[m], prim.corners@, vcount_sum(prim.vcount@, m), prim.vcount@[m] as int, voff as int, noff as int),
                polys_index_within(out@, nv as nat, nn as nat),
                forall|m: int| 0 <= m < out@.len() ==> (#[trigger] out@[m]).texture == texture,
            decreases prim.vcount@.len() - i,
        {
            let n = prim.vcount[i] as usize;
            proof {
                if good {
                    lemma_vcount_sum_mono(prim.vcount@, i + 1, prim.vcount@.len() as int);
                }
            }
            if n > total - next {
                return Err(ParseError::MalformedChunk);
            }
            let p = reversed_polygon(corners, next, n, texture, voff, noff, nv, nn)?;
            proof {
                lemma_push_within(out@, p, nv as nat, nn as nat);
            }
            out.push(p);
            next = next + n;
            i = i + 1;
        }
    } else if prim.kind == PrimitiveKind::Triangles {
        while next < total
            invariant
                total == corners@.len(),
                total == prim.corners@.len(),
                corners@ == prim.corners@,
                prim.kind == PrimitiveKind::Triangles,
                good == (corners_fit_all(prim.corners@, voff as int, noff as int, nv as int, nn as int)
                    && (prim.kind == PrimitiveKind::PolyList ==> vcount_sum(prim.vcount@, prim.vcount@.len() as int) <= prim.corners@.len())
                    && (prim.kind == PrimitiveKind::Triangles ==> prim.corners@.len() % 3 == 0)),
                next <= total,
                out@.len() * 3 == next,
                forall|m: int| 0 <= m < out@.len() ==> polygon_from(#[trigger] out@[m], prim.corners@, 3 * m, 3, voff as int, noff as int),
                polys_index_within(out@, nv as nat, nn as nat),
                forall|m: int| 0 <= m < out@.len() ==> (#[trigger] out@[m]).texture == texture,
            decreases total - next,
        {
            proof {
                if good {
                    let a = out@.len() as int;
                    assert(total - next >= 3) by (nonlinear_arith)
                        requires
                            total % 3 == 0,
                            a * 3 == next,
                            next < total,
                    ;
                }
            }
            if total - next < 3 {
                return Err(ParseError::MalformedChunk);
            }
            let p = reversed_polygon(corners, next, 3, texture, voff, noff, nv, nn)?;
            proof {
                lemma_push_within(out@, p, nv as nat, nn as nat);
            }
            out.push(p);
            next = next + 3;
        }
    }
    Ok(out)
}

proof fn lemma_push_within(a: Seq<Polygon>, p: Polygon, nv: nat, nn: nat)
    requires
        polys_index_within(a, nv, nn),
        polys_index_within(seq![p], nv, nn),
    ensures
        polys_index_within(a.push(p), nv, nn),
{
    assert forall|i: int, j: int| 0 <= i < a.push(p).len() && 0 <= j < a.push(p)[i].verts@.len() implies {
        &&& (#[trigger] a.push(p)[i].verts@[j]).vertex_id.0 < nv
        &&& a.push(p)[i].verts@[j].normal_id.0 < nn
    } by {
        if i == a.len() {
            assert(seq![p][0] == p);
            assert(seq![p][0].verts@[j] == p.verts@[j]);
        } else {
            assert(a.push(p)[i] == a[i]);
        }
    }
}

/// Polygons whose ids are below `nv` and `nn` stay so when the bounds grow.
proof fn lemma_polys_within_grow(p: Seq<Polygon>, nv: nat, nn: nat, nv2: nat, nn2: nat)
    requires
        polys_index_within(p, nv, nn),
        nv <= nv2,
        nn <= nn2,
    ensures
        polys_index_within(p, nv2, nn2),
{
}

/// The vertices, normals and polygons of a node, over all its meshes and
/// primitive blocks, with indices made dense over the combined buffers.
/// A polygon-list or triangle block without normals is malformed.
pub fn node_geometry(node: &DaeNode, materials: &Vec<DaeMaterial>) -> (r: Result<(Vec<Vec3d>, Vec<Vec3d>, Vec<Polygon>), ParseError>)
    ensures
        r matches Ok((v, n, p)) ==> polys_index_within(p@, v@.len(), n@.len()),
        r matches Ok((v, n, p)) ==> v@ == mesh_verts(node.meshes@, node.meshes@.len() as int),
        r matches Ok((v, n, p)) ==> node_polys(node.meshes@, materials@, p@),
        node_ok(*node, materials@) ==> r is Ok,
{
    let ghost good = node_ok(*node, materials@);
    let ghost m = node.meshes@;
    let mut verts: Vec<Vec3d> = Vec::new();
    let mut norms: Vec<Vec3d> = Vec::new();
    let mut polys: Vec<Polygon> = Vec::new();
    let mut g: usize = 0;
    while g < node.meshes.len()
        invariant
            g <= node.meshes@.len(),
            m == node.meshes@,
            good == node_ok(*node, materials@),
            verts@ == mesh_verts(m, g as int),
            verts@.len() == verts_upto(m, g as int),
            norms@.len() == norms_upto(m, g as int, 0),
            polys@.len() == polys_upto(m, g as int, 0),
            forall|g2: int, q2: int| 0 <= g2 < g && 0 <= q2 < m[g2].primitives@.len() ==> #[trigger] block_done(m, materials@, polys@, g2, q2),
            polys_index_within(polys@, verts@.len(), norms@.len()),
        decreases node.meshes@.len() - g,
    {
        let mesh = &node.meshes[g];
        let voff = verts.len();
        append_flipped(&mut verts, &mesh.positions);
        assert(norms@.len() == norms_upto(m, g as int, 0));
        let mut q: usize = 0;
        while q < mesh.primitives.len()
            invariant
                q <= mesh.primitives@.len(),
                g < m.len(),
                m == node.meshes@,
                *mesh == m[g as int],
                good == node_ok(*node, materials@),
                voff == verts_upto(m, g as int),
                verts@ == mesh_verts(m, g + 1),
                verts@.len() == verts_upto(m, g + 1),
                norms@.len() == norms_upto(m, g as int, q as int),
                polys@.len() == polys_upto(m, g as int, q as int),
                forall|g2: int, q2: int| 0 <= g2 < m.len() && 0 <= q2 < m[g2].primitives@.len() && (g2 < g || (g2 == g && q2 < q))
                    ==> #[trigger] block_done(m, materials@, polys@, g2, q2),
                polys_index_within(polys@, verts@.len(), norms@.len()),
            decreases mesh.primitives@.len() - q,
        {
            let prim = &mesh.primitives[q];
            proof {
                if good {
                    assert(prim_ok(
                        m[g as int].primitives@[q as int],
                        materials@,
                        verts_upto(m, g as int),
                        norms_upto(m, g as int, q as int),
                        verts_upto(m, g + 1),
                        norms_upto(m, g as int, q + 1),
                    ));
                }
            }
            if prim.kind != PrimitiveKind::Other {
                let texture = texture_for(materials, &prim.material)?;
                let normals = match &prim.normals {
                    Some(n) => n,
                    None => return Err(ParseError::MalformedChunk),
                };
                let noff = norms.len();
                append_flipped(&mut norms, normals);
                proof {
                    lemma_polys_within_grow(polys@, verts@.len(), noff as nat, verts@.len(), norms@.len());
                }
                let mut more = primitive_polygons(prim, texture, voff, noff, verts.len(), norms.len())?;
                let ghost before = polys@;
                let ghost added = more@;
                polys.append(&mut more);
                proof {
                    let base = before.len() as int;
                    let p = m[g as int].primitives@[q as int];
                    assert(polys@ == before + added);
                    if p.kind == PrimitiveKind::Triangles {
                        assert(added.len() == p.corners@.len() / 3);
                    }
                    assert(added.len() == prim_poly_count(p));
                    assert forall|g2: int, q2: int| 0 <= g2 < m.len() && 0 <= q2 < m[g2].primitives@.len() && (g2 < g || (g2 == g
                        && q2 < q)) implies #[trigger] block_done(m, materials@, polys@, g2, q2) by {
                        lemma_block_done_grow(m, materials@, before, added, g2, q2);
                    }
                    assert(block_polys(polys@, base, p, verts_upto(m, g as int), norms_upto(m, g as int, q as int), texture)) by {
                        assert forall|i: int| 0 <= i < prim_poly_count(p) implies #[trigger] polys@[base + i] == added[i] by {}
                    }
                    assert(texture_is(materials@, p.material, texture));
                    assert(block_done(m, materials@, polys@, g as int, q as int));
                    assert forall|i: int, j: int|
                        0 <= i < polys@.len() && 0 <= j < polys@[i].verts@.len() implies {
                        &&& (#[trigger] polys@[i].verts@[j]).vertex_id.0 < verts@.len()
                        &&& polys@[i].verts@[j].normal_id.0 < norms@.len()
                    } by {
                        if i >= before.len() {
                            assert(polys@[i] == added[i - before.len()]);
                        }
                    }
                }
            }
            q = q + 1;
        }
        proof {
            lemma_polys_within_grow(polys@, verts@.len(), norms@.len(), verts@.len(), norms@.len());
            assert(norms_upto(m, g + 1, 0) == norms_upto(m, g as int, m[g as int].primitives@.len() as int));
        }
        g = g + 1;
    }
    Ok((verts, norms, polys))
}

/// The triangles of a polygon taken as a fan: vertex 0 with each pair of
/// successive remaining vertices.
pub open spec fn poly_fan(v: Seq<PolyVertex>) -> Seq<(VertexId, VertexId, VertexId)> {
    if v.len() < 3 {
        seq![]
    } else {
        Seq::new((v.len() - 2) as nat, |k: int| (v[0].vertex_id, v[k + 1].vertex_id, v[k + 2].vertex_id))
    }
}

/// The fan triangles of the first `n` polygons, in order.
pub open spec fn fan_upto(p: Seq<Polygon>, n: int) -> Seq<(VertexId, VertexId, VertexId)>
    decreases n,
{
    if n <= 0 {
        seq![]
    } else {
        fan_upto(p, n - 1) + poly_fan(p[n - 1].verts@)
    }
}

/// The shield polygons of a fan triangulation: their corners, in order. Their
/// normals and neighbors are left zero: a normal takes floating point to compute.
pub fn fan_triangles(polys: &Vec<Polygon>) -> (r: Vec<ShieldPolygon>)
    ensures
        r@.map_values(|s: ShieldPolygon| s.verts) == fan_upto(polys@, polys@.len() as int),
        forall|i: int| 0 <= i < r@.len() ==> (#[trigger] r@[i]).normal == (Vec3d { x: 0, y: 0, z: 0 }) && r@[i].neighbors == (
            PolygonId(0),
            PolygonId(0),
            PolygonId(0),
        ),
{
    let mut out: Vec<ShieldPolygon> = Vec::new();
    let mut i: usize = 0;
    while i < polys.len()
        invariant
            i <= polys@.len(),
            out@.map_values(|s: ShieldPolygon| s.verts) == fan_upto(polys@, i as int),
            forall|m: int| 0 <= m < out@.len() ==> (#[trigger] out@[m]).normal == (Vec3d { x: 0, y: 0, z: 0 }) && out@[m].neighbors == (
                PolygonId(0),
                PolygonId(0),
                PolygonId(0),
            ),
        decreases polys@.len() - i,
    {
        let verts = &polys[i].verts;
        let ghost base = out@.map_values(|s: ShieldPolygon| s.verts);
        let n = verts.len();
        if n >= 3 {
            let mut k: usize = 0;
            while k + 2 < n
                invariant
                    n == verts@.len(),
                    n >= 3,
                    k + 2 <= n,
                    verts@ == polys@[i as int].verts@,
                    out@.map_values(|s: ShieldPolygon| s.verts) == base + poly_fan(verts@).subrange(0, k as int),
                    forall|m: int| 0 <= m < out@.len() ==> (#[trigger] out@[m]).normal == (Vec3d { x: 0, y: 0, z: 0 }) && out@[m].neighbors
                        == (PolygonId(0), PolygonId(0), PolygonId(0)),
                decreases n - k,
            {
                let tri = (verts[0].vertex_id, verts[k + 1].vertex_id, verts[k + 2].vertex_id);
                let ghost before = out@;
                out.push(ShieldPolygon { normal: Vec3d::zero(), verts: tri, neighbors: (PolygonId(0), PolygonId(0), PolygonId(0)) });
                assert(out@.map_values(|s: ShieldPolygon| s.verts) =~= before.map_values(|s: ShieldPolygon| s.verts).push(tri));
                assert(poly_fan(verts@).subrange(0, k + 1) =~= poly_fan(verts@).subrange(0, k as int).push(tri));
                k = k + 1;
            }
            assert(poly_fan(verts@).subrange(0, k as int) =~= poly_fan(verts@));
        } else {
            assert(poly_fan(verts@) =~= Seq::<(VertexId, VertexId, VertexId)>::empty());
            assert(base + poly_fan(verts@) =~= base);
        }
        i = i + 1;
    }
    out
}

/// The nodes among the first `n` of `nodes` that become subobjects: all but
/// those named `shield`, in order.
pub open spec fn kept_nodes(nodes: Seq<DaeNode>, n: int) -> Seq<DaeNode>
    decreases n,
{
    if n <= 0 {
        seq![]
    } else if nodes[n - 1].name@ == shield_name() {
        kept_nodes(nodes, n - 1)
    } else {
        kept_nodes(nodes, n - 1).push(nodes[n - 1])
    }
}

proof fn lemma_kept_len_mono(nodes: Seq<DaeNode>, i: int, j: int)
    requires
        0 <= i <= j,
    ensures
        kept_nodes(nodes, i).len() <= kept_nodes(nodes, j).len(),
    decreases j,
{
    if i < j {
        lemma_kept_len_mono(nodes, i, j - 1);
    }
}

/// `t` is the single leaf of a node's subobject: a zero box holding the node's polygons.
pub open spec fn leaf_of(t: BspNode, node: DaeNode, materials: Seq<DaeMaterial>) -> bool {
    t matches BspNode::Leaf { bbox, poly_list } && bbox == (BBox { min: Vec3d { x: 0, y: 0, z: 0 }, max: Vec3d { x: 0, y: 0, z: 0 } })
        && node_polys(node.meshes@, materials, poly_list@)
}

/// `sd` is the shield mesh of `node`: its vertices, and the fan triangles of
/// its polygons, with zero normals and neighbors and no tree.
pub open spec fn shield_of(sd: ShieldData, node: DaeNode, materials: Seq<DaeMaterial>) -> bool {
    &&& sd.verts@ == mesh_verts(node.meshes@, node.meshes@.len() as int)
    &&& sd.collision_tree is None
    &&& exists|p: Seq<Polygon>|
        #[trigger] node_polys(node.meshes@, materials, p) && sd.polygons@.map_values(|s: ShieldPolygon| s.verts) == fan_upto(p, p.len() as int)
    &&& forall|i: int| 0 <= i < sd.polygons@.len() ==> (#[trigger] sd.polygons@[i]).normal == (Vec3d { x: 0, y: 0, z: 0 })
        && sd.polygons@[i].neighbors == (PolygonId(0), PolygonId(0), PolygonId(0))
}

/// The detail levels of `m` name subobjects whose names start with `detail`,
/// in ascending order of those names.
pub open spec fn details_sorted(m: Model) -> bool {
    let s = m.sub_objects@;
    let d = m.header.detail_levels@;
    &&& forall|k: int| 0 <= k < d.len() ==> (#[trigger] d[k]).0 < s.len() && has_prefix(s[d[k].0 as int].name@, detail_prefix())
    &&& forall|i: int, j: int| 0 <= i < j < d.len() ==> name_le(s[(#[trigger] d[i]).0 as int].name@, s[(#[trigger] d[j]).0 as int].name@)
    &&& forall|i: int, j: int| 0 <= i < j < d.len() && s[(#[trigger] d[i]).0 as int].name@ == s[(#[trigger] d[j]).0 as int].name@
        ==> d[i].0 < d[j].0
    &&& forall|i: int, j: int| 0 <= i < d.len() && 0 <= j < d.len() && i != j ==> (#[trigger] d[i]) != (#[trigger] d[j])
    &&& forall|k: int| 0 <= k < s.len() && has_prefix((#[trigger] s[k]).name@, detail_prefix()) ==> d.contains(ObjectId(k as u32))
}

/// Builds a model from a scene: textures are the material names in order; each
/// node named `shield` gives the shield mesh (the last one wins), and every
/// other node a subobject whose polygons form a single leaf. A subobject is
/// debris exactly when its name starts with `debris`; those whose names start
/// with `detail` are the detail levels, in ascending order of name.
pub fn import_dae(scene: &DaeScene) -> (r: Result<Model, ParseError>)
    ensures
        r matches Ok(m) ==> {
            &&& model_wf(m)
            &&& details_sorted(m)
            &&& forall|i: int| 0 <= i < m.sub_objects@.len() ==> (#[trigger] m.sub_objects@[i]).is_debris_model == has_prefix(
                m.sub_objects@[i].name@,
                debris_prefix(),
            )
            &&& m.sub_objects@.len() == kept_nodes(scene.nodes@, scene.nodes@.len() as int).len()
            &&& forall|i: int| 0 <= i < m.sub_objects@.len() ==> {
                let node = kept_nodes(scene.nodes@, scene.nodes@.len() as int)[i];
                &&& (#[trigger] m.sub_objects@[i]).name@ == node.name@
                &&& m.sub_objects@[i].offset == node.center.swapped()
            }
            &&& m.textures@.len() == scene.materials@.len()
            &&& forall|i: int| 0 <= i < m.textures@.len() ==> (#[trigger] m.textures@[i])@ == scene.materials@[i].name@
            &&& m.header.max_radius == ONE_BITS
            &&& m.header.num_subobjects == m.sub_objects@.len()
            &&& m.shield_data matches Some(sd) ==> exists|j: int|
                0 <= j < scene.nodes@.len() && (#[trigger] scene.nodes@[j]).name@ == shield_name() && shield_of(sd, scene.nodes@[j], scene.materials@)
            &&& forall|i: int| 0 <= i < m.sub_objects@.len() ==> {
                let s = #[trigger] m.sub_objects@[i];
                let node = kept_nodes(scene.nodes@, scene.nodes@.len() as int)[i];
                &&& s.parent is None
                &&& s.children@.len() == 0
                &&& s.bsp_data.verts@ == mesh_verts(node.meshes@, node.meshes@.len() as int)
                &&& leaf_of(s.bsp_data.collision_tree, node, scene.materials@)
            }
            &&& m.header.obj_flags == 0 && m.header.mass == 0
            &&& m.header.bounding_box == (BBox { min: Vec3d { x: 0, y: 0, z: 0 }, max: Vec3d { x: 0, y: 0, z: 0 } })
            &&& m.header.center_of_mass == (Vec3d { x: 0, y: 0, z: 0 })
            &&& m.header.moment_of_inertia == (Mat3d {
                rvec: Vec3d { x: 0, y: 0, z: 0 },
                uvec: Vec3d { x: 0, y: 0, z: 0 },
                fvec: Vec3d { x: 0, y: 0, z: 0 },
            })
            &&& m.auto_center == (Vec3d { x: 0, y: 0, z: 0 })
            &&& m.header.cross_sections@.len() == 0 && m.header.bsp_lights@.len() == 0
            &&& m.paths@.len() == 0 && m.special_points@.len() == 0 && m.eye_points@.len() == 0
            &&& m.primary_weps@.len() == 0 && m.secondary_weps@.len() == 0 && m.turrets@.len() == 0
            &&& m.thruster_banks@.len() == 0 && m.glow_banks@.len() == 0 && m.docking_bays@.len() == 0
            &&& m.insignias@.len() == 0 && m.comments@.len() == 0
        },
        scene_ok(*scene) ==> r is Ok,
{
    let ghost good = scene_ok(*scene);
    let mut textures: Vec<String> = Vec::new();
    let mut t: usize = 0;
    while t < scene.materials.len()
        invariant
            t <= scene.materials@.len(),
            textures@.len() == t,
            forall|i: int| 0 <= i < t ==> (#[trigger] textures@[i])@ == scene.materials@[i].name@,
        decreases scene.materials@.len() - t,
    {
        textures.push(scene.materials[t].name.clone());
        t = t + 1;
    }
    let debris: Vec<char> = vec!['d', 'e', 'b', 'r', 'i', 's'];
    let detail: Vec<char> = vec!['d', 'e', 't', 'a', 'i', 'l'];
    let shield: Vec<char> = vec!['s', 'h', 'i', 'e', 'l', 'd'];
    assert(debris@ == debris_prefix());
    assert(detail@ == detail_prefix());
    assert(shield@ == shield_name());
    let mut sub_objects: Vec<SubObject> = Vec::new();
    let mut details: Vec<(Vec<char>, ObjectId)> = Vec::new();
    let mut shield_data: Option<ShieldData> = None;
    let mut i: usize = 0;
    while i < scene.nodes.len()
        invariant
            i <= scene.nodes@.len(),
            debris@ == debris_prefix(),
            detail@ == detail_prefix(),
            shield@ == shield_name(),
            sub_objects@.len() <= i,
            sub_objects@.len() <= u32::MAX,
            sub_objects@.len() == kept_nodes(scene.nodes@, i as int).len(),
            forall|k: int| 0 <= k < sub_objects@.len() ==> {
                let node = kept_nodes(scene.nodes@, i as int)[k];
                &&& (#[trigger] sub_objects@[k]).name@ == node.name@
                &&& sub_objects@[k].offset == node.center.swapped()
                &&& sub_objects@[k].bsp_data.verts@ == mesh_verts(node.meshes@, node.meshes@.len() as int)
                &&& leaf_of(sub_objects@[k].bsp_data.collision_tree, node, scene.materials@)
            },
            good == scene_ok(*scene),
            forall|k: int| 0 <= k < sub_objects@.len() ==> {
                let s = #[trigger] sub_objects@[k];
                &&& s.obj_id.0 == k
                &&& s.parent is None
                &&& s.children@.len() == 0
                &&& s.bsp_data.wf()
                &&& s.is_debris_model == has_prefix(s.name@, debris_prefix())
                &&& s.name@ != shield_name()
            },
            ids_increasing(details@),
            forall|k: int| 0 <= k < sub_objects@.len() && has_prefix((#[trigger] sub_objects@[k]).name@, detail_prefix())
                ==> exists|l: int| 0 <= l < details@.len() && (#[trigger] details@[l]).1 == ObjectId(k as u32),
            forall|k: int| 0 <= k < details@.len() ==> {
                let d = #[trigger] details@[k];
                &&& d.1.0 < sub_objects@.len()
                &&& sub_objects@[d.1.0 as int].name@ == d.0@
                &&& has_prefix(d.0@, detail_prefix())
            },
            shield_data matches Some(sd) ==> exists|j: int|
                0 <= j < scene.nodes@.len() && (#[trigger] scene.nodes@[j]).name@ == shield_name() && shield_of(sd, scene.nodes@[j], scene.materials@),
        decreases scene.nodes@.len() - i,
    {
        let node = &scene.nodes[i];
        let name = chars_of(&node.name);
        proof {
            if good {
                assert(node_ok(scene.nodes@[i as int], scene.materials@));
            }
        }
        let (verts, norms, polys) = node_geometry(node, &scene.materials)?;
        if name.len() == shield.len() && starts_with(&name, &shield) {
            let polygons = fan_triangles(&polys);
            let ghost pp = polys@;
            shield_data = Some(ShieldData { verts, polygons, collision_tree: None });
            assert(name@ =~= shield_name());
            proof {
                let sd = shield_data->Some_0;
                assert(node_polys(scene.nodes@[i as int].meshes@, scene.materials@, pp));
                assert(shield_of(sd, scene.nodes@[i as int], scene.materials@));
            }
            assert(kept_nodes(scene.nodes@, i + 1) == kept_nodes(scene.nodes@, i as int));
        } else {
            assert(name@ != shield_name()) by {
                if name@ == shield_name() {
                    assert(name@.subrange(0, 6) =~= name@);
                }
            }
            let id = sub_objects.len();
            proof {
                if good {
                    lemma_kept_len_mono(scene.nodes@, i + 1, scene.nodes@.len() as int);
                    assert(kept_nodes(scene.nodes@, i + 1) == kept_nodes(scene.nodes@, i as int).push(scene.nodes@[i as int]));
                }
            }
            if id >= u32::MAX as usize {
                return Err(ParseError::MalformedChunk);
            }
            let is_debris = starts_with(&name, &debris);
            let ghost staged_before = details@;
            if starts_with(&name, &detail) {
                details.push((chars_of(&node.name), ObjectId(id as u32)));
                proof {
                    assert forall|a: int, b: int| 0 <= a < b < details@.len() implies (#[trigger] details@[a]).1.0 < (
                    #[trigger] details@[b]).1.0 by {
                        if b < staged_before.len() {
                            assert(details@[a] == staged_before[a] && details@[b] == staged_before[b]);
                        } else {
                            assert(details@[a] == staged_before[a]);
                        }
                    }
                    assert(details@[staged_before.len() as int].1 == ObjectId(id as u32));
                }
            }
            proof {
                assert forall|l: int| 0 <= l < staged_before.len() implies #[trigger] details@[l] == staged_before[l] by {}
            }
            let leaf = BspNode::Leaf { bbox: BBox::zero(), poly_list: polys };
            let sub = SubObject {
                obj_id: ObjectId(id as u32),
                radius: 0,
                parent: None,
                offset: flip_y_z(node.center),
                geo_center: Vec3d::zero(),
                bbox: BBox::zero(),
                name: node.name.clone(),
                properties: String::new(),
                movement_type: SubsysMovementType::NONE,
                movement_axis: SubsysMovementAxis::NONE,
                bsp_data: BspData { verts, norms, collision_tree: leaf },
                children: Vec::new(),
                is_debris_model: is_debris,
            };
            let ghost prev = sub_objects@;
            sub_objects.push(sub);
            proof {
                assert forall|k: int| 0 <= k < sub_objects@.len() && has_prefix((#[trigger] sub_objects@[k]).name@, detail_prefix())
                    implies exists|l: int| 0 <= l < details@.len() && (#[trigger] details@[l]).1 == ObjectId(k as u32) by {
                    if k < prev.len() {
                        assert(sub_objects@[k] == prev[k]);
                        let l = choose|l: int| 0 <= l < staged_before.len() && (#[trigger] staged_before[l]).1 == ObjectId(k as u32);
                        assert(details@[l] == staged_before[l]);
                    } else {
                        assert(sub_objects@[k].name@ == name@);
                        assert(details@[staged_before.len() as int].1 == ObjectId(k as u32));
                    }
                }
                let kept = kept_nodes(scene.nodes@, i + 1);
                assert(kept == kept_nodes(scene.nodes@, i as int).push(scene.nodes@[i as int]));
                assert forall|k: int| 0 <= k < sub_objects@.len() implies {
                    let node = kept[k];
                    &&& (#[trigger] sub_objects@[k]).name@ == node.name@
                    &&& sub_objects@[k].offset == node.center.swapped()
                    &&& sub_objects@[k].bsp_data.verts@ == mesh_verts(node.meshes@, node.meshes@.len() as int)
                    &&& leaf_of(sub_objects@[k].bsp_data.collision_tree, node, scene.materials@)
                } by {
                    if k < prev.len() {
                        assert(sub_objects@[k] == prev[k]);
                    }
                }
            }
        }
        i = i + 1;
    }
    let ghost staged = details@;
    let sorted = sort_by_name(details);
    let mut detail_levels: Vec<ObjectId> = Vec::new();
    let mut k: usize = 0;
    while k < sorted.len()
        invariant
            k <= sorted@.len(),
            detail_levels@.len() == k,
            forall|m: int| 0 <= m < k ==> #[trigger] detail_levels@[m] == sorted@[m].1,
        decreases sorted@.len() - k,
    {
        detail_levels.push(sorted[k].1);
        k = k + 1;
    }
    proof {
        assert forall|m: int| 0 <= m < sorted@.len() implies {
            let d = #[trigger] sorted@[m];
            &&& d.1.0 < sub_objects@.len()
            &&& sub_objects@[d.1.0 as int].name@ == d.0@
            &&& has_prefix(d.0@, detail_prefix())
        } by {
            let d = sorted@[m];
            vstd::seq_lib::to_multiset_contains(sorted@, d);
            vstd::seq_lib::to_multiset_contains(staged, d);
            assert(sorted@.contains(d));
            let w = choose|w: int| 0 <= w < staged.len() && staged[w] == d;
            assert(staged[w] == d);
        }
        let s = sub_objects@;
        assert forall|p: int| 0 <= p < s.len() implies (#[trigger] s[p]).children@ == children_of(s, p as u32) by {
            lemma_no_parents(s, p as u32, s.len() as int);
        }
        assert(hierarchy_wf(s));
        let d = detail_levels@;
        assert forall|a: int, b: int| 0 <= a < b < d.len() implies name_le(s[(#[trigger] d[a]).0 as int].name@, s[(#[trigger] d[b]).0 as int].name@) by {
            assert(d[a] == sorted@[a].1 && d[b] == sorted@[b].1);
            assert(name_le(sorted@[a].0@, sorted@[b].0@));
        }
        assert forall|m: int| 0 <= m < d.len() implies (#[trigger] d[m]).0 < s.len() && has_prefix(s[d[m].0 as int].name@, detail_prefix()) by {
            assert(d[m] == sorted@[m].1);
        }
        assert forall|a: int, b: int| 0 <= a < b < d.len() && s[(#[trigger] d[a]).0 as int].name@ == s[(#[trigger] d[b]).0 as int].name@
            implies d[a].0 < d[b].0 by {
            assert(d[a] == sorted@[a].1 && d[b] == sorted@[b].1);
        }
        assert forall|a: int, b: int| 0 <= a < d.len() && 0 <= b < d.len() && a != b implies (#[trigger] d[a]) != (#[trigger] d[b]) by {
            assert(d[a] == sorted@[a].1 && d[b] == sorted@[b].1);
        }
        assert forall|k: int| 0 <= k < s.len() && has_prefix((#[trigger] s[k]).name@, detail_prefix()) implies d.contains(ObjectId(k as u32)) by {
            let l = choose|l: int| 0 <= l < staged.len() && (#[trigger] staged[l]).1 == ObjectId(k as u32);
            let e = staged[l];
            vstd::seq_lib::to_multiset_contains(staged, e);
            vstd::seq_lib::to_multiset_contains(sorted@, e);
            assert(staged.contains(e));
            let w = choose|w: int| 0 <= w < sorted@.len() && sorted@[w] == e;
            assert(d[w] == ObjectId(k as u32));
        }
    }
    let header = ObjHeader {
        max_radius: ONE_BITS,
        obj_flags: 0,
        num_subobjects: sub_objects.len() as u32,
        bounding_box: BBox::zero(),
        detail_levels,
        mass: 0,
        center_of_mass: Vec3d::zero(),
        moment_of_inertia: Mat3d { rvec: Vec3d::zero(), uvec: Vec3d::zero(), fvec: Vec3d::zero() },
        cross_sections: Vec::new(),
        bsp_lights: Vec::new(),
    };
    Ok(Model {
        header,
        sub_objects,
        textures,
        paths: Vec::new(),
        special_points: Vec::new(),
        eye_points: Vec::new(),
        primary_weps: Vec::new(),
        secondary_weps: Vec::new(),
        turrets: Vec::new(),
        thruster_banks: Vec::new(),
        glow_banks: Vec::new(),
        auto_center: Vec3d::zero(),
        comments: String::new(),
        docking_bays: Vec::new(),
        insignias: Vec::new(),
        shield_data,
    })
}

} // verus!
