//! The chunked, versioned model-file reader.
use vstd::prelude::*;
use vstd::utf8::{decode_utf8, valid_utf8};
use crate::bsp::{bbox_at, parse_bsp_data, vec3_at};
use crate::bytes::{i32_at, u32_at, u32_at_pos};
use crate::chunks::{count_id, lemma_count_push_all, next_chunk, scan_chunks, scan_result, walk};
use crate::hierarchy::{children_of, hierarchy_wf, ids_are_positions, link_subobjects, relinked};
use crate::model::{
    version_of, BBox, BspLight, BspLightKind, Dock, DockingPoint, EyePoint, GlowPoint, GlowPointBank,
    InsigVertex, Insignia, Mat3d, Model, ObjHeader, ObjectId, ParseError, Path, PathId, PathPoint, PolygonId,
    ShieldData, ShieldPolygon, SpecialPoint, SubObject, SubsysMovementAxis, SubsysMovementType, ThrusterBank,
    ThrusterGlow, Turret, Vec3d, Version, VertexId, WeaponHardpoint,
};
use crate::shield::{node_decoded, parse_shield_node};
use crate::text::{nul_end, text_before_nul};

verus! {

pub const HDR2: u32 = 0x3252_4448;
pub const OBJ2: u32 = 0x324a_424f;
pub const TXTR: u32 = 0x5254_5854;
pub const PATH: u32 = 0x4854_4150;
pub const SPCL: u32 = 0x4c43_5053;
pub const EYE: u32 = 0x2045_5945;
pub const GPNT: u32 = 0x544e_5047;
pub const MPNT: u32 = 0x544e_504d;
pub const TGUN: u32 = 0x4e55_4754;
pub const TMIS: u32 = 0x5349_4d54;
pub const FUEL: u32 = 0x4c45_5546;
pub const GLOW: u32 = 0x574f_4c47;
pub const ACEN: u32 = 0x4e45_4341;
pub const DOCK: u32 = 0x4b43_4f44;
pub const INSG: u32 = 0x4753_4e49;
pub const SHLD: u32 = 0x444c_4853;
pub const SLDC: u32 = 0x4344_4c53;
pub const SLC2: u32 = 0x3243_4c53;
pub const PINF: u32 = 0x464e_4950;

/// Every subobject's geometry is consistent and the hierarchy is well formed.
pub open spec fn model_wf(m: Model) -> bool {
    &&& hierarchy_wf(m.sub_objects@)
    &&& forall|i: int| 0 <= i < m.sub_objects@.len() ==> (#[trigger] m.sub_objects@[i]).bsp_data.wf()
}

/// The debris list of the header body at `p`: it follows the detail levels.
pub open spec fn header_debris(b: Seq<u8>, p: int) -> Seq<ObjectId> {
    let q = p + 40 + 4 * u32_at(b, p + 36);
    Seq::new(u32_at(b, q) as nat, |k: int| ObjectId(u32_at(b, q + 4 + 4 * k)))
}

/// `h` is the header whose body starts at `p`: radius, flags, subobject count,
/// box, detail levels, debris list, mass, center of mass, moment of inertia,
/// then the cross sections (a count of `u32::MAX` meaning none) and the lights.
#[verifier::opaque]
pub open spec fn header_at(b: Seq<u8>, p: int, h: ObjHeader) -> bool {
    let q = p + 40 + 4 * u32_at(b, p + 36);
    let t = q + 4 + 4 * u32_at(b, q);
    let raw = u32_at(b, t + 52);
    &&& h.max_radius == u32_at(b, p)
    &&& h.obj_flags == u32_at(b, p + 4)
    &&& h.num_subobjects == u32_at(b, p + 8)
    &&& h.bounding_box == bbox_at(b, p + 12)
    &&& h.detail_levels@.len() == u32_at(b, p + 36)
    &&& forall|k: int| 0 <= k < h.detail_levels@.len() ==> #[trigger] h.detail_levels@[k] == ObjectId(u32_at(b, p + 40 + 4 * k))
    &&& h.mass == u32_at(b, t)
    &&& h.center_of_mass == vec3_at(b, t + 4)
    &&& h.moment_of_inertia == (Mat3d { rvec: vec3_at(b, t + 16), uvec: vec3_at(b, t + 28), fvec: vec3_at(b, t + 40) })
    &&& h.cross_sections@.len() == if raw == u32::MAX { 0 } else { raw }
    &&& forall|k: int| 0 <= k < h.cross_sections@.len() ==> #[trigger] h.cross_sections@[k] == (u32_at(b, t + 56 + 8 * k), u32_at(
        b,
        t + 60 + 8 * k,
    ))
    &&& lights_at(b, t + 56 + 8 * h.cross_sections@.len(), h.bsp_lights@)
}

/// `lights` is the light list whose count is at `l`: each a location, then a
/// kind code, 1 for a muzzle and 2 for a thruster.
pub open spec fn lights_at(b: Seq<u8>, l: int, lights: Seq<BspLight>) -> bool {
    &&& lights.len() == u32_at(b, l)
    &&& forall|k: int| 0 <= k < lights.len() ==> {
        let code = u32_at(b, l + 16 + 16 * k);
        &&& (#[trigger] lights[k]).location == vec3_at(b, l + 4 + 16 * k)
        &&& (code == 1 || code == 2)
        &&& lights[k].kind == if code == 1 { BspLightKind::Muzzle } else { BspLightKind::Thruster }
    }
}

/// Every hardpoint of every bank has a zero offset.
pub open spec fn offsets_zero(banks: Seq<Vec<WeaponHardpoint>>) -> bool {
    forall|a: int, k: int| 0 <= a < banks.len() && 0 <= k < banks[a]@.len() ==> (#[trigger] banks[a]@[k]).offset == 0
}

/// `s` is the shield polygon at `p`: its normal, three vertex ids, then three neighbor ids.
pub open spec fn shield_polygon_at(b: Seq<u8>, p: int, s: ShieldPolygon) -> bool {
    &&& s.normal == vec3_at(b, p)
    &&& s.verts.0.0 == u32_at(b, p + 12) && s.verts.1.0 == u32_at(b, p + 16) && s.verts.2.0 == u32_at(b, p + 20)
    &&& s.neighbors == (PolygonId(u32_at(b, p + 24)), PolygonId(u32_at(b, p + 28)), PolygonId(u32_at(b, p + 32)))
}

/// The shield mesh whose body starts at `p`: a list of vertices, then a list of polygons.
pub open spec fn shield_mesh_at(b: Seq<u8>, p: int, verts: Seq<Vec3d>, polys: Seq<ShieldPolygon>) -> bool {
    let q = p + 4 + 12 * u32_at(b, p);
    &&& verts.len() == u32_at(b, p)
    &&& forall|k: int| 0 <= k < verts.len() ==> #[trigger] verts[k] == vec3_at(b, p + 4 + 12 * k)
    &&& polys.len() == u32_at(b, q)
    &&& forall|k: int| 0 <= k < polys.len() ==> shield_polygon_at(b, q + 4 + 36 * k, #[trigger] polys[k])
}

/// A shield-tree chunk id that version `v` accepts: `SLDC` always, `SLC2` from `V22_00` on.
pub open spec fn tree_chunk_ok(id: u32, v: Version) -> bool {
    id == SLDC || (id == SLC2 && v.rank() >= Version::V22_00.rank())
}

/// The byte buffer whose length prefix is at `p`.
pub open spec fn buffer_at(b: Seq<u8>, p: int) -> Seq<u8> {
    b.subrange(p + 4, p + 4 + u32_at(b, p))
}

/// Whether the chunk id `id` is one the reader decodes.
pub open spec fn recognized(id: u32) -> bool {
    id == HDR2 || id == OBJ2 || id == TXTR || id == PATH || id == SPCL || id == EYE || id == GPNT || id == MPNT || id == TGUN
        || id == TMIS || id == FUEL || id == GLOW || id == ACEN || id == DOCK || id == INSG || id == SHLD || id == SLDC || id
        == SLC2 || id == PINF
}

fn or_empty<T>(o: Option<Vec<T>>) -> (r: Vec<T>)
    ensures
        o matches Some(v) ==> r == v,
        o is None ==> r@.len() == 0,
{
    match o {
        Some(v) => v,
        None => Vec::new(),
    }
}

/// The magic `PSPO` that opens every model file.
pub open spec fn magic() -> Seq<u8> {
    seq![0x50u8, 0x53u8, 0x50u8, 0x4fu8]
}

/// A reader over the bytes of a model file, past its magic and version.
pub struct Parser {
    data: Vec<u8>,
    pos: usize,
    version: Version,
}

impl Parser {
    /// The whole input.
    pub closed spec fn bytes(&self) -> Seq<u8> {
        self.data@
    }

    /// How far the input has been read.
    pub closed spec fn cursor(&self) -> int {
        self.pos as int
    }

    /// The format version read from the input.
    pub closed spec fn file_version(&self) -> Version {
        self.version
    }

    pub closed spec fn wf(&self) -> bool {
        self.pos <= self.data@.len()
    }

    /// `self` reads the same input, at the same version, as `o`.
    spec fn keeps(&self, o: Parser) -> bool {
        &&& self.wf()
        &&& self.pos >= o.pos
        &&& self.data@ == o.data@
        &&& self.version == o.version
    }

    /// Checks the magic and reads the version. Fails with `Io` when the input is
    /// too short, `InvalidMagic` when it does not start with `PSPO`, and
    /// `UnknownVersion` when the version code is not known.
    pub fn new(file: Vec<u8>) -> (r: Result<Parser, ParseError>)
        ensures
            file@.len() < 4 ==> r == Err::<Parser, ParseError>(ParseError::Io),
            file@.len() >= 4 && file@.subrange(0, 4) != magic() ==> r == Err::<Parser, ParseError>(ParseError::InvalidMagic),
            file@.len() >= 4 && file@.subrange(0, 4) == magic() && file@.len() < 8 ==> r == Err::<Parser, ParseError>(ParseError::Io),
            file@.len() >= 8 && file@.subrange(0, 4) == magic() && version_of(i32_at(file@, 4)) is None
                ==> r == Err::<Parser, ParseError>(ParseError::UnknownVersion),
            file@.len() >= 8 && file@.subrange(0, 4) == magic() && version_of(i32_at(file@, 4)) is Some ==> r is Ok,
            r matches Ok(p) ==> {
                &&& file@.len() >= 8
                &&& file@.subrange(0, 4) == magic()
                &&& version_of(i32_at(file@, 4)) == Some(p.file_version())
                &&& p.bytes() == file@
                &&& p.cursor() == 8
                &&& p.wf()
            },
    {
        if file.len() < 4 {
            return Err(ParseError::Io);
        }
        let is_magic = file[0] == 0x50u8 && file[1] == 0x53u8 && file[2] == 0x50u8 && file[3] == 0x4fu8;
        assert(is_magic <==> file@.subrange(0, 4) == magic()) by {
            if !is_magic {
                assert(file@.subrange(0, 4)[0] == file@[0]);
                assert(file@.subrange(0, 4)[1] == file@[1]);
                assert(file@.subrange(0, 4)[2] == file@[2]);
                assert(file@.subrange(0, 4)[3] == file@[3]);
            } else {
                assert(file@.subrange(0, 4) =~= magic());
            }
        }
        if !is_magic {
            return Err(ParseError::InvalidMagic);
        }
        let code = u32_at_pos(file.as_slice(), 4)?;
        let version = match Version::from_code(code as i32) {
            Some(v) => v,
            None => return Err(ParseError::UnknownVersion),
        };
        Ok(Parser { data: file, pos: 8, version })
    }

    /// Reserves the next `n` bytes and returns where they start.
    fn take(&mut self, n: usize) -> (r: Result<usize, ParseError>)
        requires
            old(self).wf(),
        ensures
            final(self).keeps(*old(self)),
            old(self).pos + n <= old(self).data@.len() ==> r == Ok::<usize, ParseError>(old(self).pos) && final(self).pos
                == old(self).pos + n,
            old(self).pos + n > old(self).data@.len() ==> r == Err::<usize, ParseError>(ParseError::Io),
    {
        if n > self.data.len() - self.pos {
            return Err(ParseError::Io);
        }
        let at = self.pos;
        self.pos = self.pos + n;
        Ok(at)
    }

    fn read_u32(&mut self) -> (r: Result<u32, ParseError>)
        requires
            old(self).wf(),
        ensures
            final(self).keeps(*old(self)),
            old(self).pos + 4 <= old(self).data@.len() ==> r == Ok::<u32, ParseError>(u32_at(old(self).data@, old(self).pos as int))
                && final(self).pos == old(self).pos + 4,
            old(self).pos + 4 > old(self).data@.len() ==> r == Err::<u32, ParseError>(ParseError::Io),
    {
        let at = self.take(4)?;
        u32_at_pos(self.data.as_slice(), at)
    }

    fn read_i32(&mut self) -> (r: Result<i32, ParseError>)
        requires
            old(self).wf(),
        ensures
            final(self).keeps(*old(self)),
            old(self).pos + 4 <= old(self).data@.len() ==> r == Ok::<i32, ParseError>(i32_at(old(self).data@, old(self).pos as int))
                && final(self).pos == old(self).pos + 4,
            old(self).pos + 4 > old(self).data@.len() ==> r == Err::<i32, ParseError>(ParseError::Io),
    {
        let v = self.read_u32()?;
        Ok(v as i32)
    }

    /// The bit pattern of the little-endian single at the cursor.
    fn read_f32(&mut self) -> (r: Result<u32, ParseError>)
        requires
            old(self).wf(),
        ensures
            final(self).keeps(*old(self)),
            old(self).pos + 4 <= old(self).data@.len() ==> r == Ok::<u32, ParseError>(u32_at(old(self).data@, old(self).pos as int))
                && final(self).pos == old(self).pos + 4,
            old(self).pos + 4 > old(self).data@.len() ==> r == Err::<u32, ParseError>(ParseError::Io),
    {
        self.read_u32()
    }

    fn read_vec3d(&mut self) -> (r: Result<Vec3d, ParseError>)
        requires
            old(self).wf(),
        ensures
            final(self).keeps(*old(self)),
            old(self).pos + 12 <= old(self).data@.len() ==> r == Ok::<Vec3d, ParseError>(vec3_at(old(self).data@, old(self).pos as int))
                && final(self).pos == old(self).pos + 12,
            old(self).pos + 12 > old(self).data@.len() ==> r is Err,
    {
        let x = self.read_f32()?;
        let y = self.read_f32()?;
        let z = self.read_f32()?;
        Ok(Vec3d { x, y, z })
    }

    fn read_bbox(&mut self) -> (r: Result<BBox, ParseError>)
        requires
            old(self).wf(),
        ensures
            final(self).keeps(*old(self)),
            old(self).pos + 24 <= old(self).data@.len() ==> r == Ok::<BBox, ParseError>(bbox_at(old(self).data@, old(self).pos as int))
                && final(self).pos == old(self).pos + 24,
            old(self).pos + 24 > old(self).data@.len() ==> r is Err,
    {
        let min = self.read_vec3d()?;
        let max = self.read_vec3d()?;
        Ok(BBox { min, max })
    }

    /// Copies the next `n` bytes.
    fn read_raw(&mut self, n: usize) -> (r: Result<Vec<u8>, ParseError>)
        requires
            old(self).wf(),
        ensures
            final(self).keeps(*old(self)),
            old(self).pos + n <= old(self).data@.len() ==> (r matches Ok(b) && b@ == old(self).data@.subrange(
                old(self).pos as int,
                old(self).pos + n,
            ) && final(self).pos == old(self).pos + n),
            old(self).pos + n > old(self).data@.len() ==> r == Err::<Vec<u8>, ParseError>(ParseError::Io),
    {
        let at = self.take(n)?;
        let len = self.data.len();
        let mut out: Vec<u8> = Vec::new();
        let mut i: usize = 0;
        while i < n
            invariant
                self.wf(),
                len == self.data@.len(),
                at + n <= self.data@.len(),
                i <= n,
                out@ == self.data@.subrange(at as int, at + i),
            decreases n - i,
        {
            out.push(self.data[at + i]);
            assert(out@ =~= self.data@.subrange(at as int, at + i + 1));
            i = i + 1;
        }
        Ok(out)
    }

    /// A `u32` length, then that many bytes.
    fn read_byte_buffer(&mut self) -> (r: Result<Vec<u8>, ParseError>)
        requires
            old(self).wf(),
        ensures
            final(self).keeps(*old(self)),
            ({
                let d = old(self).data@;
                let p = old(self).pos as int;
                let n = u32_at(d, p);
                &&& (p + 4 <= d.len() && p + 4 + n <= d.len()) ==> (r matches Ok(b) && b@ == d.subrange(p + 4, p + 4 + n)
                    && final(self).pos == p + 4 + n)
                &&& !(p + 4 <= d.len() && p + 4 + n <= d.len()) ==> r == Err::<Vec<u8>, ParseError>(ParseError::Io)
            }),
    {
        let n = self.read_u32()?;
        self.read_raw(n as usize)
    }

    /// A byte buffer read as UTF-8 text up to its first NUL byte. Invalid
    /// UTF-8 fails with `MalformedChunk`.
    fn read_string(&mut self) -> (r: Result<String, ParseError>)
        requires
            old(self).wf(),
        ensures
            final(self).keeps(*old(self)),
            ({
                let d = old(self).data@;
                let p = old(self).pos as int;
                let n = u32_at(d, p);
                let b = d.subrange(p + 4, p + 4 + n);
                let fits = p + 4 <= d.len() && p + 4 + n <= d.len();
                &&& !fits ==> r == Err::<String, ParseError>(ParseError::Io)
                &&& fits && !valid_utf8(b.subrange(0, nul_end(b))) ==> r == Err::<String, ParseError>(ParseError::MalformedChunk)
                &&& fits && valid_utf8(b.subrange(0, nul_end(b))) ==> (r matches Ok(s) && s@ == decode_utf8(b.subrange(0, nul_end(b)))
                    && final(self).pos == p + 4 + n)
            }),
    {
        let buf = self.read_byte_buffer()?;
        match text_before_nul(buf.as_slice()) {
            Some(s) => Ok(s),
            None => Err(ParseError::MalformedChunk),
        }
    }

    /// A `u32` count, then that many vectors.
    fn read_vec3d_list(&mut self) -> (r: Result<Vec<Vec3d>, ParseError>)
        requires
            old(self).wf(),
        ensures
            final(self).keeps(*old(self)),
            ({
                let b = old(self).data@;
                let p = old(self).pos as int;
                let n = u32_at(b, p);
                &&& r is Ok <==> p + 4 + 12 * n <= b.len()
                &&& r matches Ok(v) ==> {
                    &&& v@.len() == n
                    &&& forall|k: int| 0 <= k < n ==> #[trigger] v@[k] == vec3_at(b, p + 4 + 12 * k)
                    &&& final(self).pos == p + 4 + 12 * n
                }
            }),
    {
        let ghost p0 = self.pos as int;
        let n = self.read_u32()?;
        let mut out: Vec<Vec3d> = Vec::new();
        let mut i: u32 = 0;
        while i < n
            invariant
                self.keeps(*old(self)),
                i <= n,
                n == u32_at(self.data@, p0),
                p0 == old(self).pos,
                p0 + 4 <= self.data@.len(),
                out@.len() == i,
                self.pos == p0 + 4 + 12 * i,
                forall|k: int| 0 <= k < i ==> #[trigger] out@[k] == vec3_at(self.data@, p0 + 4 + 12 * k),
            decreases n - i,
        {
            if self.data.len() - self.pos < 12 {
                proof {
                    assert(p0 + 4 + 12 * n > self.data@.len()) by (nonlinear_arith)
                        requires
                            i < n,
                            p0 + 4 + 12 * i + 12 > self.data@.len(),
                    ;
                }
                return Err(ParseError::Io);
            }
            let v = self.read_vec3d()?;
            out.push(v);
            i = i + 1;
        }
        Ok(out)
    }

    /// A `u32` count, then that many object ids.
    fn read_object_ids(&mut self) -> (r: Result<Vec<ObjectId>, ParseError>)
        requires
            old(self).wf(),
        ensures
            final(self).keeps(*old(self)),
            ({
                let b = old(self).data@;
                let p = old(self).pos as int;
                let n = u32_at(b, p);
                &&& r is Ok <==> p + 4 + 4 * n <= b.len()
                &&& r matches Ok(v) ==> {
                    &&& v@.len() == n
                    &&& forall|k: int| 0 <= k < n ==> #[trigger] v@[k] == ObjectId(u32_at(b, p + 4 + 4 * k))
                    &&& final(self).pos == p + 4 + 4 * n
                }
            }),
    {
        let ghost p0 = self.pos as int;
        let n = self.read_u32()?;
        let mut out: Vec<ObjectId> = Vec::new();
        let mut i: u32 = 0;
        while i < n
            invariant
                self.keeps(*old(self)),
                i <= n,
                n == u32_at(self.data@, p0),
                p0 == old(self).pos,
                p0 + 4 <= self.data@.len(),
                out@.len() == i,
                self.pos == p0 + 4 + 4 * i,
                forall|k: int| 0 <= k < i ==> #[trigger] out@[k] == ObjectId(u32_at(self.data@, p0 + 4 + 4 * k)),
            decreases n - i,
        {
            if self.data.len() - self.pos < 4 {
                proof {
                    assert(p0 + 4 + 4 * n > self.data@.len()) by (nonlinear_arith)
                        requires
                            i < n,
                            p0 + 4 + 4 * i + 4 > self.data@.len(),
                    ;
                }
                return Err(ParseError::Io);
            }
            let id = self.read_u32()?;
            out.push(ObjectId(id));
            i = i + 1;
        }
        Ok(out)
    }

    /// A `u32` count, then that many strings.
    fn read_strings(&mut self) -> (r: Result<Vec<String>, ParseError>)
        requires
            old(self).wf(),
        ensures
            final(self).keeps(*old(self)),
            r matches Ok(v) ==> v@.len() == u32_at(old(self).data@, old(self).pos as int),
    {
        let ghost p0 = self.pos as int;
        let n = self.read_u32()?;
        let mut out: Vec<String> = Vec::new();
        let mut i: u32 = 0;
        while i < n
            invariant
                self.keeps(*old(self)),
                i <= n,
                n == u32_at(self.data@, p0),
                p0 == old(self).pos,
                out@.len() == i,
            decreases n - i,
        {
            out.push(self.read_string()?);
            i = i + 1;
        }
        Ok(out)
    }

    /// The `HDR2` chunk body, with the list of debris subobjects beside the header.
    fn read_header(&mut self) -> (r: Result<(ObjHeader, Vec<ObjectId>), ParseError>)
        requires
            old(self).wf(),
        ensures
            final(self).keeps(*old(self)),
            r matches Ok((h, debris)) ==> header_at(old(self).data@, old(self).pos as int, h) && debris@ == header_debris(
                old(self).data@,
                old(self).pos as int,
            ),
    {
        let max_radius = self.read_f32()?;
        let obj_flags = self.read_u32()?;
        let num_subobjects = self.read_u32()?;
        let bounding_box = self.read_bbox()?;
        let detail_levels = self.read_object_ids()?;
        let debris = self.read_object_ids()?;
        let mass = self.read_f32()?;
        let center_of_mass = self.read_vec3d()?;
        let rvec = self.read_vec3d()?;
        let uvec = self.read_vec3d()?;
        let fvec = self.read_vec3d()?;
        let ghost t0 = self.pos as int;
        let raw_count = self.read_u32()?;
        let count: u32 = if raw_count == u32::MAX { 0 } else { raw_count };
        let mut cross_sections: Vec<(u32, u32)> = Vec::new();
        let mut i: u32 = 0;
        while i < count
            invariant
                self.keeps(*old(self)),
                i <= count,
                cross_sections@.len() == i,
                self.pos == t0 + 4 + 8 * i,
                forall|k: int| 0 <= k < i ==> #[trigger] cross_sections@[k] == (u32_at(self.data@, t0 + 4 + 8 * k), u32_at(
                    self.data@,
                    t0 + 8 + 8 * k,
                )),
            decreases count - i,
        {
            let depth = self.read_f32()?;
            let radius = self.read_f32()?;
            cross_sections.push((depth, radius));
            i = i + 1;
        }
        let ghost l = self.pos as int;
        let n = self.read_u32()?;
        let mut bsp_lights: Vec<BspLight> = Vec::new();
        let mut j: u32 = 0;
        while j < n
            invariant
                self.keeps(*old(self)),
                j <= n,
                n == u32_at(self.data@, l),
                bsp_lights@.len() == j,
                self.pos == l + 4 + 16 * j,
                forall|k: int| 0 <= k < j ==> {
                    let code = u32_at(self.data@, l + 16 + 16 * k);
                    &&& (#[trigger] bsp_lights@[k]).location == vec3_at(self.data@, l + 4 + 16 * k)
                    &&& (code == 1 || code == 2)
                    &&& bsp_lights@[k].kind == if code == 1 { BspLightKind::Muzzle } else { BspLightKind::Thruster }
                },
            decreases n - j,
        {
            let location = self.read_vec3d()?;
            let code = self.read_u32()?;
            let kind = match code {
                1 => BspLightKind::Muzzle,
                2 => BspLightKind::Thruster,
                _ => return Err(ParseError::MalformedChunk),
            };
            bsp_lights.push(BspLight { location, kind });
            j = j + 1;
        }
        proof {
            reveal(header_at);
        }
        let header = ObjHeader {
            max_radius,
            obj_flags,
            num_subobjects,
            bounding_box,
            detail_levels,
            mass,
            center_of_mass,
            moment_of_inertia: Mat3d { rvec, uvec, fvec },
            cross_sections,
            bsp_lights,
        };
        Ok((header, debris))
    }

    /// The `OBJ2` chunk body. Its id must be `expected`, the number of
    /// subobjects read before it; its geometry buffer must decode.
    fn read_subobject(&mut self, expected: usize) -> (r: Result<SubObject, ParseError>)
        requires
            old(self).wf(),
        ensures
            final(self).keeps(*old(self)),
            r matches Ok(s) ==> {
                let b = old(self).data@;
                let p = old(self).pos as int;
                &&& s.obj_id.0 == expected
                &&& u32_at(b, p) == expected
                &&& s.radius == u32_at(b, p + 4)
                &&& s.parent == if u32_at(b, p + 8) == u32::MAX { None } else { Some(ObjectId(u32_at(b, p + 8))) }
                &&& s.offset == vec3_at(b, p + 12)
                &&& s.geo_center == vec3_at(b, p + 24)
                &&& s.bbox == bbox_at(b, p + 36)
                &&& s.bsp_data.wf()
                &&& s.children@.len() == 0
                &&& !s.is_debris_model
            },
            old(self).pos + 4 <= old(self).data@.len() && u32_at(old(self).data@, old(self).pos as int) != expected
                ==> r == Err::<SubObject, ParseError>(ParseError::MalformedChunk),
    {
        let id = self.read_u32()?;
        if id as usize != expected {
            return Err(ParseError::MalformedChunk);
        }
        let radius = self.read_f32()?;
        let parent_raw = self.read_u32()?;
        let parent = if parent_raw == u32::MAX { None } else { Some(ObjectId(parent_raw)) };
        let offset = self.read_vec3d()?;
        let geo_center = self.read_vec3d()?;
        let bbox = self.read_bbox()?;
        let name = self.read_string()?;
        let properties = self.read_string()?;
        let movement_type = match SubsysMovementType::from_code(self.read_i32()?) {
            Some(t) => t,
            None => return Err(ParseError::MalformedChunk),
        };
        let movement_axis = match SubsysMovementAxis::from_code(self.read_i32()?) {
            Some(a) => a,
            None => return Err(ParseError::MalformedChunk),
        };
        let _reserved = self.read_i32()?;
        let buffer = self.read_byte_buffer()?;
        let bsp_data = parse_bsp_data(buffer.as_slice())?;
        Ok(SubObject {
            obj_id: ObjectId(id),
            radius,
            parent,
            offset,
            geo_center,
            bbox,
            name,
            properties,
            movement_type,
            movement_axis,
            bsp_data,
            children: Vec::new(),
            is_debris_model: false,
        })
    }

    /// The `PATH` chunk body.
    fn read_paths(&mut self) -> (r: Result<Vec<Path>, ParseError>)
        requires
            old(self).wf(),
        ensures
            final(self).keeps(*old(self)),
            r matches Ok(v) ==> v@.len() == u32_at(old(self).data@, old(self).pos as int),
    {
        let ghost p0 = self.pos as int;
        let n = self.read_u32()?;
        let mut out: Vec<Path> = Vec::new();
        let mut i: u32 = 0;
        while i < n
            invariant
                self.keeps(*old(self)),
                i <= n,
                n == u32_at(self.data@, p0),
                p0 == old(self).pos,
                out@.len() == i,
            decreases n - i,
        {
            let name = self.read_string()?;
            let parent = self.read_string()?;
            let m = self.read_u32()?;
            let mut points: Vec<PathPoint> = Vec::new();
            let mut j: u32 = 0;
            while j < m
                invariant
                    self.keeps(*old(self)),
                    j <= m,
                decreases m - j,
            {
                let position = self.read_vec3d()?;
                let radius = self.read_f32()?;
                let turrets = self.read_object_ids()?;
                points.push(PathPoint { position, radius, turrets });
                j = j + 1;
            }
            out.push(Path { name, parent, points });
            i = i + 1;
        }
        Ok(out)
    }

    /// The `SPCL` chunk body.
    fn read_special_points(&mut self) -> (r: Result<Vec<SpecialPoint>, ParseError>)
        requires
            old(self).wf(),
        ensures
            final(self).keeps(*old(self)),
            r matches Ok(v) ==> v@.len() == u32_at(old(self).data@, old(self).pos as int),
    {
        let ghost p0 = self.pos as int;
        let n = self.read_u32()?;
        let mut out: Vec<SpecialPoint> = Vec::new();
        let mut i: u32 = 0;
        while i < n
            invariant
                self.keeps(*old(self)),
                i <= n,
                n == u32_at(self.data@, p0),
                p0 == old(self).pos,
                out@.len() == i,
            decreases n - i,
        {
            let name = self.read_string()?;
            let properties = self.read_string()?;
            let position = self.read_vec3d()?;
            let radius = self.read_f32()?;
            out.push(SpecialPoint { name, properties, position, radius });
            i = i + 1;
        }
        Ok(out)
    }

    /// The `EYE ` chunk body.
    fn read_eye_points(&mut self) -> (r: Result<Vec<EyePoint>, ParseError>)
        requires
            old(self).wf(),
        ensures
            final(self).keeps(*old(self)),
            r matches Ok(v) ==> v@.len() == u32_at(old(self).data@, old(self).pos as int),
    {
        let ghost p0 = self.pos as int;
        let n = self.read_u32()?;
        let mut out: Vec<EyePoint> = Vec::new();
        let mut i: u32 = 0;
        while i < n
            invariant
                self.keeps(*old(self)),
                i <= n,
                n == u32_at(self.data@, p0),
                p0 == old(self).pos,
                out@.len() == i,
            decreases n - i,
        {
            let attached_subobj = ObjectId(self.read_u32()?);
            let offset = self.read_vec3d()?;
            let normal = self.read_vec3d()?;
            out.push(EyePoint { attached_subobj, offset, normal });
            i = i + 1;
        }
        Ok(out)
    }

    /// One weapon hardpoint: position, normal, then from `V22_01` on an offset,
    /// which is zero in earlier versions.
    fn read_hardpoint(&mut self) -> (r: Result<WeaponHardpoint, ParseError>)
        requires
            old(self).wf(),
        ensures
            final(self).keeps(*old(self)),
            r matches Ok(h) ==> {
                let p = old(self).pos as int;
                let b = old(self).data@;
                &&& h.position == vec3_at(b, p)
                &&& h.normal == vec3_at(b, p + 12)
                &&& h.offset == if old(self).version.rank() >= Version::V22_01.rank() { u32_at(b, p + 24) } else { 0 }
                &&& final(self).pos == p + if old(self).version.rank() >= Version::V22_01.rank() { 28int } else { 24int }
            },
    {
        let position = self.read_vec3d()?;
        let normal = self.read_vec3d()?;
        let offset = if self.version.at_least(Version::V22_01) { self.read_f32()? } else { 0 };
        Ok(WeaponHardpoint { position, normal, offset })
    }

    /// The `GPNT` or `MPNT` chunk body: a list of banks, each a list of hardpoints.
    fn read_weapon_banks(&mut self) -> (r: Result<Vec<Vec<WeaponHardpoint>>, ParseError>)
        requires
            old(self).wf(),
        ensures
            final(self).keeps(*old(self)),
            r matches Ok(v) ==> v@.len() == u32_at(old(self).data@, old(self).pos as int),
            r matches Ok(v) ==> old(self).version.rank() < Version::V22_01.rank() ==> offsets_zero(v@),
    {
        let ghost p0 = self.pos as int;
        let n = self.read_u32()?;
        let mut out: Vec<Vec<WeaponHardpoint>> = Vec::new();
        let mut i: u32 = 0;
        while i < n
            invariant
                self.keeps(*old(self)),
                i <= n,
                n == u32_at(self.data@, p0),
                p0 == old(self).pos,
                out@.len() == i,
                old(self).version.rank() < Version::V22_01.rank() ==> offsets_zero(out@),
            decreases n - i,
        {
            let m = self.read_u32()?;
            let mut bank: Vec<WeaponHardpoint> = Vec::new();
            let mut j: u32 = 0;
            while j < m
                invariant
                    self.keeps(*old(self)),
                    j <= m,
                    old(self).version.rank() < Version::V22_01.rank() ==> forall|k: int|
                        0 <= k < bank@.len() ==> (#[trigger] bank@[k]).offset == 0,
                decreases m - j,
            {
                bank.push(self.read_hardpoint()?);
                j = j + 1;
            }
            let ghost before = out@;
            out.push(bank);
            proof {
                assert forall|a: int, k: int| 0 <= a < out@.len() && 0 <= k < out@[a]@.len() && old(self).version.rank()
                    < Version::V22_01.rank() implies (#[trigger] out@[a]@[k]).offset == 0 by {
                    if a < before.len() {
                        assert(out@[a] == before[a]);
                    }
                }
            }
            i = i + 1;
        }
        Ok(out)
    }

    /// The `TGUN` or `TMIS` chunk body.
    fn read_turrets(&mut self) -> (r: Result<Vec<Turret>, ParseError>)
        requires
            old(self).wf(),
        ensures
            final(self).keeps(*old(self)),
            r matches Ok(v) ==> v@.len() == u32_at(old(self).data@, old(self).pos as int),
    {
        let ghost p0 = self.pos as int;
        let n = self.read_u32()?;
        let mut out: Vec<Turret> = Vec::new();
        let mut i: u32 = 0;
        while i < n
            invariant
                self.keeps(*old(self)),
                i <= n,
                n == u32_at(self.data@, p0),
                p0 == old(self).pos,
                out@.len() == i,
            decreases n - i,
        {
            let base_obj = ObjectId(self.read_u32()?);
            let gun_obj = ObjectId(self.read_u32()?);
            let normal = self.read_vec3d()?;
            let fire_points = self.read_vec3d_list()?;
            out.push(Turret { base_obj, gun_obj, normal, fire_points });
            i = i + 1;
        }
        Ok(out)
    }

    /// A glow count, then `count` glows of position, normal and radius.
    fn read_glows(&mut self, count: u32) -> (r: Result<Vec<ThrusterGlow>, ParseError>)
        requires
            old(self).wf(),
        ensures
            final(self).keeps(*old(self)),
            r matches Ok(v) ==> v@.len() == count,
    {
        let mut out: Vec<ThrusterGlow> = Vec::new();
        let mut j: u32 = 0;
        while j < count
            invariant
                self.keeps(*old(self)),
                j <= count,
                out@.len() == j,
            decreases count - j,
        {
            let position = self.read_vec3d()?;
            let normal = self.read_vec3d()?;
            let radius = self.read_f32()?;
            out.push(ThrusterGlow { position, normal, radius });
            j = j + 1;
        }
        Ok(out)
    }

    /// The `FUEL` chunk body. A bank carries a properties string from `V21_17` on.
    fn read_thruster_banks(&mut self) -> (r: Result<Vec<ThrusterBank>, ParseError>)
        requires
            old(self).wf(),
        ensures
            final(self).keeps(*old(self)),
            r matches Ok(v) ==> v@.len() == u32_at(old(self).data@, old(self).pos as int),
    {
        let ghost p0 = self.pos as int;
        let n = self.read_u32()?;
        let mut out: Vec<ThrusterBank> = Vec::new();
        let mut i: u32 = 0;
        while i < n
            invariant
                self.keeps(*old(self)),
                i <= n,
                n == u32_at(self.data@, p0),
                p0 == old(self).pos,
                out@.len() == i,
            decreases n - i,
        {
            let num_glows = self.read_u32()?;
            let properties = if self.version.at_least(Version::V21_17) { self.read_string()? } else { String::new() };
            let glows = self.read_glows(num_glows)?;
            out.push(ThrusterBank { properties, glows });
            i = i + 1;
        }
        Ok(out)
    }

    /// The `GLOW` chunk body. The point count comes before the properties
    /// string and governs the points read after it.
    fn read_glow_banks(&mut self) -> (r: Result<Vec<GlowPointBank>, ParseError>)
        requires
            old(self).wf(),
        ensures
            final(self).keeps(*old(self)),
            r matches Ok(v) ==> v@.len() == u32_at(old(self).data@, old(self).pos as int),
    {
        let n = self.read_u32()?;
        let mut out: Vec<GlowPointBank> = Vec::new();
        let mut i: u32 = 0;
        while i < n
            invariant
                self.keeps(*old(self)),
                i <= n,
                out@.len() == i,
            decreases n - i,
        {
            let disp_time = self.read_i32()?;
            let on_time = self.read_u32()?;
            let off_time = self.read_u32()?;
            let obj_parent = ObjectId(self.read_u32()?);
            let lod = self.read_u32()?;
            let glow_type = self.read_u32()?;
            let num_glow_points = self.read_u32()?;
            let properties = self.read_string()?;
            let glows = self.read_glows(num_glow_points)?;
            let mut glow_points: Vec<GlowPoint> = Vec::new();
            let mut k: usize = 0;
            while k < glows.len()
                invariant
                    k <= glows@.len(),
                    glow_points@.len() == k,
                decreases glows@.len() - k,
            {
                let g = glows[k];
                glow_points.push(GlowPoint { position: g.position, normal: g.normal, radius: g.radius });
                k = k + 1;
            }
            out.push(GlowPointBank { disp_time, on_time, off_time, obj_parent, lod, glow_type, properties, glow_points });
            i = i + 1;
        }
        Ok(out)
    }

    /// The `DOCK` chunk body. Of the path list only the first entry is kept;
    /// a dock with three or more points is malformed.
    fn read_docks(&mut self) -> (r: Result<Vec<Dock>, ParseError>)
        requires
            old(self).wf(),
        ensures
            final(self).keeps(*old(self)),
            r matches Ok(v) ==> v@.len() == u32_at(old(self).data@, old(self).pos as int),
            r matches Ok(v) ==> forall|i: int| 0 <= i < v@.len() ==> (#[trigger] v@[i]).points@.len() < 3,
    {
        let ghost p0 = self.pos as int;
        let n = self.read_u32()?;
        let mut out: Vec<Dock> = Vec::new();
        let mut i: u32 = 0;
        while i < n
            invariant
                self.keeps(*old(self)),
                i <= n,
                n == u32_at(self.data@, p0),
                p0 == old(self).pos,
                out@.len() == i,
                forall|k: int| 0 <= k < out@.len() ==> (#[trigger] out@[k]).points@.len() < 3,
            decreases n - i,
        {
            let properties = self.read_string()?;
            let path_count = self.read_u32()?;
            let mut path: Option<PathId> = None;
            let mut j: u32 = 0;
            while j < path_count
                invariant
                    self.keeps(*old(self)),
                    j <= path_count,
                decreases path_count - j,
            {
                let p = self.read_u32()?;
                if j == 0 {
                    path = Some(PathId(p));
                }
                j = j + 1;
            }
            let point_count = self.read_u32()?;
            if point_count >= 3 {
                return Err(ParseError::MalformedChunk);
            }
            let mut points: Vec<DockingPoint> = Vec::new();
            let mut k: u32 = 0;
            while k < point_count
                invariant
                    self.keeps(*old(self)),
                    k <= point_count,
                    points@.len() == k,
                decreases point_count - k,
            {
                let position = self.read_vec3d()?;
                let normal = self.read_vec3d()?;
                points.push(DockingPoint { position, normal });
                k = k + 1;
            }
            out.push(Dock { properties, path, points });
            i = i + 1;
        }
        Ok(out)
    }

    /// A `u32` narrowed to a vertex id; wider values are malformed.
    fn read_vertex_id(&mut self) -> (r: Result<VertexId, ParseError>)
        requires
            old(self).wf(),
        ensures
            final(self).keeps(*old(self)),
            r matches Ok(v) ==> v.0 == u32_at(old(self).data@, old(self).pos as int) && final(self).pos == old(self).pos + 4,
            old(self).pos + 4 <= old(self).data@.len() && u32_at(old(self).data@, old(self).pos as int) <= u16::MAX ==> r is Ok,
            old(self).pos + 4 <= old(self).data@.len() && u32_at(old(self).data@, old(self).pos as int) > u16::MAX
                ==> r == Err::<VertexId, ParseError>(ParseError::MalformedChunk),
    {
        let v = self.read_u32()?;
        if v > u16::MAX as u32 {
            return Err(ParseError::MalformedChunk);
        }
        Ok(VertexId(v as u16))
    }

    /// One insignia corner: a vertex id, then two texture coordinates.
    fn read_insig_vertex(&mut self) -> (r: Result<InsigVertex, ParseError>)
        requires
            old(self).wf(),
        ensures
            final(self).keeps(*old(self)),
            ({
                let b = old(self).data@;
                let p = old(self).pos as int;
                &&& r matches Ok(v) ==> v.vertex_id.0 == u32_at(b, p) && v.uv == (u32_at(b, p + 4), u32_at(b, p + 8))
                    && final(self).pos == p + 12
                &&& p + 12 <= b.len() && u32_at(b, p) <= u16::MAX ==> r is Ok
            }),
    {
        let vertex_id = self.read_vertex_id()?;
        let u = self.read_f32()?;
        let v = self.read_f32()?;
        Ok(InsigVertex { vertex_id, uv: (u, v) })
    }

    /// The `INSG` chunk body. The face count comes before the vertex list,
    /// which has a count of its own, and governs the faces read after the offset.
    fn read_insignias(&mut self) -> (r: Result<Vec<Insignia>, ParseError>)
        requires
            old(self).wf(),
        ensures
            final(self).keeps(*old(self)),
            r matches Ok(v) ==> v@.len() == u32_at(old(self).data@, old(self).pos as int),
    {
        let ghost p0 = self.pos as int;
        let n = self.read_u32()?;
        let mut out: Vec<Insignia> = Vec::new();
        let mut i: u32 = 0;
        while i < n
            invariant
                self.keeps(*old(self)),
                i <= n,
                n == u32_at(self.data@, p0),
                p0 == old(self).pos,
                out@.len() == i,
            decreases n - i,
        {
            let detail_level = self.read_u32()?;
            let num_faces = self.read_u32()?;
            let vertices = self.read_vec3d_list()?;
            let offset = self.read_vec3d()?;
            let mut faces: Vec<(InsigVertex, InsigVertex, InsigVertex)> = Vec::new();
            let mut j: u32 = 0;
            while j < num_faces
                invariant
                    self.keeps(*old(self)),
                    j <= num_faces,
                    faces@.len() == j,
                decreases num_faces - j,
            {
                let a = self.read_insig_vertex()?;
                let b = self.read_insig_vertex()?;
                let c = self.read_insig_vertex()?;
                faces.push((a, b, c));
                j = j + 1;
            }
            out.push(Insignia { detail_level, vertices, offset, faces });
            i = i + 1;
        }
        Ok(out)
    }

    /// The `SHLD` chunk body: the shield vertices, then its polygons.
    fn read_shield_mesh(&mut self) -> (r: Result<(Vec<Vec3d>, Vec<ShieldPolygon>), ParseError>)
        requires
            old(self).wf(),
        ensures
            final(self).keeps(*old(self)),
            r matches Ok((verts, polys)) ==> shield_mesh_at(old(self).data@, old(self).pos as int, verts@, polys@),
    {
        let verts = self.read_vec3d_list()?;
        let ghost q = self.pos as int;
        let n = self.read_u32()?;
        let mut polygons: Vec<ShieldPolygon> = Vec::new();
        let mut i: u32 = 0;
        while i < n
            invariant
                self.keeps(*old(self)),
                i <= n,
                n == u32_at(self.data@, q),
                polygons@.len() == i,
                self.pos == q + 4 + 36 * i,
                forall|k: int| 0 <= k < i ==> shield_polygon_at(self.data@, q + 4 + 36 * k, #[trigger] polygons@[k]),
            decreases n - i,
        {
            let normal = self.read_vec3d()?;
            let v1 = self.read_vertex_id()?;
            let v2 = self.read_vertex_id()?;
            let v3 = self.read_vertex_id()?;
            let n1 = PolygonId(self.read_u32()?);
            let n2 = PolygonId(self.read_u32()?);
            let n3 = PolygonId(self.read_u32()?);
            polygons.push(ShieldPolygon { normal, verts: (v1, v2, v3), neighbors: (n1, n2, n3) });
            i = i + 1;
        }
        Ok((verts, polygons))
    }

    /// Moves the cursor forward to `p`.
    fn seek_to(&mut self, p: usize)
        requires
            old(self).wf(),
            old(self).pos <= p <= old(self).data@.len(),
        ensures
            final(self).keeps(*old(self)),
            final(self).pos == p,
    {
        self.pos = p;
    }

    /// Reads the chunks up to the end of the input and assembles the model.
    ///
    /// The chunk sequence is first checked as a whole (see `scan_result`): its
    /// headers, the chunks that may appear once, the shield-tree rules and the
    /// presence of `HDR2`. Each chunk is then decoded; a recognized chunk may not
    /// read past its length, and the next chunk starts where the length says.
    /// `OBJ2` chunks must come in id order. After the loop the shield tree is
    /// decoded, child lists are rebuilt from parent links, and debris flags are
    /// set from the header's debris list.
    #[verifier::rlimit(100)]
    pub fn parse(&mut self) -> (r: Result<Model, ParseError>)
        requires
            old(self).wf(),
        ensures
            final(self).wf(),
            final(self).bytes() == old(self).bytes(),
            final(self).file_version() == old(self).file_version(),
            r matches Ok(m) ==> model_wf(m),
            r is Ok ==> final(self).cursor() + 4 > final(self).bytes().len(),
            scan_result(old(self).bytes(), old(self).cursor(), old(self).file_version()) matches Err(e) ==> r == Err::<Model, ParseError>(e),
            r is Ok ==> scan_result(old(self).bytes(), old(self).cursor(), old(self).file_version()) is Ok,
            r matches Ok(m) ==> m.sub_objects@.len() == count_id(old(self).bytes(), walk(old(self).bytes(), old(self).cursor()), OBJ2),
            r matches Ok(m) ==> exists|c: int|
                #![trigger u32_at(old(self).bytes(), c)]
                walk(old(self).bytes(), old(self).cursor()).contains(c) && u32_at(old(self).bytes(), c) == HDR2 && header_at(old(self).bytes(), c + 8, m.header) && forall|i: int|
                    0 <= i < m.sub_objects@.len() ==> (#[trigger] m.sub_objects@[i]).is_debris_model == header_debris(
                    old(self).bytes(),
                    c + 8,
                ).contains(ObjectId(i as u32)),
            r matches Ok(m) ==> (m.shield_data is Some <==> count_id(old(self).bytes(), walk(old(self).bytes(), old(self).cursor()), SHLD) > 0),
            r matches Ok(m) ==> (m.shield_data matches Some(sd) ==> exists|c: int|
                #![trigger u32_at(old(self).bytes(), c)]
                walk(old(self).bytes(), old(self).cursor()).contains(c) && u32_at(old(self).bytes(), c) == SHLD && shield_mesh_at(old(self).bytes(), c + 8, sd.verts@, sd.polygons@)),
            r matches Ok(m) ==> (m.shield_data matches Some(sd) ==> (sd.collision_tree is Some <==> count_id(old(self).bytes(), walk(old(self).bytes(), old(self).cursor()), SLDC)
                + count_id(old(self).bytes(), walk(old(self).bytes(), old(self).cursor()), SLC2) > 0)),
            r matches Ok(m) ==> (m.shield_data matches Some(sd) ==> (sd.collision_tree matches Some(t) ==> exists|c: int|
                #![trigger u32_at(old(self).bytes(), c)]
                walk(old(self).bytes(), old(self).cursor()).contains(c) && tree_chunk_ok(u32_at(old(self).bytes(), c), old(self).file_version()) && c + 12 + u32_at(old(self).bytes(), c + 8)
                    <= old(self).bytes().len() && node_decoded(buffer_at(old(self).bytes(), c + 8), 0, old(self).file_version(), t))),
            r matches Ok(m) ==> old(self).file_version().rank() < Version::V22_01.rank() ==> offsets_zero(m.primary_weps@)
                && offsets_zero(m.secondary_weps@),
    {
        match scan_chunks(self.data.as_slice(), self.pos, self.version) {
            Ok(()) => {},
            Err(e) => return Err(e),
        }
        let ghost mut visited: Seq<int> = seq![];
        let mut header: Option<ObjHeader> = None;
        let mut debris: Vec<ObjectId> = Vec::new();
        let mut sub_objects: Vec<SubObject> = Vec::new();
        let mut textures: Option<Vec<String>> = None;
        let mut paths: Option<Vec<Path>> = None;
        let mut special_points: Option<Vec<SpecialPoint>> = None;
        let mut eye_points: Option<Vec<EyePoint>> = None;
        let mut primary_weps: Option<Vec<Vec<WeaponHardpoint>>> = None;
        let mut secondary_weps: Option<Vec<Vec<WeaponHardpoint>>> = None;
        let mut turrets: Vec<Turret> = Vec::new();
        let mut thruster_banks: Option<Vec<ThrusterBank>> = None;
        let mut comments: Option<String> = None;
        let mut docking_bays: Option<Vec<Dock>> = None;
        let mut glow_banks: Option<Vec<GlowPointBank>> = None;
        let mut insignias: Option<Vec<Insignia>> = None;
        let mut auto_center: Option<Vec3d> = None;
        let mut shield_mesh: Option<(Vec<Vec3d>, Vec<ShieldPolygon>)> = None;
        let mut shield_tree: Option<Vec<u8>> = None;
        let ghost mut hpos: int = 0;
        let ghost mut spos: int = 0;
        let ghost mut tpos: int = 0;
        loop
            invariant
                self.keeps(*old(self)),
                scan_result(self.data@, old(self).pos as int, old(self).version) is Ok,
                walk(self.data@, old(self).pos as int) == visited + walk(self.data@, self.pos as int),
                ids_are_positions(sub_objects@),
                forall|i: int| 0 <= i < sub_objects@.len() ==> (#[trigger] sub_objects@[i]).bsp_data.wf(),
                sub_objects@.len() == count_id(self.data@, visited, OBJ2),
                header is Some <==> count_id(self.data@, visited, HDR2) > 0,
                header is None ==> debris@.len() == 0,
                header matches Some(h) ==> visited.contains(hpos - 8) && u32_at(self.data@, hpos - 8) == HDR2 && header_at(self.data@, hpos, h)
                    && debris@ == header_debris(self.data@, hpos),
                shield_mesh is Some <==> count_id(self.data@, visited, SHLD) > 0,
                shield_mesh matches Some(sm) ==> visited.contains(spos - 8) && u32_at(self.data@, spos - 8) == SHLD && shield_mesh_at(
                    self.data@,
                    spos,
                    sm.0@,
                    sm.1@,
                ),
                shield_tree is Some <==> count_id(self.data@, visited, SLDC) + count_id(self.data@, visited, SLC2) > 0,
                shield_tree matches Some(t) ==> visited.contains(tpos - 8) && tree_chunk_ok(u32_at(self.data@, tpos - 8), old(self).version)
                    && tpos + 4 + u32_at(self.data@, tpos) <= self.data@.len() && t@ == buffer_at(self.data@, tpos),
                old(self).version.rank() < Version::V22_01.rank() ==> (primary_weps matches Some(w) ==> offsets_zero(w@)),
                old(self).version.rank() < Version::V22_01.rank() ==> (secondary_weps matches Some(w) ==> offsets_zero(w@)),
            ensures
                self.keeps(*old(self)),
                scan_result(self.data@, old(self).pos as int, old(self).version) is Ok,
                walk(self.data@, old(self).pos as int) == visited + walk(self.data@, self.pos as int),
                ids_are_positions(sub_objects@),
                forall|i: int| 0 <= i < sub_objects@.len() ==> (#[trigger] sub_objects@[i]).bsp_data.wf(),
                sub_objects@.len() == count_id(self.data@, visited, OBJ2),
                header is Some <==> count_id(self.data@, visited, HDR2) > 0,
                header is None ==> debris@.len() == 0,
                header matches Some(h) ==> visited.contains(hpos - 8) && u32_at(self.data@, hpos - 8) == HDR2 && header_at(self.data@, hpos, h)
                    && debris@ == header_debris(self.data@, hpos),
                shield_mesh is Some <==> count_id(self.data@, visited, SHLD) > 0,
                shield_mesh matches Some(sm) ==> visited.contains(spos - 8) && u32_at(self.data@, spos - 8) == SHLD && shield_mesh_at(
                    self.data@,
                    spos,
                    sm.0@,
                    sm.1@,
                ),
                shield_tree is Some <==> count_id(self.data@, visited, SLDC) + count_id(self.data@, visited, SLC2) > 0,
                shield_tree matches Some(t) ==> visited.contains(tpos - 8) && tree_chunk_ok(u32_at(self.data@, tpos - 8), old(self).version)
                    && tpos + 4 + u32_at(self.data@, tpos) <= self.data@.len() && t@ == buffer_at(self.data@, tpos),
                old(self).version.rank() < Version::V22_01.rank() ==> (primary_weps matches Some(w) ==> offsets_zero(w@)),
                old(self).version.rank() < Version::V22_01.rank() ==> (secondary_weps matches Some(w) ==> offsets_zero(w@)),
                self.pos + 4 > self.data@.len(),
            decreases self.data@.len() - self.pos,
        {
            if self.data.len() - self.pos < 4 {
                break;
            }
            let ghost cpos = self.pos as int;
            let id = self.read_u32()?;
            let len = self.read_i32()?;
            if len < 0 {
                return Err(ParseError::MalformedChunk);
            }
            let end: usize = if len as usize > self.data.len() - self.pos {
                self.data.len()
            } else {
                self.pos + len as usize
            };
            assert(end == next_chunk(self.data@, cpos));
            if id == HDR2 {
                if header.is_some() {
                    return Err(ParseError::MalformedChunk);
                }
                proof {
                    hpos = self.pos as int;
                    assert(hpos == cpos + 8);
                }
                let (h, d) = self.read_header()?;
                header = Some(h);
                debris = d;
            } else if id == OBJ2 {
                let sub = self.read_subobject(sub_objects.len())?;
                sub_objects.push(sub);
            } else if id == TXTR {
                if textures.is_some() {
                    return Err(ParseError::MalformedChunk);
                }
                textures = Some(self.read_strings()?);
            } else if id == PATH {
                if paths.is_some() {
                    return Err(ParseError::MalformedChunk);
                }
                paths = Some(self.read_paths()?);
            } else if id == SPCL {
                if special_points.is_some() {
                    return Err(ParseError::MalformedChunk);
                }
                special_points = Some(self.read_special_points()?);
            } else if id == EYE {
                if eye_points.is_some() {
                    return Err(ParseError::MalformedChunk);
                }
                eye_points = Some(self.read_eye_points()?);
            } else if id == GPNT {
                if primary_weps.is_some() {
                    return Err(ParseError::MalformedChunk);
                }
                primary_weps = Some(self.read_weapon_banks()?);
            } else if id == MPNT {
                if secondary_weps.is_some() {
                    return Err(ParseError::MalformedChunk);
                }
                secondary_weps = Some(self.read_weapon_banks()?);
            } else if id == TGUN || id == TMIS {
                let mut more = self.read_turrets()?;
                turrets.append(&mut more);
            } else if id == FUEL {
                if thruster_banks.is_some() {
                    return Err(ParseError::MalformedChunk);
                }
                thruster_banks = Some(self.read_thruster_banks()?);
            } else if id == GLOW {
                if glow_banks.is_some() {
                    return Err(ParseError::MalformedChunk);
                }
                glow_banks = Some(self.read_glow_banks()?);
            } else if id == ACEN {
                if auto_center.is_some() {
                    return Err(ParseError::MalformedChunk);
                }
                auto_center = Some(self.read_vec3d()?);
            } else if id == DOCK {
                if docking_bays.is_some() {
                    return Err(ParseError::MalformedChunk);
                }
                docking_bays = Some(self.read_docks()?);
            } else if id == INSG {
                if insignias.is_some() {
                    return Err(ParseError::MalformedChunk);
                }
                insignias = Some(self.read_insignias()?);
            } else if id == SHLD {
                if shield_mesh.is_some() {
                    return Err(ParseError::MalformedChunk);
                }
                proof {
                    spos = self.pos as int;
                }
                shield_mesh = Some(self.read_shield_mesh()?);
            } else if id == SLDC || id == SLC2 {
                if shield_tree.is_some() {
                    return Err(ParseError::MalformedChunk);
                }
                if id == SLC2 && !self.version.at_least(Version::V22_00) {
                    return Err(ParseError::MalformedChunk);
                }
                proof {
                    tpos = self.pos as int;
                    assert(tree_chunk_ok(u32_at(self.data@, tpos - 8), old(self).version));
                }
                shield_tree = Some(self.read_byte_buffer()?);
            } else if id == PINF {
                if comments.is_some() {
                    return Err(ParseError::MalformedChunk);
                }
                let raw = self.read_raw(len as usize)?;
                comments = match text_before_nul(raw.as_slice()) {
                    Some(t) => Some(t),
                    None => return Err(ParseError::MalformedChunk),
                };
            }
            if self.pos > end {
                return Err(ParseError::MalformedChunk);
            }
            self.seek_to(end);
            proof {
                lemma_count_push_all(self.data@, visited, cpos);
                assert(walk(self.data@, cpos) == seq![cpos] + walk(self.data@, next_chunk(self.data@, cpos)));
                assert(visited + walk(self.data@, cpos) =~= visited.push(cpos) + walk(self.data@, end as int));
                assert(visited.push(cpos).contains(cpos)) by {
                    assert(visited.push(cpos)[visited.len() as int] == cpos);
                }
                assert forall|x: int| visited.contains(x) implies #[trigger] visited.push(cpos).contains(x) by {
                    let k = choose|k: int| 0 <= k < visited.len() && visited[k] == x;
                    assert(visited.push(cpos)[k] == x);
                }
                visited = visited.push(cpos);
            }
        }
        proof {
            assert(walk(self.data@, self.pos as int) == Seq::<int>::empty());
            assert(visited + Seq::<int>::empty() =~= visited);
            assert(walk(old(self).bytes(), old(self).cursor()) == visited);
        }
        let shield_data = match shield_mesh {
            Some((verts, polygons)) => {
                let collision_tree = match shield_tree {
                    Some(buf) => Some(parse_shield_node(buf.as_slice(), 0, self.version)?),
                    None => None,
                };
                proof {
                    let c = spos - 8;
                    assert(u32_at(old(self).bytes(), c) == SHLD);
                    if collision_tree is Some {
                        let c2 = tpos - 8;
                        assert(u32_at(old(self).bytes(), c2) == u32_at(self.data@, c2));
                        assert(tree_chunk_ok(u32_at(old(self).bytes(), c2), old(self).file_version()));
                    }
                }
                Some(ShieldData { verts, polygons, collision_tree })
            },
            None => {
                if shield_tree.is_some() {
                    return Err(ParseError::MalformedChunk);
                }
                None
            },
        };
        let ghost before = sub_objects@;
        let linked = link_subobjects(sub_objects, &debris)?;
        proof {
            assert forall|i: int| 0 <= i < linked@.len() implies (#[trigger] linked@[i]).bsp_data.wf() by {
                assert(relinked(before[i], linked@[i], children_of(before, i as u32), debris@.contains(ObjectId(i as u32))));
            }
        }
        let header = match header {
            Some(h) => h,
            None => return Err(ParseError::MissingHeader),
        };
        proof {
            let c = hpos - 8;
            assert forall|i: int| 0 <= i < linked@.len() implies (#[trigger] linked@[i]).is_debris_model
                == header_debris(self.data@, c + 8).contains(ObjectId(i as u32)) by {
                assert(relinked(before[i], linked@[i], children_of(before, i as u32), debris@.contains(ObjectId(i as u32))));
            }
            assert(u32_at(self.data@, c) == HDR2);
            assert(self.data@ == old(self).data@);
            assert(visited.contains(c) && u32_at(old(self).bytes(), c) == HDR2 && header_at(
                old(self).bytes(),
                c + 8,
                header,
            ));
            assert(forall|i: int| 0 <= i < linked@.len() ==> (#[trigger] linked@[i]).is_debris_model
                == header_debris(old(self).bytes(), c + 8).contains(ObjectId(i as u32)));
        }
        let auto_center = match auto_center {
            Some(c) => c,
            None => Vec3d::zero(),
        };
        let comments = match comments {
            Some(c) => c,
            None => String::new(),
        };
        Ok(Model {
            header,
            sub_objects: linked,
            textures: or_empty(textures),
            paths: or_empty(paths),
            special_points: or_empty(special_points),
            eye_points: or_empty(eye_points),
            primary_weps: or_empty(primary_weps),
            secondary_weps: or_empty(secondary_weps),
            turrets,
            thruster_banks: or_empty(thruster_banks),
            glow_banks: or_empty(glow_banks),
            auto_center,
            comments,
            docking_bays: or_empty(docking_bays),
            insignias: or_empty(insignias),
            shield_data,
        })
    }
}

} // verus!
