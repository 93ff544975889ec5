//! The shared entity layer that both loaders produce.
use vstd::prelude::*;

verus! {

/// Why a load failed. Every failure is fatal: no partial model is returned.
#[derive(Clone, Copy, Debug, PartialEq, Eq, Structural)]
pub enum ParseError {
    /// The input ended before a value that had to be read.
    Io,
    /// The first four bytes are not `PSPO`.
    InvalidMagic,
    /// The version code is not a known format version.
    UnknownVersion,
    /// A recognized chunk breaks one of its rules.
    MalformedChunk,
    /// No `HDR2` chunk was found.
    MissingHeader,
}

} // verus!

verus! {

/// A 3-vector. Each component is the bit pattern of an IEEE-754 single.
#[derive(Clone, Copy, Debug, PartialEq, Eq, Structural)]
pub struct Vec3d {
    pub x: u32,
    pub y: u32,
    pub z: u32,
}

/// Bit pattern of the single-precision zero.
pub const ZERO_BITS: u32 = 0;

/// Bit pattern of the single-precision one.
pub const ONE_BITS: u32 = 0x3f80_0000;

impl Vec3d {
    pub open spec fn swapped(self) -> Vec3d {
        Vec3d { x: self.x, y: self.z, z: self.y }
    }

    pub fn zero() -> (r: Vec3d)
        ensures
            r == (Vec3d { x: 0, y: 0, z: 0 }),
    {
        Vec3d { x: ZERO_BITS, y: ZERO_BITS, z: ZERO_BITS }
    }
}

/// Swaps the Y and Z axes.
pub fn flip_y_z(v: Vec3d) -> (r: Vec3d)
    ensures
        r == v.swapped(),
{
    Vec3d { x: v.x, y: v.z, z: v.y }
}

/// Swapping the Y and Z axes twice gives back the vector.
pub proof fn lemma_flip_y_z_involution(v: Vec3d)
    ensures
        v.swapped().swapped() == v,
{
}

/// An axis-aligned box.
#[derive(Clone, Copy, Debug, PartialEq, Eq, Structural)]
pub struct BBox {
    pub min: Vec3d,
    pub max: Vec3d,
}

impl BBox {
    pub fn zero() -> (r: BBox)
        ensures
            r == (BBox { min: Vec3d { x: 0, y: 0, z: 0 }, max: Vec3d { x: 0, y: 0, z: 0 } }),
    {
        BBox { min: Vec3d::zero(), max: Vec3d::zero() }
    }
}

/// A 3x3 matrix stored as three row vectors.
#[derive(Clone, Copy, Debug, PartialEq, Eq, Structural)]
pub struct Mat3d {
    pub rvec: Vec3d,
    pub uvec: Vec3d,
    pub fvec: Vec3d,
}

#[derive(Clone, Copy, Debug, PartialEq, Eq, Structural)]
pub struct ObjectId(pub u32);

#[derive(Clone, Copy, Debug, PartialEq, Eq, Structural)]
pub struct TextureId(pub u32);

#[derive(Clone, Copy, Debug, PartialEq, Eq, Structural)]
pub struct PathId(pub u32);

#[derive(Clone, Copy, Debug, PartialEq, Eq, Structural)]
pub struct VertexId(pub u16);

#[derive(Clone, Copy, Debug, PartialEq, Eq, Structural)]
pub struct NormalId(pub u16);

#[derive(Clone, Copy, Debug, PartialEq, Eq, Structural)]
pub struct PolygonId(pub u32);

#[derive(Clone, Copy, Debug, PartialEq, Eq, Structural)]
pub struct Color {
    pub red: u8,
    pub green: u8,
    pub blue: u8,
}

#[derive(Clone, Copy, Debug, PartialEq, Eq, Structural)]
pub enum Texturing {
    Texture(TextureId),
    Flat(Color),
}

/// A polygon corner: a vertex, a normal and a texture coordinate (bit patterns).
#[derive(Clone, Copy, Debug, PartialEq, Eq)]
pub struct PolyVertex {
    pub vertex_id: VertexId,
    pub normal_id: NormalId,
    pub uv: (u32, u32),
}

/// A corner of an insignia face, which has no normal.
#[derive(Clone, Copy, Debug, PartialEq, Eq)]
pub struct InsigVertex {
    pub vertex_id: VertexId,
    pub uv: (u32, u32),
}

#[derive(Clone, Debug, PartialEq, Eq)]
pub struct Polygon {
    pub normal: Vec3d,
    pub center: Vec3d,
    pub radius: u32,
    pub texture: Texturing,
    pub verts: Vec<PolyVertex>,
}

#[derive(Debug, PartialEq, Eq)]
pub enum BspNode {
    Split { normal: Vec3d, point: Vec3d, front: Box<BspNode>, back: Box<BspNode>, bbox: BBox },
    Leaf { bbox: BBox, poly_list: Vec<Polygon> },
}

#[derive(Debug, PartialEq, Eq)]
pub struct BspData {
    pub verts: Vec<Vec3d>,
    pub norms: Vec<Vec3d>,
    pub collision_tree: BspNode,
}

/// Every corner of every polygon of `p` names a vertex below `nv` and a normal below `nn`.
pub open spec fn polys_index_within(p: Seq<Polygon>, nv: nat, nn: nat) -> bool {
    forall|i: int, j: int|
        0 <= i < p.len() && 0 <= j < p[i].verts@.len() ==> {
            &&& (#[trigger] p[i].verts@[j]).vertex_id.0 < nv
            &&& p[i].verts@[j].normal_id.0 < nn
        }
}

/// Every polygon corner in the tree `n` names a vertex below `nv` and a normal below `nn`.
pub open spec fn node_index_within(n: BspNode, nv: nat, nn: nat) -> bool
    decreases n,
{
    match n {
        BspNode::Split { front, back, .. } => node_index_within(*front, nv, nn) && node_index_within(*back, nv, nn),
        BspNode::Leaf { poly_list, .. } => polys_index_within(poly_list@, nv, nn),
    }
}

impl BspData {
    /// Every vertex and normal id in the tree indexes `verts` and `norms`.
    pub open spec fn wf(&self) -> bool {
        node_index_within(self.collision_tree, self.verts@.len(), self.norms@.len())
    }
}

#[derive(Clone, Copy, Debug, PartialEq, Eq)]
pub struct ShieldPolygon {
    pub normal: Vec3d,
    pub verts: (VertexId, VertexId, VertexId),
    pub neighbors: (PolygonId, PolygonId, PolygonId),
}

#[derive(Debug, PartialEq, Eq)]
pub enum ShieldNode {
    Split { bbox: BBox, front: Box<ShieldNode>, back: Box<ShieldNode> },
    Leaf { bbox: Option<BBox>, poly_list: Vec<PolygonId> },
}

#[derive(Debug, PartialEq, Eq)]
pub struct ShieldData {
    pub verts: Vec<Vec3d>,
    pub polygons: Vec<ShieldPolygon>,
    pub collision_tree: Option<ShieldNode>,
}

#[derive(Clone, Copy, Debug, PartialEq, Eq, Structural)]
pub enum SubsysMovementType {
    NONE,
    POS,
    ROT,
    ROTSPECIAL,
    TRIGGERED,
    INTRINSICROTATE,
}

#[derive(Clone, Copy, Debug, PartialEq, Eq, Structural)]
pub enum SubsysMovementAxis {
    NONE,
    XAXIS,
    ZAXIS,
    YAXIS,
    OTHER,
}

/// The movement type with wire code `c`, if there is one.
pub open spec fn movement_type_of(c: i32) -> Option<SubsysMovementType> {
    if c == -1 {
        Some(SubsysMovementType::NONE)
    } else if c == 0 {
        Some(SubsysMovementType::POS)
    } else if c == 1 {
        Some(SubsysMovementType::ROT)
    } else if c == 2 {
        Some(SubsysMovementType::ROTSPECIAL)
    } else if c == 3 {
        Some(SubsysMovementType::TRIGGERED)
    } else if c == 4 {
        Some(SubsysMovementType::INTRINSICROTATE)
    } else {
        None
    }
}

/// The movement axis with wire code `c`, if there is one (1 is Z, 2 is Y).
pub open spec fn movement_axis_of(c: i32) -> Option<SubsysMovementAxis> {
    if c == -1 {
        Some(SubsysMovementAxis::NONE)
    } else if c == 0 {
        Some(SubsysMovementAxis::XAXIS)
    } else if c == 1 {
        Some(SubsysMovementAxis::ZAXIS)
    } else if c == 2 {
        Some(SubsysMovementAxis::YAXIS)
    } else if c == 3 {
        Some(SubsysMovementAxis::OTHER)
    } else {
        None
    }
}

impl SubsysMovementType {
    pub fn from_code(c: i32) -> (r: Option<SubsysMovementType>)
        ensures
            r == movement_type_of(c),
    {
        match c {
            -1 => Some(SubsysMovementType::NONE),
            0 => Some(SubsysMovementType::POS),
            1 => Some(SubsysMovementType::ROT),
            2 => Some(SubsysMovementType::ROTSPECIAL),
            3 => Some(SubsysMovementType::TRIGGERED),
            4 => Some(SubsysMovementType::INTRINSICROTATE),
            _ => None,
        }
    }
}

impl SubsysMovementAxis {
    pub fn from_code(c: i32) -> (r: Option<SubsysMovementAxis>)
        ensures
            r == movement_axis_of(c),
    {
        match c {
            -1 => Some(SubsysMovementAxis::NONE),
            0 => Some(SubsysMovementAxis::XAXIS),
            1 => Some(SubsysMovementAxis::ZAXIS),
            2 => Some(SubsysMovementAxis::YAXIS),
            3 => Some(SubsysMovementAxis::OTHER),
            _ => None,
        }
    }
}

#[derive(Debug, PartialEq, Eq)]
pub struct SubObject {
    pub obj_id: ObjectId,
    pub radius: u32,
    pub parent: Option<ObjectId>,
    pub offset: Vec3d,
    pub geo_center: Vec3d,
    pub bbox: BBox,
    pub name: String,
    pub properties: String,
    pub movement_type: SubsysMovementType,
    pub movement_axis: SubsysMovementAxis,
    pub bsp_data: BspData,
    pub children: Vec<ObjectId>,
    pub is_debris_model: bool,
}

#[derive(Clone, Copy, Debug, PartialEq, Eq, Structural)]
pub enum BspLightKind {
    Muzzle,
    Thruster,
}

#[derive(Clone, Copy, Debug, PartialEq, Eq, Structural)]
pub struct BspLight {
    pub location: Vec3d,
    pub kind: BspLightKind,
}

#[derive(Clone, Debug, PartialEq, Eq)]
pub struct ObjHeader {
    pub max_radius: u32,
    pub obj_flags: u32,
    pub num_subobjects: u32,
    pub bounding_box: BBox,
    pub detail_levels: Vec<ObjectId>,
    pub mass: u32,
    pub center_of_mass: Vec3d,
    pub moment_of_inertia: Mat3d,
    pub cross_sections: Vec<(u32, u32)>,
    pub bsp_lights: Vec<BspLight>,
}

#[derive(Clone, Debug, PartialEq, Eq)]
pub struct PathPoint {
    pub position: Vec3d,
    pub radius: u32,
    pub turrets: Vec<ObjectId>,
}

#[derive(Clone, Debug, PartialEq, Eq)]
pub struct Path {
    pub name: String,
    pub parent: String,
    pub points: Vec<PathPoint>,
}

#[derive(Clone, Debug, PartialEq, Eq)]
pub struct SpecialPoint {
    pub name: String,
    pub properties: String,
    pub position: Vec3d,
    pub radius: u32,
}

#[derive(Clone, Copy, Debug, PartialEq, Eq, Structural)]
pub struct EyePoint {
    pub attached_subobj: ObjectId,
    pub offset: Vec3d,
    pub normal: Vec3d,
}

#[derive(Clone, Copy, Debug, PartialEq, Eq, Structural)]
pub struct WeaponHardpoint {
    pub position: Vec3d,
    pub normal: Vec3d,
    pub offset: u32,
}

#[derive(Clone, Debug, PartialEq, Eq)]
pub struct Turret {
    pub base_obj: ObjectId,
    pub gun_obj: ObjectId,
    pub normal: Vec3d,
    pub fire_points: Vec<Vec3d>,
}

#[derive(Clone, Copy, Debug, PartialEq, Eq, Structural)]
pub struct ThrusterGlow {
    pub position: Vec3d,
    pub normal: Vec3d,
    pub radius: u32,
}

#[derive(Clone, Debug, PartialEq, Eq)]
pub struct ThrusterBank {
    pub properties: String,
    pub glows: Vec<ThrusterGlow>,
}

#[derive(Clone, Copy, Debug, PartialEq, Eq, Structural)]
pub struct GlowPoint {
    pub position: Vec3d,
    pub normal: Vec3d,
    pub radius: u32,
}

#[derive(Clone, Debug, PartialEq, Eq)]
pub struct GlowPointBank {
    pub disp_time: i32,
    pub on_time: u32,
    pub off_time: u32,
    pub obj_parent: ObjectId,
    pub lod: u32,
    pub glow_type: u32,
    pub properties: String,
    pub glow_points: Vec<GlowPoint>,
}

#[derive(Clone, Copy, Debug, PartialEq, Eq, Structural)]
pub struct DockingPoint {
    pub position: Vec3d,
    pub normal: Vec3d,
}

#[derive(Clone, Debug, PartialEq, Eq)]
pub struct Dock {
    pub properties: String,
    pub path: Option<PathId>,
    pub points: Vec<DockingPoint>,
}

#[derive(Clone, Debug, PartialEq, Eq)]
pub struct Insignia {
    pub detail_level: u32,
    pub vertices: Vec<Vec3d>,
    pub offset: Vec3d,
    pub faces: Vec<(InsigVertex, InsigVertex, InsigVertex)>,
}

#[derive(Debug, PartialEq, Eq)]
pub struct Model {
    pub header: ObjHeader,
    pub sub_objects: Vec<SubObject>,
    pub textures: Vec<String>,
    pub paths: Vec<Path>,
    pub special_points: Vec<SpecialPoint>,
    pub eye_points: Vec<EyePoint>,
    pub primary_weps: Vec<Vec<WeaponHardpoint>>,
    pub secondary_weps: Vec<Vec<WeaponHardpoint>>,
    pub turrets: Vec<Turret>,
    pub thruster_banks: Vec<ThrusterBank>,
    pub glow_banks: Vec<GlowPointBank>,
    pub auto_center: Vec3d,
    pub comments: String,
    pub docking_bays: Vec<Dock>,
    pub insignias: Vec<Insignia>,
    pub shield_data: Option<ShieldData>,
}

/// Known format versions, in increasing order.
#[derive(Clone, Copy, Debug, PartialEq, Eq, Structural, PartialOrd, Ord)]
pub enum Version {
    V21_16,
    V21_17,
    V21_18,
    V22_00,
    V22_01,
}

/// The version with wire code `c`, if it is known.
pub open spec fn version_of(c: i32) -> Option<Version> {
    if c == 2116 {
        Some(Version::V21_16)
    } else if c == 2117 {
        Some(Version::V21_17)
    } else if c == 2118 {
        Some(Version::V21_18)
    } else if c == 2200 {
        Some(Version::V22_00)
    } else if c == 2201 {
        Some(Version::V22_01)
    } else {
        None
    }
}

impl Version {
    /// Position in the version order.
    pub open spec fn rank(self) -> nat {
        match self {
            Version::V21_16 => 0,
            Version::V21_17 => 1,
            Version::V21_18 => 2,
            Version::V22_00 => 3,
            Version::V22_01 => 4,
        }
    }

    pub fn from_code(c: i32) -> (r: Option<Version>)
        ensures
            r == version_of(c),
    {
        match c {
            2116 => Some(Version::V21_16),
            2117 => Some(Version::V21_17),
            2118 => Some(Version::V21_18),
            2200 => Some(Version::V22_00),
            2201 => Some(Version::V22_01),
            _ => None,
        }
    }

    /// Whether `self` is `other` or a later version.
    pub fn at_least(self, other: Version) -> (r: bool)
        ensures
            r == (self.rank() >= other.rank()),
    {
        self.index() >= other.index()
    }

    fn index(self) -> (r: u8)
        ensures
            r == self.rank(),
    {
        match self {
            Version::V21_16 => 0,
            Version::V21_17 => 1,
            Version::V21_18 => 2,
            Version::V22_00 => 3,
            Version::V22_01 => 4,
        }
    }
}

} // verus!
