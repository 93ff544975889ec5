//! Loader for chunked binary ship models and for pre-parsed scene documents,
//! both landing in one in-memory model.
pub mod bytes;
pub mod model;
pub mod bsp;
pub mod shield;
pub mod hierarchy;
pub mod text;
pub mod pof;
pub mod chunks;
pub mod names;
pub mod dae;

pub use dae::{import_dae, DaeCorner, DaeMaterial, DaeMesh, DaeNode, DaePrimitive, DaeScene, PrimitiveKind};
pub use model::{
    flip_y_z, BBox, BspData, BspLight, BspLightKind, BspNode, Color, Dock, DockingPoint, EyePoint, GlowPoint, GlowPointBank,
    InsigVertex, Insignia, Mat3d, Model, NormalId, ObjHeader, ObjectId, ParseError, Path, PathId, PathPoint, PolyVertex,
    Polygon, PolygonId, ShieldData, ShieldNode, ShieldPolygon, SpecialPoint, SubObject, SubsysMovementAxis,
    SubsysMovementType, TextureId, Texturing, ThrusterBank, ThrusterGlow, Turret, Vec3d, Version, VertexId,
    WeaponHardpoint,
};
pub use pof::Parser;
