//! Type identifiers and other small integer vocabulary of the host ABI.

use vstd::prelude::*;
use vstd::string::StringSliceAdditionalSpecFns;

verus! {

/// Integer type the host uses internally to identify Lua value types.
pub type RawType = i32;

/// Type for positions on the Lua stack: positive positions count from the
/// bottom (1-based), negative positions count from the top (-1 is the top).
pub type StackPos = i32;

/// Type for integer-based references to Lua objects held in the host's
/// anchor table.
pub type RawRef = i32;

/// The raw bit pattern of the host's numeric value type.
///
/// The host carries numbers as 64-bit floating-point values; this model
/// carries each number as its raw bits, which is exactly the representation
/// the lossless large-integer helpers (`push_bits`, `get_bits`) work with.
pub type Bits = u64;

/// Special pseudo-tables of the Lua state.
#[derive(Clone, Copy, PartialEq, Eq, Structural, Debug)]
pub enum Special {
    /// Global table.
    Glob,
    /// Environment table.
    Env,
    /// Registry table.
    Registry,
}

/// Pre-defined type in the host's Lua, including the host's own object types.
#[derive(Clone, Copy, PartialEq, Eq, Structural, Debug)]
pub enum StdType {
    NoneType,
    Nil,
    Bool,
    LightUserData,
    Number,
    String,
    Table,
    Function,
    UserData,
    Thread,
    Entity,
    Vector,
    Angle,
    PhysObj,
    Save,
    Restore,
    DamageInfo,
    EffectData,
    MoveData,
    RecipientFilter,
    UserCmd,
    ScriptedVehicle,
    Material,
    Panel,
    Particle,
    ParticleEmitter,
    Texture,
    UserMsg,
    ConVar,
    IMesh,
    Matrix,
    Sound,
    PixelVisHandle,
    DLight,
    Video,
    File,
    Locomotion,
    Path,
    NavArea,
    SoundHandle,
    NavLadder,
    ParticleSystem,
    ProjectedTexture,
    PhysCollide,
    SurfaceInfo,
}

/// First type identifier handed out to registered foreign types; every tag
/// below this one belongs to a pre-defined type.
pub const FIRST_FOREIGN_TYPE: RawType = 44;

impl StdType {
    /// The host's integer tag for this pre-defined type.
    pub open spec fn raw_spec(self) -> int {
        match self {
            StdType::NoneType => -1,
            StdType::Nil => 0,
            StdType::Bool => 1,
            StdType::LightUserData => 2,
            StdType::Number => 3,
            StdType::String => 4,
            StdType::Table => 5,
            StdType::Function => 6,
            StdType::UserData => 7,
            StdType::Thread => 8,
            StdType::Entity => 9,
            StdType::Vector => 10,
            StdType::Angle => 11,
            StdType::PhysObj => 12,
            StdType::Save => 13,
            StdType::Restore => 14,
            StdType::DamageInfo => 15,
            StdType::EffectData => 16,
            StdType::MoveData => 17,
            StdType::RecipientFilter => 18,
            StdType::UserCmd => 19,
            StdType::ScriptedVehicle => 20,
            StdType::Material => 21,
            StdType::Panel => 22,
            StdType::Particle => 23,
            StdType::ParticleEmitter => 24,
            StdType::Texture => 25,
            StdType::UserMsg => 26,
            StdType::ConVar => 27,
            StdType::IMesh => 28,
            StdType::Matrix => 29,
            StdType::Sound => 30,
            StdType::PixelVisHandle => 31,
            StdType::DLight => 32,
            StdType::Video => 33,
            StdType::File => 34,
            StdType::Locomotion => 35,
            StdType::Path => 36,
            StdType::NavArea => 37,
            StdType::SoundHandle => 38,
            StdType::NavLadder => 39,
            StdType::ParticleSystem => 40,
            StdType::ProjectedTexture => 41,
            StdType::PhysCollide => 42,
            StdType::SurfaceInfo => 43,
        }
    }

    /// Convert this pre-defined type to the host's integer tag.
    pub fn to_raw(self) -> (r: RawType)
        ensures
            r == self.raw_spec(),
    {
        match self {
            StdType::NoneType => -1,
            StdType::Nil => 0,
            StdType::Bool => 1,
            StdType::LightUserData => 2,
            StdType::Number => 3,
            StdType::String => 4,
            StdType::Table => 5,
            StdType::Function => 6,
            StdType::UserData => 7,
            StdType::Thread => 8,
            StdType::Entity => 9,
            StdType::Vector => 10,
            StdType::Angle => 11,
            StdType::PhysObj => 12,
            StdType::Save => 13,
            StdType::Restore => 14,
            StdType::DamageInfo => 15,
            StdType::EffectData => 16,
            StdType::MoveData => 17,
            StdType::RecipientFilter => 18,
            StdType::UserCmd => 19,
            StdType::ScriptedVehicle => 20,
            StdType::Material => 21,
            StdType::Panel => 22,
            StdType::Particle => 23,
            StdType::ParticleEmitter => 24,
            StdType::Texture => 25,
            StdType::UserMsg => 26,
            StdType::ConVar => 27,
            StdType::IMesh => 28,
            StdType::Matrix => 29,
            StdType::Sound => 30,
            StdType::PixelVisHandle => 31,
            StdType::DLight => 32,
            StdType::Video => 33,
            StdType::File => 34,
            StdType::Locomotion => 35,
            StdType::Path => 36,
            StdType::NavArea => 37,
            StdType::SoundHandle => 38,
            StdType::NavLadder => 39,
            StdType::ParticleSystem => 40,
            StdType::ProjectedTexture => 41,
            StdType::PhysCollide => 42,
            StdType::SurfaceInfo => 43,
        }
    }
}

impl StdType {
    /// The name the host reports for this pre-defined type.
    pub open spec fn name_spec(self) -> Seq<u8> {
        match self {
            StdType::NoneType => "none".spec_bytes(),
            StdType::Nil => "nil".spec_bytes(),
            StdType::Bool => "bool".spec_bytes(),
            StdType::LightUserData => "lightuserdata".spec_bytes(),
            StdType::Number => "number".spec_bytes(),
            StdType::String => "string".spec_bytes(),
            StdType::Table => "table".spec_bytes(),
            StdType::Function => "function".spec_bytes(),
            StdType::UserData => "userdata".spec_bytes(),
            StdType::Thread => "thread".spec_bytes(),
            StdType::Entity => "entity".spec_bytes(),
            StdType::Vector => "vector".spec_bytes(),
            StdType::Angle => "angle".spec_bytes(),
            StdType::PhysObj => "physobj".spec_bytes(),
            StdType::Save => "save".spec_bytes(),
            StdType::Restore => "restore".spec_bytes(),
            StdType::DamageInfo => "damageinfo".spec_bytes(),
            StdType::EffectData => "effectdata".spec_bytes(),
            StdType::MoveData => "movedata".spec_bytes(),
            StdType::RecipientFilter => "recipientfilter".spec_bytes(),
            StdType::UserCmd => "usercmd".spec_bytes(),
            StdType::ScriptedVehicle => "vehicle".spec_bytes(),
            StdType::Material => "material".spec_bytes(),
            StdType::Panel => "panel".spec_bytes(),
            StdType::Particle => "particle".spec_bytes(),
            StdType::ParticleEmitter => "particleemitter".spec_bytes(),
            StdType::Texture => "texture".spec_bytes(),
            StdType::UserMsg => "usermsg".spec_bytes(),
            StdType::ConVar => "convar".spec_bytes(),
            StdType::IMesh => "imesh".spec_bytes(),
            StdType::Matrix => "matrix".spec_bytes(),
            StdType::Sound => "sound".spec_bytes(),
            StdType::PixelVisHandle => "pixelvishandle".spec_bytes(),
            StdType::DLight => "dlight".spec_bytes(),
            StdType::Video => "video".spec_bytes(),
            StdType::File => "file".spec_bytes(),
            StdType::Locomotion => "locomotion".spec_bytes(),
            StdType::Path => "path".spec_bytes(),
            StdType::NavArea => "navarea".spec_bytes(),
            StdType::SoundHandle => "soundhandle".spec_bytes(),
            StdType::NavLadder => "navladder".spec_bytes(),
            StdType::ParticleSystem => "particlesystem".spec_bytes(),
            StdType::ProjectedTexture => "projectedtexture".spec_bytes(),
            StdType::PhysCollide => "physcollide".spec_bytes(),
            StdType::SurfaceInfo => "surfaceinfo".spec_bytes(),
        }
    }

    /// Return the name of the given pre-defined type, as bytes.
    pub fn get_type_name(self) -> (r: Vec<u8>)
        ensures
            r@ == self.name_spec(),
    {
        let name: &str = match self {
            StdType::NoneType => "none",
            StdType::Nil => "nil",
            StdType::Bool => "bool",
            StdType::LightUserData => "lightuserdata",
            StdType::Number => "number",
            StdType::String => "string",
            StdType::Table => "table",
            StdType::Function => "function",
            StdType::UserData => "userdata",
            StdType::Thread => "thread",
            StdType::Entity => "entity",
            StdType::Vector => "vector",
            StdType::Angle => "angle",
            StdType::PhysObj => "physobj",
            StdType::Save => "save",
            StdType::Restore => "restore",
            StdType::DamageInfo => "damageinfo",
            StdType::EffectData => "effectdata",
            StdType::MoveData => "movedata",
            StdType::RecipientFilter => "recipientfilter",
            StdType::UserCmd => "usercmd",
            StdType::ScriptedVehicle => "vehicle",
            StdType::Material => "material",
            StdType::Panel => "panel",
            StdType::Particle => "particle",
            StdType::ParticleEmitter => "particleemitter",
            StdType::Texture => "texture",
            StdType::UserMsg => "usermsg",
            StdType::ConVar => "convar",
            StdType::IMesh => "imesh",
            StdType::Matrix => "matrix",
            StdType::Sound => "sound",
            StdType::PixelVisHandle => "pixelvishandle",
            StdType::DLight => "dlight",
            StdType::Video => "video",
            StdType::File => "file",
            StdType::Locomotion => "locomotion",
            StdType::Path => "path",
            StdType::NavArea => "navarea",
            StdType::SoundHandle => "soundhandle",
            StdType::NavLadder => "navladder",
            StdType::ParticleSystem => "particlesystem",
            StdType::ProjectedTexture => "projectedtexture",
            StdType::PhysCollide => "physcollide",
            StdType::SurfaceInfo => "surfaceinfo",
        };
        crate::value::copy_bytes(name.as_bytes())
    }
}

/// Dynamic type identifier as handed out by the host: the tag of a
/// pre-defined type, or the identifier a foreign type obtained at
/// registration time.
#[derive(Clone, Copy, PartialEq, Eq, Structural, Debug)]
pub struct Type(pub RawType);

impl Type {
    /// The [`Type`] that represents the specified [`StdType`].
    pub fn from_std(ty: StdType) -> (r: Self)
        ensures
            r.0 == ty.raw_spec(),
    {
        Type(ty.to_raw())
    }

    /// Return `true` if this type is the specified [`StdType`].
    pub fn is_std(self, ty: StdType) -> (r: bool)
        ensures
            r <==> self.0 == ty.raw_spec(),
    {
        self.0 == ty.to_raw()
    }
}

} // verus!
