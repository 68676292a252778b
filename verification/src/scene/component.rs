//! The components an entity can carry.
//!
//! A component the document never looks inside is a [`Component`]: its encoded
//! bytes. The ones whose parts the format's history touches are spelled out.

use crate::bits::{F32, F64};
use crate::guid::Guid;
use vstd::prelude::*;

verus! {

/// A component kept as its encoded form.
#[derive(Debug, PartialEq, Eq)]
pub struct Component {
    pub bytes: Vec<u8>,
}

impl View for Component {
    type V = Seq<u8>;

    open spec fn view(&self) -> Seq<u8> {
        self.bytes@
    }
}

impl Component {
    pub fn new(bytes: Vec<u8>) -> (r: Component)
        ensures
            r@ == bytes@,
    {
        Component { bytes }
    }

    /// The component of no bytes: a layer that was never authored.
    pub fn none() -> (r: Component)
        ensures
            r@ == Seq::<u8>::empty(),
    {
        Component { bytes: Vec::new() }
    }
}

impl Clone for Component {
    fn clone(&self) -> (r: Self)
        ensures
            r@ == self@,
    {
        let mut bytes: Vec<u8> = Vec::new();
        let mut i: usize = 0;
        while i < self.bytes.len()
            invariant
                i <= self.bytes.len(),
                bytes@ == self.bytes@.take(i as int),
            decreases self.bytes.len() - i,
        {
            bytes.push(self.bytes[i]);
            i = i + 1;
        }
        proof {
            assert(bytes@ =~= self.bytes@);
        }
        Component { bytes }
    }
}

/// The encoded form of a slot, where it is filled.
pub open spec fn blob(slot: Option<Component>) -> Option<Seq<u8>> {
    match slot {
        Some(c) => Some(c@),
        None => None,
    }
}

pub fn clone_slot(slot: &Option<Component>) -> (r: Option<Component>)
    ensures
        blob(r) == blob(*slot),
{
    match slot {
        Some(c) => Some(c.clone()),
        None => None,
    }
}

/// The encoded forms of a list of components.
pub open spec fn blobs(list: Seq<Component>) -> Seq<Seq<u8>> {
    list.map_values(|c: Component| c@)
}

pub fn clone_list(list: &Vec<Component>) -> (r: Vec<Component>)
    ensures
        blobs(r@) == blobs(list@),
{
    let mut out: Vec<Component> = Vec::new();
    let mut i: usize = 0;
    while i < list.len()
        invariant
            i <= list.len(),
            out.len() == i,
            forall|j: int| 0 <= j < i ==> (#[trigger] out@[j])@ == list@[j]@,
        decreases list.len() - i,
    {
        out.push(list[i].clone());
        i = i + 1;
    }
    proof {
        assert(blobs(out@) =~= blobs(list@));
    }
    out
}

/// A pair of doubles.
#[derive(Clone, Copy, Debug, PartialEq, Eq, Structural)]
pub struct Vec2d {
    pub x: F64,
    pub y: F64,
}

/// A triple of doubles.
#[derive(Clone, Copy, Debug, PartialEq, Eq, Structural)]
pub struct Vec3d {
    pub x: F64,
    pub y: F64,
    pub z: F64,
}

/// A colour by its four channels.
#[derive(Clone, Copy, Debug, PartialEq, Eq, Structural)]
pub struct Color {
    pub r: F32,
    pub g: F32,
    pub b: F32,
    pub a: F32,
}

/// The bits of the double 1.0.
pub const F64_ONE: u64 = 0x3ff0_0000_0000_0000;

/// The three zeros.
pub open spec fn origin() -> Vec3d {
    Vec3d { x: F64 { bits: 0 }, y: F64 { bits: 0 }, z: F64 { bits: 0 } }
}

/// Where an entity stands, relative to its parent.
#[derive(Clone, Copy, Debug, PartialEq, Eq, Structural)]
pub struct Transform {
    pub translation: Vec3d,
    pub rotation: Vec3d,
    pub scale: Vec3d,
}

impl Transform {
    /// No movement, no turn, scale one.
    pub open spec fn unmoved() -> Transform {
        Transform {
            translation: origin(),
            rotation: origin(),
            scale: Vec3d {
                x: F64 { bits: F64_ONE },
                y: F64 { bits: F64_ONE },
                z: F64 { bits: F64_ONE },
            },
        }
    }

    pub fn identity() -> (r: Transform)
        ensures
            r == Transform::unmoved(),
    {
        let o: F64 = F64 { bits: 0 };
        let one: F64 = F64 { bits: F64_ONE };
        Transform {
            translation: Vec3d { x: o, y: o, z: o },
            rotation: Vec3d { x: o, y: o, z: o },
            scale: Vec3d { x: one, y: one, z: one },
        }
    }
}

/// A reference to a mesh: a built-in primitive by its ordinal, and the mesh
/// asset that replaces it where there is one.
#[derive(Clone, Copy, Debug, PartialEq, Eq, Structural)]
pub struct MeshRef {
    pub primitive: u32,
    pub asset: Option<Guid>,
}

/// How a surface mixes with what lies behind it; a mode other than the opaque
/// one is kept by its ordinal.
#[derive(Clone, Copy, Debug, PartialEq, Eq, Structural)]
pub enum BlendMode {
    Opaque,
    Other(u32),
}

#[derive(Clone, Copy, Debug, PartialEq, Eq, Structural)]
pub struct Material {
    pub base_color: Color,
    pub metallic: F32,
    pub roughness: F32,
    pub emissive: Color,
    pub blend: BlendMode,
    pub alpha_cutoff: F32,
    /// The material asset it is bound to; without one its own values are the
    /// whole surface.
    pub asset: Option<Guid>,
}

#[derive(Clone, Copy, Debug, PartialEq, Eq, Structural)]
pub struct Light {
    pub kind: u32,
    pub color: Color,
    pub intensity: F32,
    pub range: F32,
    pub inner_cone_deg: F32,
    pub outer_cone_deg: F32,
    pub cast_shadows: bool,
}

/// A driver of cell residency.
#[derive(Clone, Copy, Debug, PartialEq, Eq, Structural)]
pub struct StreamingSource {
    pub radius_m: F64,
}

/// Marks an entity that is never streamed out.
#[derive(Clone, Copy, Debug, PartialEq, Eq, Structural)]
pub struct AlwaysLoaded {}

/// The world clock.
#[derive(Clone, Copy, Debug, PartialEq, Eq, Structural)]
pub struct TimeOfDay {
    pub seconds: F64,
    pub day_of_year: u32,
    pub latitude_deg: F64,
    pub longitude_deg: F64,
    pub rate: F64,
}

/// The mesh reference of files up to version 6, which could name no asset.
#[derive(Clone, Copy, Debug, PartialEq, Eq, Structural)]
pub struct MeshRefV6 {
    pub primitive: u32,
}

impl MeshRefV6 {
    /// What the reference means today: the primitive, and no asset.
    pub open spec fn lifted(self) -> MeshRef {
        MeshRef { primitive: self.primitive, asset: None }
    }

    pub fn into_current(self) -> (r: MeshRef)
        ensures
            r == self.lifted(),
    {
        MeshRef { primitive: self.primitive, asset: None }
    }
}

/// The bits of 0.0, 0.5, 0.8, 1.0, 30.0 and 40.0 in single precision.
pub const F32_ZERO: u32 = 0;

pub const F32_HALF: u32 = 0x3f00_0000;

pub const F32_0_8: u32 = 0x3f4c_cccd;

pub const F32_ONE: u32 = 0x3f80_0000;

pub const F32_30: u32 = 0x41f0_0000;

pub const F32_40: u32 = 0x4220_0000;

/// The light of files up to version 7.
#[derive(Clone, Copy, Debug, PartialEq, Eq, Structural)]
pub struct LightV7 {
    pub kind: u32,
    pub color: Color,
    pub intensity: F32,
}

impl LightV7 {
    /// What the light means today: unlimited range, cones of 30 and 40 degrees,
    /// shadows cast.
    pub open spec fn lifted(self) -> Light {
        Light {
            kind: self.kind,
            color: self.color,
            intensity: self.intensity,
            range: F32 { bits: F32_ZERO },
            inner_cone_deg: F32 { bits: F32_30 },
            outer_cone_deg: F32 { bits: F32_40 },
            cast_shadows: true,
        }
    }

    pub fn into_current(self) -> (r: Light)
        ensures
            r == self.lifted(),
    {
        Light {
            kind: self.kind,
            color: self.color,
            intensity: self.intensity,
            range: F32 { bits: F32_ZERO },
            inner_cone_deg: F32 { bits: F32_30 },
            outer_cone_deg: F32 { bits: F32_40 },
            cast_shadows: true,
        }
    }
}

/// The material of files up to version 7.
#[derive(Clone, Copy, Debug, PartialEq, Eq, Structural)]
pub struct MaterialV7 {
    pub base_color: Color,
    pub metallic: F32,
    pub roughness: F32,
    pub emissive: Color,
}

impl MaterialV7 {
    /// What the material means today: opaque, with the cut-off at one half, and
    /// bound to no asset.
    pub open spec fn lifted(self) -> Material {
        Material {
            base_color: self.base_color,
            metallic: self.metallic,
            roughness: self.roughness,
            emissive: self.emissive,
            blend: BlendMode::Opaque,
            alpha_cutoff: F32 { bits: F32_HALF },
            asset: None,
        }
    }

    pub fn into_current(self) -> (r: Material)
        ensures
            r == self.lifted(),
    {
        Material {
            base_color: self.base_color,
            metallic: self.metallic,
            roughness: self.roughness,
            emissive: self.emissive,
            blend: BlendMode::Opaque,
            alpha_cutoff: F32 { bits: F32_HALF },
            asset: None,
        }
    }
}

impl Default for MaterialV7 {
    /// A light grey of roughness one half that gives off no light.
    fn default() -> (r: MaterialV7)
        ensures
            r.base_color == (Color {
                r: F32 { bits: 0x3f4c_cccd },
                g: F32 { bits: 0x3f4c_cccd },
                b: F32 { bits: 0x3f4c_cccd },
                a: F32 { bits: 0x3f80_0000 },
            }),
            r.metallic.bits == 0,
            r.roughness.bits == 0x3f00_0000,
            r.emissive == (Color {
                r: F32 { bits: 0 },
                g: F32 { bits: 0 },
                b: F32 { bits: 0 },
                a: F32 { bits: 0x3f80_0000 },
            }),
    {
        let grey: F32 = F32 { bits: F32_0_8 };
        let zero: F32 = F32 { bits: F32_ZERO };
        let one: F32 = F32 { bits: F32_ONE };
        MaterialV7 {
            base_color: Color { r: grey, g: grey, b: grey, a: one },
            metallic: zero,
            roughness: F32 { bits: F32_HALF },
            emissive: Color { r: zero, g: zero, b: zero, a: one },
        }
    }
}

} // verus!
