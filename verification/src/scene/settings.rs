//! Settings a level carries beside its entities, and their earlier layouts.

use crate::bits::{F32, F64};
use crate::scene::component::{Vec2d, Vec3d};
use vstd::prelude::*;

verus! {

/// How the level is drawn.
#[derive(Clone, Copy, Debug, PartialEq, Eq, Structural)]
pub struct RenderSettingsRecord {
    pub exposure: F32,
    pub dither: bool,
    pub bloom_enabled: bool,
    pub bloom_threshold: F32,
    pub bloom_knee: F32,
    pub bloom_intensity: F32,
    pub ssao_enabled: bool,
    pub ssao_radius: F32,
    pub ssao_intensity: F32,
    pub ssao_bias: F32,
    pub taa: bool,
    pub shadows_enabled: bool,
    pub shadows_max_distance: F32,
    pub gi_enabled: bool,
    pub gi_intensity: F32,
}

impl RenderSettingsRecord {
    /// The settings of a level that authored none: exposure 1, dithered, every
    /// effect off with its tuning at bloom 1 / 0.5 / 0.06, occlusion
    /// 0.6 / 1 / 0.025, shadows to 60 metres and indirect light 1.
    pub open spec fn standard() -> RenderSettingsRecord {
        RenderSettingsRecord {
            exposure: F32 { bits: 0x3f80_0000 },
            dither: true,
            bloom_enabled: false,
            bloom_threshold: F32 { bits: 0x3f80_0000 },
            bloom_knee: F32 { bits: 0x3f00_0000 },
            bloom_intensity: F32 { bits: 0x3d75_c28f },
            ssao_enabled: false,
            ssao_radius: F32 { bits: 0x3f19_999a },
            ssao_intensity: F32 { bits: 0x3f80_0000 },
            ssao_bias: F32 { bits: 0x3ccc_cccd },
            taa: false,
            shadows_enabled: false,
            shadows_max_distance: F32 { bits: 0x4270_0000 },
            gi_enabled: false,
            gi_intensity: F32 { bits: 0x3f80_0000 },
        }
    }
}

impl Default for RenderSettingsRecord {
    fn default() -> (r: RenderSettingsRecord)
        ensures
            r == RenderSettingsRecord::standard(),
    {
        RenderSettingsRecord {
            exposure: F32 { bits: 0x3f80_0000 },
            dither: true,
            bloom_enabled: false,
            bloom_threshold: F32 { bits: 0x3f80_0000 },
            bloom_knee: F32 { bits: 0x3f00_0000 },
            bloom_intensity: F32 { bits: 0x3d75_c28f },
            ssao_enabled: false,
            ssao_radius: F32 { bits: 0x3f19_999a },
            ssao_intensity: F32 { bits: 0x3f80_0000 },
            ssao_bias: F32 { bits: 0x3ccc_cccd },
            taa: false,
            shadows_enabled: false,
            shadows_max_distance: F32 { bits: 0x4270_0000 },
            gi_enabled: false,
            gi_intensity: F32 { bits: 0x3f80_0000 },
        }
    }
}

/// Whether and how the level is streamed in cells.
#[derive(Clone, Copy, Debug, PartialEq, Eq, Structural)]
pub struct PartitionSettings {
    pub enabled: bool,
    pub cell_size_m: F64,
    pub activation_radius_m: F64,
    pub prefetch_margin_m: F64,
}

/// The bits of 256.0, 60.0 and -9.81.
pub const F64_256: u64 = 0x4070_0000_0000_0000;

pub const F64_60: u64 = 0x404e_0000_0000_0000;

pub const F64_EARTH_GRAVITY: u64 = 0xc023_9eb8_51eb_851f;

pub fn default_cell_size_m() -> (r: F64)
    ensures
        r.bits == F64_256,
{
    F64 { bits: F64_256 }
}

pub fn default_activation_radius_m() -> (r: F64)
    ensures
        r.bits == F64_256,
{
    F64 { bits: F64_256 }
}

pub fn default_prefetch_margin_m() -> (r: F64)
    ensures
        r.bits == F64_256,
{
    F64 { bits: F64_256 }
}

impl PartitionSettings {
    /// Off, with cells, radius and margin of 256 metres.
    pub open spec fn standard() -> PartitionSettings {
        PartitionSettings {
            enabled: false,
            cell_size_m: F64 { bits: F64_256 },
            activation_radius_m: F64 { bits: F64_256 },
            prefetch_margin_m: F64 { bits: F64_256 },
        }
    }
}

impl Default for PartitionSettings {
    fn default() -> (r: PartitionSettings)
        ensures
            r == PartitionSettings::standard(),
    {
        PartitionSettings {
            enabled: false,
            cell_size_m: default_cell_size_m(),
            activation_radius_m: default_activation_radius_m(),
            prefetch_margin_m: default_prefetch_margin_m(),
        }
    }
}

/// The settings of a level.
#[derive(Clone, Copy, Debug, PartialEq, Eq, Structural)]
pub struct LevelSettings {
    pub gravity_2d: Vec2d,
    pub gravity_3d: Vec3d,
    pub sim_hz: F64,
    pub render: RenderSettingsRecord,
    pub partition: PartitionSettings,
}

pub open spec fn no_gravity_2d() -> Vec2d {
    Vec2d { x: F64 { bits: 0 }, y: F64 { bits: 0 } }
}

pub open spec fn earth_gravity() -> Vec3d {
    Vec3d { x: F64 { bits: 0 }, y: F64 { bits: F64_EARTH_GRAVITY }, z: F64 { bits: 0 } }
}

pub fn default_gravity_3d() -> (r: Vec3d)
    ensures
        r == earth_gravity(),
{
    Vec3d { x: F64 { bits: 0 }, y: F64 { bits: F64_EARTH_GRAVITY }, z: F64 { bits: 0 } }
}

pub fn default_sim_hz() -> (r: F64)
    ensures
        r.bits == F64_60,
{
    F64 { bits: F64_60 }
}

impl LevelSettings {
    /// No gravity in the plane, the earth's in space, 60 steps a second, the
    /// standard rendering and no partition.
    pub open spec fn standard() -> LevelSettings {
        LevelSettings {
            gravity_2d: no_gravity_2d(),
            gravity_3d: earth_gravity(),
            sim_hz: F64 { bits: F64_60 },
            render: RenderSettingsRecord::standard(),
            partition: PartitionSettings::standard(),
        }
    }
}

impl Default for LevelSettings {
    fn default() -> (r: LevelSettings)
        ensures
            r == LevelSettings::standard(),
    {
        LevelSettings {
            gravity_2d: Vec2d { x: F64 { bits: 0 }, y: F64 { bits: 0 } },
            gravity_3d: default_gravity_3d(),
            sim_hz: default_sim_hz(),
            render: RenderSettingsRecord::default(),
            partition: PartitionSettings::default(),
        }
    }
}

/// The settings of versions 3 to 7 of the file.
#[derive(Clone, Copy, Debug, PartialEq, Eq, Structural)]
pub struct LevelSettingsV7 {
    pub gravity_2d: Vec2d,
    pub gravity_3d: Vec3d,
    pub sim_hz: F64,
}

impl View for LevelSettingsV7 {
    type V = LevelSettings;

    /// What the settings mean today: the standard rendering, no partition.
    open spec fn view(&self) -> LevelSettings {
        LevelSettings {
            gravity_2d: self.gravity_2d,
            gravity_3d: self.gravity_3d,
            sim_hz: self.sim_hz,
            render: RenderSettingsRecord::standard(),
            partition: PartitionSettings::standard(),
        }
    }
}

impl LevelSettingsV7 {
    pub fn into_v9(self) -> (r: LevelSettingsV9)
        ensures
            r@ == self@,
    {
        LevelSettingsV9 {
            gravity_2d: self.gravity_2d,
            gravity_3d: self.gravity_3d,
            sim_hz: self.sim_hz,
            render: RenderSettingsRecord::default(),
        }
    }
}

impl Default for LevelSettingsV7 {
    fn default() -> (r: LevelSettingsV7)
        ensures
            r@ == LevelSettings::standard(),
    {
        LevelSettingsV7 {
            gravity_2d: Vec2d { x: F64 { bits: 0 }, y: F64 { bits: 0 } },
            gravity_3d: default_gravity_3d(),
            sim_hz: default_sim_hz(),
        }
    }
}

/// The settings of versions 8 and 9 of the file.
#[derive(Clone, Copy, Debug, PartialEq, Eq, Structural)]
pub struct LevelSettingsV9 {
    pub gravity_2d: Vec2d,
    pub gravity_3d: Vec3d,
    pub sim_hz: F64,
    pub render: RenderSettingsRecord,
}

impl View for LevelSettingsV9 {
    type V = LevelSettings;

    /// What the settings mean today: no partition.
    open spec fn view(&self) -> LevelSettings {
        LevelSettings {
            gravity_2d: self.gravity_2d,
            gravity_3d: self.gravity_3d,
            sim_hz: self.sim_hz,
            render: self.render,
            partition: PartitionSettings::standard(),
        }
    }
}

impl LevelSettingsV9 {
    pub fn into_current(self) -> (r: LevelSettings)
        ensures
            r == self@,
    {
        LevelSettings {
            gravity_2d: self.gravity_2d,
            gravity_3d: self.gravity_3d,
            sim_hz: self.sim_hz,
            render: self.render,
            partition: PartitionSettings::default(),
        }
    }

    /// Project today's settings back; the partition has no place.
    pub fn from_current(s: LevelSettings) -> (r: LevelSettingsV9)
        ensures
            r@ == (LevelSettings { partition: PartitionSettings::standard(), ..s }),
    {
        LevelSettingsV9 {
            gravity_2d: s.gravity_2d,
            gravity_3d: s.gravity_3d,
            sim_hz: s.sim_hz,
            render: s.render,
        }
    }
}

impl Default for LevelSettingsV9 {
    fn default() -> (r: LevelSettingsV9)
        ensures
            r@ == LevelSettings::standard(),
    {
        LevelSettingsV9::from_current(LevelSettings::default())
    }
}

} // verus!
