//! The sky: the atmosphere component and its earlier layouts.
//!
//! Version 11 of the file knew the sun, the moon and a gradient. Version 12
//! added the physical atmosphere, version 13 the clouds, version 14 the
//! weather. A layout carries its own defaults, so that a later change of the
//! living component moves no old file.

use crate::bits::F32;
use crate::scene::component::Color;
use vstd::prelude::*;

verus! {

/// The atmosphere of version 11 of the file.
#[derive(Clone, Copy, Debug, PartialEq, Eq, Structural)]
pub struct SkyAtmosphereV11 {
    pub enabled: bool,
    pub sun_intensity: F32,
    pub sun_color: Color,
    pub moon_intensity: F32,
    pub moon_color: Color,
    pub zenith: Color,
    pub horizon: Color,
    pub ground: Color,
    pub night_darkening: F32,
}

/// The atmosphere of version 12 of the file.
#[derive(Clone, Copy, Debug, PartialEq, Eq, Structural)]
pub struct SkyAtmosphereV12 {
    pub enabled: bool,
    pub sun_intensity: F32,
    pub sun_color: Color,
    pub moon_intensity: F32,
    pub moon_color: Color,
    pub zenith: Color,
    pub horizon: Color,
    pub ground: Color,
    pub night_darkening: F32,
    pub physical: bool,
    pub sky_intensity: F32,
    pub turbidity: F32,
    pub mie_anisotropy: F32,
    pub sun_disc_deg: F32,
    pub moon_disc_deg: F32,
    pub star_intensity: F32,
    pub tint_strength: F32,
    pub aerial_perspective: F32,
    pub fog_density: F32,
    pub fog_falloff: F32,
    pub fog_height: F32,
    pub fog_color: Color,
}

/// The atmosphere of version 13 of the file.
#[derive(Clone, Copy, Debug, PartialEq, Eq, Structural)]
pub struct SkyAtmosphereV13 {
    pub enabled: bool,
    pub sun_intensity: F32,
    pub sun_color: Color,
    pub moon_intensity: F32,
    pub moon_color: Color,
    pub zenith: Color,
    pub horizon: Color,
    pub ground: Color,
    pub night_darkening: F32,
    pub physical: bool,
    pub sky_intensity: F32,
    pub turbidity: F32,
    pub mie_anisotropy: F32,
    pub sun_disc_deg: F32,
    pub moon_disc_deg: F32,
    pub star_intensity: F32,
    pub tint_strength: F32,
    pub aerial_perspective: F32,
    pub fog_density: F32,
    pub fog_falloff: F32,
    pub fog_height: F32,
    pub fog_color: Color,
    pub clouds_enabled: bool,
    pub cloud_coverage: F32,
    pub cloud_type: F32,
    pub cloud_bottom: F32,
    pub cloud_top: F32,
    pub cloud_density: F32,
    pub cloud_detail: F32,
    pub cloud_seed: u32,
    pub cloud_wind_x: F32,
    pub cloud_wind_z: F32,
    pub cloud_phase_g: F32,
    pub cloud_shadow: F32,
    pub cloud_ambient: F32,
    pub cloud_color: Color,
}

/// The atmosphere. The preset that the weather blends toward is held by its
/// ordinal.
#[derive(Clone, Copy, Debug, PartialEq, Eq, Structural)]
pub struct SkyAtmosphere {
    pub enabled: bool,
    pub sun_intensity: F32,
    pub sun_color: Color,
    pub moon_intensity: F32,
    pub moon_color: Color,
    pub zenith: Color,
    pub horizon: Color,
    pub ground: Color,
    pub night_darkening: F32,
    pub physical: bool,
    pub sky_intensity: F32,
    pub turbidity: F32,
    pub mie_anisotropy: F32,
    pub sun_disc_deg: F32,
    pub moon_disc_deg: F32,
    pub star_intensity: F32,
    pub tint_strength: F32,
    pub aerial_perspective: F32,
    pub fog_density: F32,
    pub fog_falloff: F32,
    pub fog_height: F32,
    pub fog_color: Color,
    pub clouds_enabled: bool,
    pub cloud_coverage: F32,
    pub cloud_type: F32,
    pub cloud_bottom: F32,
    pub cloud_top: F32,
    pub cloud_density: F32,
    pub cloud_detail: F32,
    pub cloud_seed: u32,
    pub cloud_wind_x: F32,
    pub cloud_wind_z: F32,
    pub cloud_phase_g: F32,
    pub cloud_shadow: F32,
    pub cloud_ambient: F32,
    pub cloud_color: Color,
    pub weather_enabled: bool,
    pub weather_target: u32,
    pub weather_blend_seconds: F32,
    pub weather_blend_remaining: F32,
    pub weather_coverage: F32,
    pub weather_cloud_type: F32,
    pub weather_wind_x: F32,
    pub weather_wind_z: F32,
    pub weather_fog_density: F32,
    pub weather_precipitation: F32,
    pub weather_snowiness: F32,
}

/// The weather part of an atmosphere.
pub struct Weather {
    pub enabled: bool,
    pub target: u32,
    pub blend_seconds: F32,
    pub blend_remaining: F32,
    pub coverage: F32,
    pub cloud_type: F32,
    pub wind_x: F32,
    pub wind_z: F32,
    pub fog_density: F32,
    pub precipitation: F32,
    pub snowiness: F32,
}

/// What an atmosphere slot of any version holds: the part that version 13 knew,
/// and the weather, where the version knew one.
pub struct SkyModel {
    pub base: SkyAtmosphereV13,
    pub weather: Option<Weather>,
}

pub fn v11_sky_true() -> (r: bool)
    ensures
        r,
{
    true
}

pub fn v11_sun_intensity() -> (r: F32)
    ensures
        r.bits == 0x4040_0000,
{
    F32 { bits: 0x4040_0000 }
}

pub fn v11_sun_color() -> (r: Color)
    ensures
        r == (Color { r: F32 { bits: 0x3f80_0000 }, g: F32 { bits: 0x3f7a_e148 }, b: F32 { bits: 0x3f73_3333 }, a: F32 { bits: 0x3f80_0000 } }),
{
    Color { r: F32 { bits: 0x3f80_0000 }, g: F32 { bits: 0x3f7a_e148 }, b: F32 { bits: 0x3f73_3333 }, a: F32 { bits: 0x3f80_0000 } }
}

pub fn v11_moon_intensity() -> (r: F32)
    ensures
        r.bits == 0x3e19_999a,
{
    F32 { bits: 0x3e19_999a }
}

pub fn v11_moon_color() -> (r: Color)
    ensures
        r == (Color { r: F32 { bits: 0x3f1e_b852 }, g: F32 { bits: 0x3f38_51ec }, b: F32 { bits: 0x3f80_0000 }, a: F32 { bits: 0x3f80_0000 } }),
{
    Color { r: F32 { bits: 0x3f1e_b852 }, g: F32 { bits: 0x3f38_51ec }, b: F32 { bits: 0x3f80_0000 }, a: F32 { bits: 0x3f80_0000 } }
}

pub fn v11_sky_zenith() -> (r: Color)
    ensures
        r == (Color { r: F32 { bits: 0x3c44_9ba6 }, g: F32 { bits: 0x3cac_0831 }, b: F32 { bits: 0x3d1b_a5e3 }, a: F32 { bits: 0x3f80_0000 } }),
{
    Color { r: F32 { bits: 0x3c44_9ba6 }, g: F32 { bits: 0x3cac_0831 }, b: F32 { bits: 0x3d1b_a5e3 }, a: F32 { bits: 0x3f80_0000 } }
}

pub fn v11_sky_horizon() -> (r: Color)
    ensures
        r == (Color { r: F32 { bits: 0x3d61_47ae }, g: F32 { bits: 0x3da5_e354 }, b: F32 { bits: 0x3df5_c28f }, a: F32 { bits: 0x3f80_0000 } }),
{
    Color { r: F32 { bits: 0x3d61_47ae }, g: F32 { bits: 0x3da5_e354 }, b: F32 { bits: 0x3df5_c28f }, a: F32 { bits: 0x3f80_0000 } }
}

pub fn v11_sky_ground() -> (r: Color)
    ensures
        r == (Color { r: F32 { bits: 0x3c13_74bc }, g: F32 { bits: 0x3c34_3958 }, b: F32 { bits: 0x3c75_c28f }, a: F32 { bits: 0x3f80_0000 } }),
{
    Color { r: F32 { bits: 0x3c13_74bc }, g: F32 { bits: 0x3c34_3958 }, b: F32 { bits: 0x3c75_c28f }, a: F32 { bits: 0x3f80_0000 } }
}

pub fn v11_night_darkening() -> (r: F32)
    ensures
        r.bits == 0x3f59_999a,
{
    F32 { bits: 0x3f59_999a }
}

pub fn v12_sky_true() -> (r: bool)
    ensures
        r,
{
    true
}

pub fn v12_sun_intensity() -> (r: F32)
    ensures
        r.bits == 0x4040_0000,
{
    F32 { bits: 0x4040_0000 }
}

pub fn v12_sun_color() -> (r: Color)
    ensures
        r == (Color { r: F32 { bits: 0x3f80_0000 }, g: F32 { bits: 0x3f7a_e148 }, b: F32 { bits: 0x3f73_3333 }, a: F32 { bits: 0x3f80_0000 } }),
{
    Color { r: F32 { bits: 0x3f80_0000 }, g: F32 { bits: 0x3f7a_e148 }, b: F32 { bits: 0x3f73_3333 }, a: F32 { bits: 0x3f80_0000 } }
}

pub fn v12_moon_intensity() -> (r: F32)
    ensures
        r.bits == 0x3e19_999a,
{
    F32 { bits: 0x3e19_999a }
}

pub fn v12_moon_color() -> (r: Color)
    ensures
        r == (Color { r: F32 { bits: 0x3f1e_b852 }, g: F32 { bits: 0x3f38_51ec }, b: F32 { bits: 0x3f80_0000 }, a: F32 { bits: 0x3f80_0000 } }),
{
    Color { r: F32 { bits: 0x3f1e_b852 }, g: F32 { bits: 0x3f38_51ec }, b: F32 { bits: 0x3f80_0000 }, a: F32 { bits: 0x3f80_0000 } }
}

pub fn v12_sky_zenith() -> (r: Color)
    ensures
        r == (Color { r: F32 { bits: 0x3c44_9ba6 }, g: F32 { bits: 0x3cac_0831 }, b: F32 { bits: 0x3d1b_a5e3 }, a: F32 { bits: 0x3f80_0000 } }),
{
    Color { r: F32 { bits: 0x3c44_9ba6 }, g: F32 { bits: 0x3cac_0831 }, b: F32 { bits: 0x3d1b_a5e3 }, a: F32 { bits: 0x3f80_0000 } }
}

pub fn v12_sky_horizon() -> (r: Color)
    ensures
        r == (Color { r: F32 { bits: 0x3d61_47ae }, g: F32 { bits: 0x3da5_e354 }, b: F32 { bits: 0x3df5_c28f }, a: F32 { bits: 0x3f80_0000 } }),
{
    Color { r: F32 { bits: 0x3d61_47ae }, g: F32 { bits: 0x3da5_e354 }, b: F32 { bits: 0x3df5_c28f }, a: F32 { bits: 0x3f80_0000 } }
}

pub fn v12_sky_ground() -> (r: Color)
    ensures
        r == (Color { r: F32 { bits: 0x3c13_74bc }, g: F32 { bits: 0x3c34_3958 }, b: F32 { bits: 0x3c75_c28f }, a: F32 { bits: 0x3f80_0000 } }),
{
    Color { r: F32 { bits: 0x3c13_74bc }, g: F32 { bits: 0x3c34_3958 }, b: F32 { bits: 0x3c75_c28f }, a: F32 { bits: 0x3f80_0000 } }
}

pub fn v12_night_darkening() -> (r: F32)
    ensures
        r.bits == 0x3f59_999a,
{
    F32 { bits: 0x3f59_999a }
}

pub fn v12_one() -> (r: F32)
    ensures
        r.bits == 0x3f80_0000,
{
    F32 { bits: 0x3f80_0000 }
}

pub fn v12_mie_anisotropy() -> (r: F32)
    ensures
        r.bits == 0x3f4c_cccd,
{
    F32 { bits: 0x3f4c_cccd }
}

pub fn v12_sun_disc_deg() -> (r: F32)
    ensures
        r.bits == 0x3f0b_851f,
{
    F32 { bits: 0x3f0b_851f }
}

pub fn v12_moon_disc_deg() -> (r: F32)
    ensures
        r.bits == 0x3f05_1eb8,
{
    F32 { bits: 0x3f05_1eb8 }
}

pub fn v12_fog_falloff() -> (r: F32)
    ensures
        r.bits == 0x3b03_126f,
{
    F32 { bits: 0x3b03_126f }
}

pub fn v12_fog_color() -> (r: Color)
    ensures
        r == (Color { r: F32 { bits: 0x3f80_0000 }, g: F32 { bits: 0x3f80_0000 }, b: F32 { bits: 0x3f80_0000 }, a: F32 { bits: 0x3f80_0000 } }),
{
    Color { r: F32 { bits: 0x3f80_0000 }, g: F32 { bits: 0x3f80_0000 }, b: F32 { bits: 0x3f80_0000 }, a: F32 { bits: 0x3f80_0000 } }
}

pub fn v13_sky_true() -> (r: bool)
    ensures
        r,
{
    true
}

pub fn v13_sun_intensity() -> (r: F32)
    ensures
        r.bits == 0x4040_0000,
{
    F32 { bits: 0x4040_0000 }
}

pub fn v13_sun_color() -> (r: Color)
    ensures
        r == (Color { r: F32 { bits: 0x3f80_0000 }, g: F32 { bits: 0x3f7a_e148 }, b: F32 { bits: 0x3f73_3333 }, a: F32 { bits: 0x3f80_0000 } }),
{
    Color { r: F32 { bits: 0x3f80_0000 }, g: F32 { bits: 0x3f7a_e148 }, b: F32 { bits: 0x3f73_3333 }, a: F32 { bits: 0x3f80_0000 } }
}

pub fn v13_moon_intensity() -> (r: F32)
    ensures
        r.bits == 0x3e19_999a,
{
    F32 { bits: 0x3e19_999a }
}

pub fn v13_moon_color() -> (r: Color)
    ensures
        r == (Color { r: F32 { bits: 0x3f1e_b852 }, g: F32 { bits: 0x3f38_51ec }, b: F32 { bits: 0x3f80_0000 }, a: F32 { bits: 0x3f80_0000 } }),
{
    Color { r: F32 { bits: 0x3f1e_b852 }, g: F32 { bits: 0x3f38_51ec }, b: F32 { bits: 0x3f80_0000 }, a: F32 { bits: 0x3f80_0000 } }
}

pub fn v13_sky_zenith() -> (r: Color)
    ensures
        r == (Color { r: F32 { bits: 0x3c44_9ba6 }, g: F32 { bits: 0x3cac_0831 }, b: F32 { bits: 0x3d1b_a5e3 }, a: F32 { bits: 0x3f80_0000 } }),
{
    Color { r: F32 { bits: 0x3c44_9ba6 }, g: F32 { bits: 0x3cac_0831 }, b: F32 { bits: 0x3d1b_a5e3 }, a: F32 { bits: 0x3f80_0000 } }
}

pub fn v13_sky_horizon() -> (r: Color)
    ensures
        r == (Color { r: F32 { bits: 0x3d61_47ae }, g: F32 { bits: 0x3da5_e354 }, b: F32 { bits: 0x3df5_c28f }, a: F32 { bits: 0x3f80_0000 } }),
{
    Color { r: F32 { bits: 0x3d61_47ae }, g: F32 { bits: 0x3da5_e354 }, b: F32 { bits: 0x3df5_c28f }, a: F32 { bits: 0x3f80_0000 } }
}

pub fn v13_sky_ground() -> (r: Color)
    ensures
        r == (Color { r: F32 { bits: 0x3c13_74bc }, g: F32 { bits: 0x3c34_3958 }, b: F32 { bits: 0x3c75_c28f }, a: F32 { bits: 0x3f80_0000 } }),
{
    Color { r: F32 { bits: 0x3c13_74bc }, g: F32 { bits: 0x3c34_3958 }, b: F32 { bits: 0x3c75_c28f }, a: F32 { bits: 0x3f80_0000 } }
}

pub fn v13_night_darkening() -> (r: F32)
    ensures
        r.bits == 0x3f59_999a,
{
    F32 { bits: 0x3f59_999a }
}

pub fn v13_one() -> (r: F32)
    ensures
        r.bits == 0x3f80_0000,
{
    F32 { bits: 0x3f80_0000 }
}

pub fn v13_mie_anisotropy() -> (r: F32)
    ensures
        r.bits == 0x3f4c_cccd,
{
    F32 { bits: 0x3f4c_cccd }
}

pub fn v13_sun_disc_deg() -> (r: F32)
    ensures
        r.bits == 0x3f0b_851f,
{
    F32 { bits: 0x3f0b_851f }
}

pub fn v13_moon_disc_deg() -> (r: F32)
    ensures
        r.bits == 0x3f05_1eb8,
{
    F32 { bits: 0x3f05_1eb8 }
}

pub fn v13_fog_falloff() -> (r: F32)
    ensures
        r.bits == 0x3b03_126f,
{
    F32 { bits: 0x3b03_126f }
}

pub fn v13_fog_color() -> (r: Color)
    ensures
        r == (Color { r: F32 { bits: 0x3f80_0000 }, g: F32 { bits: 0x3f80_0000 }, b: F32 { bits: 0x3f80_0000 }, a: F32 { bits: 0x3f80_0000 } }),
{
    Color { r: F32 { bits: 0x3f80_0000 }, g: F32 { bits: 0x3f80_0000 }, b: F32 { bits: 0x3f80_0000 }, a: F32 { bits: 0x3f80_0000 } }
}

pub fn v13_cloud_coverage() -> (r: F32)
    ensures
        r.bits == 0x3eb3_3333,
{
    F32 { bits: 0x3eb3_3333 }
}

pub fn v13_cloud_type() -> (r: F32)
    ensures
        r.bits == 0x3f33_3333,
{
    F32 { bits: 0x3f33_3333 }
}

pub fn v13_cloud_bottom() -> (r: F32)
    ensures
        r.bits == 0x44bb_8000,
{
    F32 { bits: 0x44bb_8000 }
}

pub fn v13_cloud_top() -> (r: F32)
    ensures
        r.bits == 0x457a_0000,
{
    F32 { bits: 0x457a_0000 }
}

pub fn v13_cloud_density() -> (r: F32)
    ensures
        r.bits == 0x3d23_d70a,
{
    F32 { bits: 0x3d23_d70a }
}

pub fn v13_cloud_detail() -> (r: F32)
    ensures
        r.bits == 0x3f19_999a,
{
    F32 { bits: 0x3f19_999a }
}

pub fn v13_cloud_wind_x() -> (r: F32)
    ensures
        r.bits == 0x40c0_0000,
{
    F32 { bits: 0x40c0_0000 }
}

pub fn v13_cloud_wind_z() -> (r: F32)
    ensures
        r.bits == 0x4000_0000,
{
    F32 { bits: 0x4000_0000 }
}

pub fn v13_cloud_phase_g() -> (r: F32)
    ensures
        r.bits == 0x3f4c_cccd,
{
    F32 { bits: 0x3f4c_cccd }
}

pub fn v13_cloud_color() -> (r: Color)
    ensures
        r == (Color { r: F32 { bits: 0x3f80_0000 }, g: F32 { bits: 0x3f80_0000 }, b: F32 { bits: 0x3f80_0000 }, a: F32 { bits: 0x3f80_0000 } }),
{
    Color { r: F32 { bits: 0x3f80_0000 }, g: F32 { bits: 0x3f80_0000 }, b: F32 { bits: 0x3f80_0000 }, a: F32 { bits: 0x3f80_0000 } }
}

impl SkyAtmosphereV11 {
    /// What a version 11 payload means that leaves every field out.
    pub open spec fn standard() -> SkyAtmosphereV11 {
        SkyAtmosphereV11 {
            enabled: true,
            sun_intensity: F32 { bits: 0x4040_0000 },
            sun_color: Color { r: F32 { bits: 0x3f80_0000 }, g: F32 { bits: 0x3f7a_e148 }, b: F32 { bits: 0x3f73_3333 }, a: F32 { bits: 0x3f80_0000 } },
            moon_intensity: F32 { bits: 0x3e19_999a },
            moon_color: Color { r: F32 { bits: 0x3f1e_b852 }, g: F32 { bits: 0x3f38_51ec }, b: F32 { bits: 0x3f80_0000 }, a: F32 { bits: 0x3f80_0000 } },
            zenith: Color { r: F32 { bits: 0x3c44_9ba6 }, g: F32 { bits: 0x3cac_0831 }, b: F32 { bits: 0x3d1b_a5e3 }, a: F32 { bits: 0x3f80_0000 } },
            horizon: Color { r: F32 { bits: 0x3d61_47ae }, g: F32 { bits: 0x3da5_e354 }, b: F32 { bits: 0x3df5_c28f }, a: F32 { bits: 0x3f80_0000 } },
            ground: Color { r: F32 { bits: 0x3c13_74bc }, g: F32 { bits: 0x3c34_3958 }, b: F32 { bits: 0x3c75_c28f }, a: F32 { bits: 0x3f80_0000 } },
            night_darkening: F32 { bits: 0x3f59_999a },
        }
    }

    /// What the atmosphere means in version 12: its own fields, and the standard
    /// of that version for the rest.
    pub open spec fn as_v12(self) -> SkyAtmosphereV12 {
        SkyAtmosphereV12 {
            enabled: self.enabled,
            sun_intensity: self.sun_intensity,
            sun_color: self.sun_color,
            moon_intensity: self.moon_intensity,
            moon_color: self.moon_color,
            zenith: self.zenith,
            horizon: self.horizon,
            ground: self.ground,
            night_darkening: self.night_darkening,
            ..SkyAtmosphereV12::standard()
        }
    }

    pub fn into_v12(self) -> (r: SkyAtmosphereV12)
        ensures
            r == self.as_v12(),
    {
        SkyAtmosphereV12 {
            enabled: self.enabled,
            sun_intensity: self.sun_intensity,
            sun_color: self.sun_color,
            moon_intensity: self.moon_intensity,
            moon_color: self.moon_color,
            zenith: self.zenith,
            horizon: self.horizon,
            ground: self.ground,
            night_darkening: self.night_darkening,
            physical: v12_sky_true(),
            sky_intensity: v12_one(),
            turbidity: v12_one(),
            mie_anisotropy: v12_mie_anisotropy(),
            sun_disc_deg: v12_sun_disc_deg(),
            moon_disc_deg: v12_moon_disc_deg(),
            star_intensity: v12_one(),
            tint_strength: F32 { bits: 0 },
            aerial_perspective: v12_one(),
            fog_density: F32 { bits: 0 },
            fog_falloff: v12_fog_falloff(),
            fog_height: F32 { bits: 0 },
            fog_color: v12_fog_color(),
        }
    }

    /// Project today's atmosphere back onto this layout; what has no place in it
    /// is dropped.
    pub fn from_current(a: SkyAtmosphere) -> (r: SkyAtmosphereV11)
        ensures
            r == a.as_of_v11(),
    {
        SkyAtmosphereV11 {
            enabled: a.enabled,
            sun_intensity: a.sun_intensity,
            sun_color: a.sun_color,
            moon_intensity: a.moon_intensity,
            moon_color: a.moon_color,
            zenith: a.zenith,
            horizon: a.horizon,
            ground: a.ground,
            night_darkening: a.night_darkening,
        }
    }
}

impl Default for SkyAtmosphereV11 {
    fn default() -> (r: SkyAtmosphereV11)
        ensures
            r == SkyAtmosphereV11::standard(),
    {
        SkyAtmosphereV11 {
            enabled: v11_sky_true(),
            sun_intensity: v11_sun_intensity(),
            sun_color: v11_sun_color(),
            moon_intensity: v11_moon_intensity(),
            moon_color: v11_moon_color(),
            zenith: v11_sky_zenith(),
            horizon: v11_sky_horizon(),
            ground: v11_sky_ground(),
            night_darkening: v11_night_darkening(),
        }
    }
}

impl SkyAtmosphereV12 {
    /// What a version 12 payload means that leaves every field out.
    pub open spec fn standard() -> SkyAtmosphereV12 {
        SkyAtmosphereV12 {
            enabled: true,
            sun_intensity: F32 { bits: 0x4040_0000 },
            sun_color: Color { r: F32 { bits: 0x3f80_0000 }, g: F32 { bits: 0x3f7a_e148 }, b: F32 { bits: 0x3f73_3333 }, a: F32 { bits: 0x3f80_0000 } },
            moon_intensity: F32 { bits: 0x3e19_999a },
            moon_color: Color { r: F32 { bits: 0x3f1e_b852 }, g: F32 { bits: 0x3f38_51ec }, b: F32 { bits: 0x3f80_0000 }, a: F32 { bits: 0x3f80_0000 } },
            zenith: Color { r: F32 { bits: 0x3c44_9ba6 }, g: F32 { bits: 0x3cac_0831 }, b: F32 { bits: 0x3d1b_a5e3 }, a: F32 { bits: 0x3f80_0000 } },
            horizon: Color { r: F32 { bits: 0x3d61_47ae }, g: F32 { bits: 0x3da5_e354 }, b: F32 { bits: 0x3df5_c28f }, a: F32 { bits: 0x3f80_0000 } },
            ground: Color { r: F32 { bits: 0x3c13_74bc }, g: F32 { bits: 0x3c34_3958 }, b: F32 { bits: 0x3c75_c28f }, a: F32 { bits: 0x3f80_0000 } },
            night_darkening: F32 { bits: 0x3f59_999a },
            physical: true,
            sky_intensity: F32 { bits: 0x3f80_0000 },
            turbidity: F32 { bits: 0x3f80_0000 },
            mie_anisotropy: F32 { bits: 0x3f4c_cccd },
            sun_disc_deg: F32 { bits: 0x3f0b_851f },
            moon_disc_deg: F32 { bits: 0x3f05_1eb8 },
            star_intensity: F32 { bits: 0x3f80_0000 },
            tint_strength: F32 { bits: 0 },
            aerial_perspective: F32 { bits: 0x3f80_0000 },
            fog_density: F32 { bits: 0 },
            fog_falloff: F32 { bits: 0x3b03_126f },
            fog_height: F32 { bits: 0 },
            fog_color: Color { r: F32 { bits: 0x3f80_0000 }, g: F32 { bits: 0x3f80_0000 }, b: F32 { bits: 0x3f80_0000 }, a: F32 { bits: 0x3f80_0000 } },
        }
    }

    /// What the atmosphere means in version 13: its own fields, and the standard
    /// of that version for the rest.
    pub open spec fn as_v13(self) -> SkyAtmosphereV13 {
        SkyAtmosphereV13 {
            enabled: self.enabled,
            sun_intensity: self.sun_intensity,
            sun_color: self.sun_color,
            moon_intensity: self.moon_intensity,
            moon_color: self.moon_color,
            zenith: self.zenith,
            horizon: self.horizon,
            ground: self.ground,
            night_darkening: self.night_darkening,
            physical: self.physical,
            sky_intensity: self.sky_intensity,
            turbidity: self.turbidity,
            mie_anisotropy: self.mie_anisotropy,
            sun_disc_deg: self.sun_disc_deg,
            moon_disc_deg: self.moon_disc_deg,
            star_intensity: self.star_intensity,
            tint_strength: self.tint_strength,
            aerial_perspective: self.aerial_perspective,
            fog_density: self.fog_density,
            fog_falloff: self.fog_falloff,
            fog_height: self.fog_height,
            fog_color: self.fog_color,
            ..SkyAtmosphereV13::standard()
        }
    }

    pub fn into_v13(self) -> (r: SkyAtmosphereV13)
        ensures
            r == self.as_v13(),
    {
        SkyAtmosphereV13 {
            enabled: self.enabled,
            sun_intensity: self.sun_intensity,
            sun_color: self.sun_color,
            moon_intensity: self.moon_intensity,
            moon_color: self.moon_color,
            zenith: self.zenith,
            horizon: self.horizon,
            ground: self.ground,
            night_darkening: self.night_darkening,
            physical: self.physical,
            sky_intensity: self.sky_intensity,
            turbidity: self.turbidity,
            mie_anisotropy: self.mie_anisotropy,
            sun_disc_deg: self.sun_disc_deg,
            moon_disc_deg: self.moon_disc_deg,
            star_intensity: self.star_intensity,
            tint_strength: self.tint_strength,
            aerial_perspective: self.aerial_perspective,
            fog_density: self.fog_density,
            fog_falloff: self.fog_falloff,
            fog_height: self.fog_height,
            fog_color: self.fog_color,
            clouds_enabled: false,
            cloud_coverage: v13_cloud_coverage(),
            cloud_type: v13_cloud_type(),
            cloud_bottom: v13_cloud_bottom(),
            cloud_top: v13_cloud_top(),
            cloud_density: v13_cloud_density(),
            cloud_detail: v13_cloud_detail(),
            cloud_seed: 0,
            cloud_wind_x: v13_cloud_wind_x(),
            cloud_wind_z: v13_cloud_wind_z(),
            cloud_phase_g: v13_cloud_phase_g(),
            cloud_shadow: v13_one(),
            cloud_ambient: v13_one(),
            cloud_color: v13_cloud_color(),
        }
    }

    /// Project today's atmosphere back onto this layout; what has no place in it
    /// is dropped.
    pub fn from_current(a: SkyAtmosphere) -> (r: SkyAtmosphereV12)
        ensures
            r == a.as_of_v12(),
    {
        SkyAtmosphereV12 {
            enabled: a.enabled,
            sun_intensity: a.sun_intensity,
            sun_color: a.sun_color,
            moon_intensity: a.moon_intensity,
            moon_color: a.moon_color,
            zenith: a.zenith,
            horizon: a.horizon,
            ground: a.ground,
            night_darkening: a.night_darkening,
            physical: a.physical,
            sky_intensity: a.sky_intensity,
            turbidity: a.turbidity,
            mie_anisotropy: a.mie_anisotropy,
            sun_disc_deg: a.sun_disc_deg,
            moon_disc_deg: a.moon_disc_deg,
            star_intensity: a.star_intensity,
            tint_strength: a.tint_strength,
            aerial_perspective: a.aerial_perspective,
            fog_density: a.fog_density,
            fog_falloff: a.fog_falloff,
            fog_height: a.fog_height,
            fog_color: a.fog_color,
        }
    }
}

impl Default for SkyAtmosphereV12 {
    fn default() -> (r: SkyAtmosphereV12)
        ensures
            r == SkyAtmosphereV12::standard(),
    {
        SkyAtmosphereV12 {
            enabled: v12_sky_true(),
            sun_intensity: v12_sun_intensity(),
            sun_color: v12_sun_color(),
            moon_intensity: v12_moon_intensity(),
            moon_color: v12_moon_color(),
            zenith: v12_sky_zenith(),
            horizon: v12_sky_horizon(),
            ground: v12_sky_ground(),
            night_darkening: v12_night_darkening(),
            physical: v12_sky_true(),
            sky_intensity: v12_one(),
            turbidity: v12_one(),
            mie_anisotropy: v12_mie_anisotropy(),
            sun_disc_deg: v12_sun_disc_deg(),
            moon_disc_deg: v12_moon_disc_deg(),
            star_intensity: v12_one(),
            tint_strength: F32 { bits: 0 },
            aerial_perspective: v12_one(),
            fog_density: F32 { bits: 0 },
            fog_falloff: v12_fog_falloff(),
            fog_height: F32 { bits: 0 },
            fog_color: v12_fog_color(),
        }
    }
}

impl SkyAtmosphereV13 {
    /// What a version 13 payload means that leaves every field out.
    pub open spec fn standard() -> SkyAtmosphereV13 {
        SkyAtmosphereV13 {
            enabled: true,
            sun_intensity: F32 { bits: 0x4040_0000 },
            sun_color: Color { r: F32 { bits: 0x3f80_0000 }, g: F32 { bits: 0x3f7a_e148 }, b: F32 { bits: 0x3f73_3333 }, a: F32 { bits: 0x3f80_0000 } },
            moon_intensity: F32 { bits: 0x3e19_999a },
            moon_color: Color { r: F32 { bits: 0x3f1e_b852 }, g: F32 { bits: 0x3f38_51ec }, b: F32 { bits: 0x3f80_0000 }, a: F32 { bits: 0x3f80_0000 } },
            zenith: Color { r: F32 { bits: 0x3c44_9ba6 }, g: F32 { bits: 0x3cac_0831 }, b: F32 { bits: 0x3d1b_a5e3 }, a: F32 { bits: 0x3f80_0000 } },
            horizon: Color { r: F32 { bits: 0x3d61_47ae }, g: F32 { bits: 0x3da5_e354 }, b: F32 { bits: 0x3df5_c28f }, a: F32 { bits: 0x3f80_0000 } },
            ground: Color { r: F32 { bits: 0x3c13_74bc }, g: F32 { bits: 0x3c34_3958 }, b: F32 { bits: 0x3c75_c28f }, a: F32 { bits: 0x3f80_0000 } },
            night_darkening: F32 { bits: 0x3f59_999a },
            physical: true,
            sky_intensity: F32 { bits: 0x3f80_0000 },
            turbidity: F32 { bits: 0x3f80_0000 },
            mie_anisotropy: F32 { bits: 0x3f4c_cccd },
            sun_disc_deg: F32 { bits: 0x3f0b_851f },
            moon_disc_deg: F32 { bits: 0x3f05_1eb8 },
            star_intensity: F32 { bits: 0x3f80_0000 },
            tint_strength: F32 { bits: 0 },
            aerial_perspective: F32 { bits: 0x3f80_0000 },
            fog_density: F32 { bits: 0 },
            fog_falloff: F32 { bits: 0x3b03_126f },
            fog_height: F32 { bits: 0 },
            fog_color: Color { r: F32 { bits: 0x3f80_0000 }, g: F32 { bits: 0x3f80_0000 }, b: F32 { bits: 0x3f80_0000 }, a: F32 { bits: 0x3f80_0000 } },
            clouds_enabled: false,
            cloud_coverage: F32 { bits: 0x3eb3_3333 },
            cloud_type: F32 { bits: 0x3f33_3333 },
            cloud_bottom: F32 { bits: 0x44bb_8000 },
            cloud_top: F32 { bits: 0x457a_0000 },
            cloud_density: F32 { bits: 0x3d23_d70a },
            cloud_detail: F32 { bits: 0x3f19_999a },
            cloud_seed: 0,
            cloud_wind_x: F32 { bits: 0x40c0_0000 },
            cloud_wind_z: F32 { bits: 0x4000_0000 },
            cloud_phase_g: F32 { bits: 0x3f4c_cccd },
            cloud_shadow: F32 { bits: 0x3f80_0000 },
            cloud_ambient: F32 { bits: 0x3f80_0000 },
            cloud_color: Color { r: F32 { bits: 0x3f80_0000 }, g: F32 { bits: 0x3f80_0000 }, b: F32 { bits: 0x3f80_0000 }, a: F32 { bits: 0x3f80_0000 } },
        }
    }

    /// What the atmosphere means today: its own fields, and the weather of
    /// `standard`, the living component's default.
    pub open spec fn with_weather_of(self, standard: SkyAtmosphere) -> SkyAtmosphere {
        SkyAtmosphere {
            enabled: self.enabled,
            sun_intensity: self.sun_intensity,
            sun_color: self.sun_color,
            moon_intensity: self.moon_intensity,
            moon_color: self.moon_color,
            zenith: self.zenith,
            horizon: self.horizon,
            ground: self.ground,
            night_darkening: self.night_darkening,
            physical: self.physical,
            sky_intensity: self.sky_intensity,
            turbidity: self.turbidity,
            mie_anisotropy: self.mie_anisotropy,
            sun_disc_deg: self.sun_disc_deg,
            moon_disc_deg: self.moon_disc_deg,
            star_intensity: self.star_intensity,
            tint_strength: self.tint_strength,
            aerial_perspective: self.aerial_perspective,
            fog_density: self.fog_density,
            fog_falloff: self.fog_falloff,
            fog_height: self.fog_height,
            fog_color: self.fog_color,
            clouds_enabled: self.clouds_enabled,
            cloud_coverage: self.cloud_coverage,
            cloud_type: self.cloud_type,
            cloud_bottom: self.cloud_bottom,
            cloud_top: self.cloud_top,
            cloud_density: self.cloud_density,
            cloud_detail: self.cloud_detail,
            cloud_seed: self.cloud_seed,
            cloud_wind_x: self.cloud_wind_x,
            cloud_wind_z: self.cloud_wind_z,
            cloud_phase_g: self.cloud_phase_g,
            cloud_shadow: self.cloud_shadow,
            cloud_ambient: self.cloud_ambient,
            cloud_color: self.cloud_color,
            ..standard
        }
    }

    pub fn into_current(self, standard: &SkyAtmosphere) -> (r: SkyAtmosphere)
        ensures
            r == self.with_weather_of(*standard),
    {
        SkyAtmosphere {
            enabled: self.enabled,
            sun_intensity: self.sun_intensity,
            sun_color: self.sun_color,
            moon_intensity: self.moon_intensity,
            moon_color: self.moon_color,
            zenith: self.zenith,
            horizon: self.horizon,
            ground: self.ground,
            night_darkening: self.night_darkening,
            physical: self.physical,
            sky_intensity: self.sky_intensity,
            turbidity: self.turbidity,
            mie_anisotropy: self.mie_anisotropy,
            sun_disc_deg: self.sun_disc_deg,
            moon_disc_deg: self.moon_disc_deg,
            star_intensity: self.star_intensity,
            tint_strength: self.tint_strength,
            aerial_perspective: self.aerial_perspective,
            fog_density: self.fog_density,
            fog_falloff: self.fog_falloff,
            fog_height: self.fog_height,
            fog_color: self.fog_color,
            clouds_enabled: self.clouds_enabled,
            cloud_coverage: self.cloud_coverage,
            cloud_type: self.cloud_type,
            cloud_bottom: self.cloud_bottom,
            cloud_top: self.cloud_top,
            cloud_density: self.cloud_density,
            cloud_detail: self.cloud_detail,
            cloud_seed: self.cloud_seed,
            cloud_wind_x: self.cloud_wind_x,
            cloud_wind_z: self.cloud_wind_z,
            cloud_phase_g: self.cloud_phase_g,
            cloud_shadow: self.cloud_shadow,
            cloud_ambient: self.cloud_ambient,
            cloud_color: self.cloud_color,
            weather_enabled: standard.weather_enabled,
            weather_target: standard.weather_target,
            weather_blend_seconds: standard.weather_blend_seconds,
            weather_blend_remaining: standard.weather_blend_remaining,
            weather_coverage: standard.weather_coverage,
            weather_cloud_type: standard.weather_cloud_type,
            weather_wind_x: standard.weather_wind_x,
            weather_wind_z: standard.weather_wind_z,
            weather_fog_density: standard.weather_fog_density,
            weather_precipitation: standard.weather_precipitation,
            weather_snowiness: standard.weather_snowiness,
        }
    }

    /// Project today's atmosphere back onto this layout; what has no place in it
    /// is dropped.
    pub fn from_current(a: SkyAtmosphere) -> (r: SkyAtmosphereV13)
        ensures
            r == a.as_of_v13(),
    {
        SkyAtmosphereV13 {
            enabled: a.enabled,
            sun_intensity: a.sun_intensity,
            sun_color: a.sun_color,
            moon_intensity: a.moon_intensity,
            moon_color: a.moon_color,
            zenith: a.zenith,
            horizon: a.horizon,
            ground: a.ground,
            night_darkening: a.night_darkening,
            physical: a.physical,
            sky_intensity: a.sky_intensity,
            turbidity: a.turbidity,
            mie_anisotropy: a.mie_anisotropy,
            sun_disc_deg: a.sun_disc_deg,
            moon_disc_deg: a.moon_disc_deg,
            star_intensity: a.star_intensity,
            tint_strength: a.tint_strength,
            aerial_perspective: a.aerial_perspective,
            fog_density: a.fog_density,
            fog_falloff: a.fog_falloff,
            fog_height: a.fog_height,
            fog_color: a.fog_color,
            clouds_enabled: a.clouds_enabled,
            cloud_coverage: a.cloud_coverage,
            cloud_type: a.cloud_type,
            cloud_bottom: a.cloud_bottom,
            cloud_top: a.cloud_top,
            cloud_density: a.cloud_density,
            cloud_detail: a.cloud_detail,
            cloud_seed: a.cloud_seed,
            cloud_wind_x: a.cloud_wind_x,
            cloud_wind_z: a.cloud_wind_z,
            cloud_phase_g: a.cloud_phase_g,
            cloud_shadow: a.cloud_shadow,
            cloud_ambient: a.cloud_ambient,
            cloud_color: a.cloud_color,
        }
    }
}

impl Default for SkyAtmosphereV13 {
    fn default() -> (r: SkyAtmosphereV13)
        ensures
            r == SkyAtmosphereV13::standard(),
    {
        SkyAtmosphereV13 {
            enabled: v13_sky_true(),
            sun_intensity: v13_sun_intensity(),
            sun_color: v13_sun_color(),
            moon_intensity: v13_moon_intensity(),
            moon_color: v13_moon_color(),
            zenith: v13_sky_zenith(),
            horizon: v13_sky_horizon(),
            ground: v13_sky_ground(),
            night_darkening: v13_night_darkening(),
            physical: v13_sky_true(),
            sky_intensity: v13_one(),
            turbidity: v13_one(),
            mie_anisotropy: v13_mie_anisotropy(),
            sun_disc_deg: v13_sun_disc_deg(),
            moon_disc_deg: v13_moon_disc_deg(),
            star_intensity: v13_one(),
            tint_strength: F32 { bits: 0 },
            aerial_perspective: v13_one(),
            fog_density: F32 { bits: 0 },
            fog_falloff: v13_fog_falloff(),
            fog_height: F32 { bits: 0 },
            fog_color: v13_fog_color(),
            clouds_enabled: false,
            cloud_coverage: v13_cloud_coverage(),
            cloud_type: v13_cloud_type(),
            cloud_bottom: v13_cloud_bottom(),
            cloud_top: v13_cloud_top(),
            cloud_density: v13_cloud_density(),
            cloud_detail: v13_cloud_detail(),
            cloud_seed: 0,
            cloud_wind_x: v13_cloud_wind_x(),
            cloud_wind_z: v13_cloud_wind_z(),
            cloud_phase_g: v13_cloud_phase_g(),
            cloud_shadow: v13_one(),
            cloud_ambient: v13_one(),
            cloud_color: v13_cloud_color(),
        }
    }
}

impl SkyAtmosphere {
    /// The fields that version 11 knew.
    pub open spec fn as_of_v11(self) -> SkyAtmosphereV11 {
        SkyAtmosphereV11 {
            enabled: self.enabled,
            sun_intensity: self.sun_intensity,
            sun_color: self.sun_color,
            moon_intensity: self.moon_intensity,
            moon_color: self.moon_color,
            zenith: self.zenith,
            horizon: self.horizon,
            ground: self.ground,
            night_darkening: self.night_darkening,
        }
    }

    /// The fields that version 12 knew.
    pub open spec fn as_of_v12(self) -> SkyAtmosphereV12 {
        SkyAtmosphereV12 {
            enabled: self.enabled,
            sun_intensity: self.sun_intensity,
            sun_color: self.sun_color,
            moon_intensity: self.moon_intensity,
            moon_color: self.moon_color,
            zenith: self.zenith,
            horizon: self.horizon,
            ground: self.ground,
            night_darkening: self.night_darkening,
            physical: self.physical,
            sky_intensity: self.sky_intensity,
            turbidity: self.turbidity,
            mie_anisotropy: self.mie_anisotropy,
            sun_disc_deg: self.sun_disc_deg,
            moon_disc_deg: self.moon_disc_deg,
            star_intensity: self.star_intensity,
            tint_strength: self.tint_strength,
            aerial_perspective: self.aerial_perspective,
            fog_density: self.fog_density,
            fog_falloff: self.fog_falloff,
            fog_height: self.fog_height,
            fog_color: self.fog_color,
        }
    }

    /// The fields that version 13 knew.
    pub open spec fn as_of_v13(self) -> SkyAtmosphereV13 {
        SkyAtmosphereV13 {
            enabled: self.enabled,
            sun_intensity: self.sun_intensity,
            sun_color: self.sun_color,
            moon_intensity: self.moon_intensity,
            moon_color: self.moon_color,
            zenith: self.zenith,
            horizon: self.horizon,
            ground: self.ground,
            night_darkening: self.night_darkening,
            physical: self.physical,
            sky_intensity: self.sky_intensity,
            turbidity: self.turbidity,
            mie_anisotropy: self.mie_anisotropy,
            sun_disc_deg: self.sun_disc_deg,
            moon_disc_deg: self.moon_disc_deg,
            star_intensity: self.star_intensity,
            tint_strength: self.tint_strength,
            aerial_perspective: self.aerial_perspective,
            fog_density: self.fog_density,
            fog_falloff: self.fog_falloff,
            fog_height: self.fog_height,
            fog_color: self.fog_color,
            clouds_enabled: self.clouds_enabled,
            cloud_coverage: self.cloud_coverage,
            cloud_type: self.cloud_type,
            cloud_bottom: self.cloud_bottom,
            cloud_top: self.cloud_top,
            cloud_density: self.cloud_density,
            cloud_detail: self.cloud_detail,
            cloud_seed: self.cloud_seed,
            cloud_wind_x: self.cloud_wind_x,
            cloud_wind_z: self.cloud_wind_z,
            cloud_phase_g: self.cloud_phase_g,
            cloud_shadow: self.cloud_shadow,
            cloud_ambient: self.cloud_ambient,
            cloud_color: self.cloud_color,
        }
    }

    /// The weather fields.
    pub open spec fn weather(self) -> Weather {
        Weather {
            enabled: self.weather_enabled,
            target: self.weather_target,
            blend_seconds: self.weather_blend_seconds,
            blend_remaining: self.weather_blend_remaining,
            coverage: self.weather_coverage,
            cloud_type: self.weather_cloud_type,
            wind_x: self.weather_wind_x,
            wind_z: self.weather_wind_z,
            fog_density: self.weather_fog_density,
            precipitation: self.weather_precipitation,
            snowiness: self.weather_snowiness,
        }
    }
}

/// The meaning of a filled atmosphere slot; one for each layout.
pub open spec fn sky_v11(s: Option<SkyAtmosphereV11>) -> Option<SkyModel> {
    match s {
        Some(a) => Some(SkyModel { base: a.as_v12().as_v13(), weather: None }),
        None => None,
    }
}

pub open spec fn sky_v12(s: Option<SkyAtmosphereV12>) -> Option<SkyModel> {
    match s {
        Some(a) => Some(SkyModel { base: a.as_v13(), weather: None }),
        None => None,
    }
}

pub open spec fn sky_v13(s: Option<SkyAtmosphereV13>) -> Option<SkyModel> {
    match s {
        Some(a) => Some(SkyModel { base: a, weather: None }),
        None => None,
    }
}

pub open spec fn sky_now(s: Option<SkyAtmosphere>) -> Option<SkyModel> {
    match s {
        Some(a) => Some(SkyModel { base: a.as_of_v13(), weather: Some(a.weather()) }),
        None => None,
    }
}

impl SkyModel {
    /// The model with the weather filled in where the version knew none.
    pub open spec fn with_weather(self, w: Weather) -> SkyModel {
        SkyModel {
            weather: match self.weather {
                Some(own) => Some(own),
                None => Some(w),
            },
            ..self
        }
    }

    /// What version 13 could hold of it.
    pub open spec fn as_of_v13(self) -> SkyModel {
        SkyModel { weather: None, ..self }
    }

    /// What version 12 could hold of it: the clouds return to the standard.
    pub open spec fn as_of_v12(self) -> SkyModel {
        let b = self.base;
        SkyModel {
            base: SkyAtmosphereV12 {
                enabled: b.enabled,
                sun_intensity: b.sun_intensity,
                sun_color: b.sun_color,
                moon_intensity: b.moon_intensity,
                moon_color: b.moon_color,
                zenith: b.zenith,
                horizon: b.horizon,
                ground: b.ground,
                night_darkening: b.night_darkening,
                physical: b.physical,
                sky_intensity: b.sky_intensity,
                turbidity: b.turbidity,
                mie_anisotropy: b.mie_anisotropy,
                sun_disc_deg: b.sun_disc_deg,
                moon_disc_deg: b.moon_disc_deg,
                star_intensity: b.star_intensity,
                tint_strength: b.tint_strength,
                aerial_perspective: b.aerial_perspective,
                fog_density: b.fog_density,
                fog_falloff: b.fog_falloff,
                fog_height: b.fog_height,
                fog_color: b.fog_color,
            }.as_v13(),
            weather: None,
        }
    }

    /// What version 11 could hold of it: the physical atmosphere returns to the
    /// standard too.
    pub open spec fn as_of_v11(self) -> SkyModel {
        let b = self.base;
        SkyModel {
            base: SkyAtmosphereV11 {
                enabled: b.enabled,
                sun_intensity: b.sun_intensity,
                sun_color: b.sun_color,
                moon_intensity: b.moon_intensity,
                moon_color: b.moon_color,
                zenith: b.zenith,
                horizon: b.horizon,
                ground: b.ground,
                night_darkening: b.night_darkening,
            }.as_v12().as_v13(),
            weather: None,
        }
    }
}

/// The three standards agree: a payload that leaves every field out means the
/// same atmosphere in each of the versions.
pub proof fn law_sky_standards_agree()
    ensures
        SkyAtmosphereV11::standard().as_v12() == SkyAtmosphereV12::standard(),
        SkyAtmosphereV12::standard().as_v13() == SkyAtmosphereV13::standard(),
{
}

/// A lift keeps every field that the older layout had, whatever the newer one
/// adds: projecting the lifted atmosphere back gives the one it came from.
pub proof fn law_sky_lift_then_project(a: SkyAtmosphereV11, b: SkyAtmosphereV12, c: SkyAtmosphereV13,
    standard: SkyAtmosphere)
    ensures
        c.with_weather_of(standard).as_of_v13() == c,
        b.as_v13().with_weather_of(standard).as_of_v12() == b,
        a.as_v12().as_v13().with_weather_of(standard).as_of_v11() == a,
{
}

/// Projections nest and are settled by one application.
pub proof fn law_sky_projections_nest(s: SkyModel)
    ensures
        s.as_of_v13().as_of_v13() == s.as_of_v13(),
        s.as_of_v12().as_of_v12() == s.as_of_v12(),
        s.as_of_v11().as_of_v11() == s.as_of_v11(),
        s.as_of_v13().as_of_v12() == s.as_of_v12(),
        s.as_of_v12().as_of_v11() == s.as_of_v11(),
{
}

/// The sky that an atmosphere without values stands for.
pub proof fn law_the_standard_sky()
    ensures
        ({
            let s = SkyAtmosphereV13::standard();
            &&& s.enabled == true
            &&& s.sun_intensity == (F32 { bits: 0x4040_0000 })
            &&& s.sun_color == (Color { r: F32 { bits: 0x3f80_0000 }, g: F32 { bits: 0x3f7a_e148 }, b: F32 { bits: 0x3f73_3333 }, a: F32 { bits: 0x3f80_0000 } })
            &&& s.moon_intensity == (F32 { bits: 0x3e19_999a })
            &&& s.moon_color == (Color { r: F32 { bits: 0x3f1e_b852 }, g: F32 { bits: 0x3f38_51ec }, b: F32 { bits: 0x3f80_0000 }, a: F32 { bits: 0x3f80_0000 } })
            &&& s.zenith == (Color { r: F32 { bits: 0x3c44_9ba6 }, g: F32 { bits: 0x3cac_0831 }, b: F32 { bits: 0x3d1b_a5e3 }, a: F32 { bits: 0x3f80_0000 } })
            &&& s.horizon == (Color { r: F32 { bits: 0x3d61_47ae }, g: F32 { bits: 0x3da5_e354 }, b: F32 { bits: 0x3df5_c28f }, a: F32 { bits: 0x3f80_0000 } })
            &&& s.ground == (Color { r: F32 { bits: 0x3c13_74bc }, g: F32 { bits: 0x3c34_3958 }, b: F32 { bits: 0x3c75_c28f }, a: F32 { bits: 0x3f80_0000 } })
            &&& s.night_darkening == (F32 { bits: 0x3f59_999a })
            &&& s.physical == true
            &&& s.sky_intensity == (F32 { bits: 0x3f80_0000 })
            &&& s.turbidity == (F32 { bits: 0x3f80_0000 })
            &&& s.mie_anisotropy == (F32 { bits: 0x3f4c_cccd })
            &&& s.sun_disc_deg == (F32 { bits: 0x3f0b_851f })
            &&& s.moon_disc_deg == (F32 { bits: 0x3f05_1eb8 })
            &&& s.star_intensity == (F32 { bits: 0x3f80_0000 })
            &&& s.tint_strength == (F32 { bits: 0 })
            &&& s.aerial_perspective == (F32 { bits: 0x3f80_0000 })
            &&& s.fog_density == (F32 { bits: 0 })
            &&& s.fog_falloff == (F32 { bits: 0x3b03_126f })
            &&& s.fog_height == (F32 { bits: 0 })
            &&& s.fog_color == (Color { r: F32 { bits: 0x3f80_0000 }, g: F32 { bits: 0x3f80_0000 }, b: F32 { bits: 0x3f80_0000 }, a: F32 { bits: 0x3f80_0000 } })
            &&& s.clouds_enabled == false
            &&& s.cloud_coverage == (F32 { bits: 0x3eb3_3333 })
            &&& s.cloud_type == (F32 { bits: 0x3f33_3333 })
            &&& s.cloud_bottom == (F32 { bits: 0x44bb_8000 })
            &&& s.cloud_top == (F32 { bits: 0x457a_0000 })
            &&& s.cloud_density == (F32 { bits: 0x3d23_d70a })
            &&& s.cloud_detail == (F32 { bits: 0x3f19_999a })
            &&& s.cloud_seed == 0
            &&& s.cloud_wind_x == (F32 { bits: 0x40c0_0000 })
            &&& s.cloud_wind_z == (F32 { bits: 0x4000_0000 })
            &&& s.cloud_phase_g == (F32 { bits: 0x3f4c_cccd })
            &&& s.cloud_shadow == (F32 { bits: 0x3f80_0000 })
            &&& s.cloud_ambient == (F32 { bits: 0x3f80_0000 })
            &&& s.cloud_color == (Color { r: F32 { bits: 0x3f80_0000 }, g: F32 { bits: 0x3f80_0000 }, b: F32 { bits: 0x3f80_0000 }, a: F32 { bits: 0x3f80_0000 } })
        }),
{
}

} // verus!
