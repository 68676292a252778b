//! What a record of every version becomes, slot by slot.
//!
//! A level of an old version is lifted to today's, and nothing that was authored
//! in it is lost or altered on the way. Here an old record stands beside the
//! record it became, and each slot beside its slot.

use crate::bits::F32;
use crate::guid::Guid;
use crate::scene::component;
use crate::scene::component::{
    Color, Component, Light, LightV7, Material, MaterialV7, MeshRef, MeshRefV6,
};
use crate::scene::decode;
use crate::scene::decode::ScenePayload;
use crate::scene::entity::{Entity, EntityModel};
use crate::scene::file::{
    SceneFile, SceneFileModel, SceneFileV1, SceneFileV10, SceneFileV11, SceneFileV12, SceneFileV13,
    SceneFileV14, SceneFileV15, SceneFileV16, SceneFileV17, SceneFileV18, SceneFileV2, SceneFileV3,
    SceneFileV4, SceneFileV5, SceneFileV6, SceneFileV7, SceneFileV8, SceneFileV9,
};
use crate::scene::foliage;
use crate::scene::foliage::Foliage;
use crate::scene::ladder_early::{
    EntityRecordV1, EntityRecordV2, EntityRecordV3, EntityRecordV4, EntityRecordV5, EntityRecordV6,
    EntityRecordV7, EntityRecordV8, EntityRecordV9,
};
use crate::scene::ladder_late::{
    EntityRecordV10, EntityRecordV11, EntityRecordV12, EntityRecordV13, EntityRecordV14,
    EntityRecordV15, EntityRecordV16, EntityRecordV17, EntityRecordV18,
};
use crate::scene::record::EntityRecord;
use crate::scene::settings::{LevelSettings, PartitionSettings, RenderSettingsRecord};
use crate::scene::sky::{SkyAtmosphere, SkyAtmosphereV11, SkyAtmosphereV12, SkyAtmosphereV13};
use crate::scene::terrain;
use crate::scene::terrain::{Terrain, TerrainV14, TerrainV15, TerrainV8};
use crate::scene::tilemap;
use crate::scene::tilemap::Tilemap;
use vstd::prelude::*;

verus! {

// ---------------------------------------------------------------- slots

/// Both slots are empty, or both hold the same bytes.
pub open spec fn same_slot(old: Option<Component>, new: Option<Component>) -> bool {
    match (old, new) {
        (Some(a), Some(b)) => b.bytes@ == a.bytes@,
        (None, None) => true,
        _ => false,
    }
}

/// The lists hold the same bytes, place by place.
pub open spec fn same_list(old: Seq<Component>, new: Seq<Component>) -> bool {
    &&& new.len() == old.len()
    &&& forall|i: int| 0 <= i < old.len() ==> (#[trigger] new[i]).bytes@ == old[i].bytes@
}

/// A mesh reference that could name no asset names none.
pub open spec fn mesh_of_v6(old: Option<MeshRefV6>, new: Option<MeshRef>) -> bool {
    match (old, new) {
        (Some(a), Some(b)) => b.primitive == a.primitive && b.asset is None,
        (None, None) => true,
        _ => false,
    }
}

/// A material keeps its four values; it is opaque with the cut-off at one half,
/// and bound to no asset.
pub open spec fn material_of_v7(old: Option<MaterialV7>, new: Option<Material>) -> bool {
    match (old, new) {
        (Some(a), Some(b)) => {
            &&& b.base_color == a.base_color
            &&& b.metallic == a.metallic
            &&& b.roughness == a.roughness
            &&& b.emissive == a.emissive
            &&& b.blend is Opaque
            &&& b.alpha_cutoff.bits == 0x3f00_0000
            &&& b.asset is None
        },
        (None, None) => true,
        _ => false,
    }
}

/// A light keeps its three values; its range is unlimited, its cones are 30 and
/// 40 degrees wide, and it casts shadows.
pub open spec fn light_of_v7(old: Option<LightV7>, new: Option<Light>) -> bool {
    match (old, new) {
        (Some(a), Some(b)) => {
            &&& b.kind == a.kind
            &&& b.color == a.color
            &&& b.intensity == a.intensity
            &&& b.range.bits == 0
            &&& b.inner_cone_deg.bits == 0x41f0_0000
            &&& b.outer_cone_deg.bits == 0x4220_0000
            &&& b.cast_shadows
        },
        (None, None) => true,
        _ => false,
    }
}

/// The tilemaps hold the same, chunk by chunk.
pub open spec fn same_tilemap(old: Option<Tilemap>, new: Option<Tilemap>) -> bool {
    match (old, new) {
        (Some(a), Some(b)) => {
            &&& b.texture == a.texture
            &&& b.tile_size == a.tile_size
            &&& b.atlas_cols == a.atlas_cols
            &&& b.atlas_rows == a.atlas_rows
            &&& b.chunk_dim == a.chunk_dim
            &&& b.style.bytes@ == a.style.bytes@
            &&& b.chunks@.len() == a.chunks@.len()
            &&& forall|i: int|
                0 <= i < a.chunks@.len() ==> (#[trigger] b.chunks@[i]).coord == a.chunks@[i].coord
                    && b.chunks@[i].tiles@ == a.chunks@[i].tiles@
        },
        (None, None) => true,
        _ => false,
    }
}

/// The scatters hold the same, instance by instance.
pub open spec fn same_foliage(old: Option<Foliage>, new: Option<Foliage>) -> bool {
    match (old, new) {
        (Some(a), Some(b)) => b.palette.bytes@ == a.palette.bytes@ && same_list(
            a.instances@,
            b.instances@,
        ),
        (None, None) => true,
        _ => false,
    }
}

/// A terrain that could name no asset names none; no layer but the base was
/// ever authored.
pub open spec fn terrain_of_v8(old: Option<TerrainV8>, new: Option<Terrain>) -> bool {
    match (old, new) {
        (Some(a), Some(b)) => {
            &&& b.meters_per_sample == a.meters_per_sample
            &&& b.tile_resolution == a.tile_resolution
            &&& b.layers.bytes@ == a.layers.bytes@
            &&& b.macro_variation == a.macro_variation
            &&& b.asset is None
            &&& b.biome_set is None
            &&& b.biome_population@.len() == 0
            &&& b.data.tile_resolution == a.data.tile_resolution
            &&& b.data.meters_per_sample == a.data.meters_per_sample
            &&& b.data.tiles@.len() == a.data.tiles@.len()
            &&& forall|i: int|
                0 <= i < a.data.tiles@.len() ==> {
                    let s = a.data.tiles@[i];
                    let t = #[trigger] b.data.tiles@[i];
                    &&& t.coord == s.coord
                    &&& t.base.bytes@ == s.base.bytes@
                    &&& t.data_maps.bytes@.len() == 0
                    &&& t.biome_ids.bytes@.len() == 0
                }
        },
        (None, None) => true,
        _ => false,
    }
}

/// A terrain keeps its asset; no layer but the base was ever authored.
pub open spec fn terrain_of_v14(old: Option<TerrainV14>, new: Option<Terrain>) -> bool {
    match (old, new) {
        (Some(a), Some(b)) => {
            &&& b.meters_per_sample == a.meters_per_sample
            &&& b.tile_resolution == a.tile_resolution
            &&& b.layers.bytes@ == a.layers.bytes@
            &&& b.macro_variation == a.macro_variation
            &&& b.asset == a.asset
            &&& b.biome_set is None
            &&& b.biome_population@.len() == 0
            &&& b.data.tile_resolution == a.data.tile_resolution
            &&& b.data.meters_per_sample == a.data.meters_per_sample
            &&& b.data.tiles@.len() == a.data.tiles@.len()
            &&& forall|i: int|
                0 <= i < a.data.tiles@.len() ==> {
                    let s = a.data.tiles@[i];
                    let t = #[trigger] b.data.tiles@[i];
                    &&& t.coord == s.coord
                    &&& t.base.bytes@ == s.base.bytes@
                    &&& t.data_maps.bytes@.len() == 0
                    &&& t.biome_ids.bytes@.len() == 0
                }
        },
        (None, None) => true,
        _ => false,
    }
}

/// A terrain keeps its data maps; no biome was ever painted.
pub open spec fn terrain_of_v15(old: Option<TerrainV15>, new: Option<Terrain>) -> bool {
    match (old, new) {
        (Some(a), Some(b)) => {
            &&& b.meters_per_sample == a.meters_per_sample
            &&& b.tile_resolution == a.tile_resolution
            &&& b.layers.bytes@ == a.layers.bytes@
            &&& b.macro_variation == a.macro_variation
            &&& b.asset == a.asset
            &&& b.biome_set is None
            &&& b.biome_population@.len() == 0
            &&& b.data.tile_resolution == a.data.tile_resolution
            &&& b.data.meters_per_sample == a.data.meters_per_sample
            &&& b.data.tiles@.len() == a.data.tiles@.len()
            &&& forall|i: int|
                0 <= i < a.data.tiles@.len() ==> {
                    let s = a.data.tiles@[i];
                    let t = #[trigger] b.data.tiles@[i];
                    &&& t.coord == s.coord
                    &&& t.base.bytes@ == s.base.bytes@
                    &&& t.data_maps.bytes@ == s.data_maps.bytes@
                    &&& t.biome_ids.bytes@.len() == 0
                }
        },
        (None, None) => true,
        _ => false,
    }
}

/// The terrains hold the same, tile by tile.
pub open spec fn same_terrain(old: Option<Terrain>, new: Option<Terrain>) -> bool {
    match (old, new) {
        (Some(a), Some(b)) => {
            &&& b.meters_per_sample == a.meters_per_sample
            &&& b.tile_resolution == a.tile_resolution
            &&& b.layers.bytes@ == a.layers.bytes@
            &&& b.macro_variation == a.macro_variation
            &&& b.asset == a.asset
            &&& b.biome_set == a.biome_set
            &&& same_list(a.biome_population@, b.biome_population@)
            &&& b.data.tile_resolution == a.data.tile_resolution
            &&& b.data.meters_per_sample == a.data.meters_per_sample
            &&& b.data.tiles@.len() == a.data.tiles@.len()
            &&& forall|i: int|
                0 <= i < a.data.tiles@.len() ==> {
                    let s = a.data.tiles@[i];
                    let t = #[trigger] b.data.tiles@[i];
                    &&& t.coord == s.coord
                    &&& t.base.bytes@ == s.base.bytes@
                    &&& t.data_maps.bytes@ == s.data_maps.bytes@
                    &&& t.biome_ids.bytes@ == s.biome_ids.bytes@
                }
        },
        (None, None) => true,
        _ => false,
    }
}

/// An atmosphere of version 11 keeps its nine values; the physical atmosphere, the
/// clouds and the weather are those that the later versions began with.
pub open spec fn sky_of_v11(
    old: Option<SkyAtmosphereV11>,
    new: Option<SkyAtmosphere>,
    sky: SkyAtmosphere,
) -> bool {
    match (old, new) {
        (Some(a), Some(b)) => {
            &&& b.enabled == a.enabled
            &&& b.sun_intensity == a.sun_intensity
            &&& b.sun_color == a.sun_color
            &&& b.moon_intensity == a.moon_intensity
            &&& b.moon_color == a.moon_color
            &&& b.zenith == a.zenith
            &&& b.horizon == a.horizon
            &&& b.ground == a.ground
            &&& b.night_darkening == a.night_darkening
            &&& b.physical == true
            &&& b.sky_intensity.bits == 0x3f80_0000
            &&& b.turbidity.bits == 0x3f80_0000
            &&& b.mie_anisotropy.bits == 0x3f4c_cccd
            &&& b.sun_disc_deg.bits == 0x3f0b_851f
            &&& b.moon_disc_deg.bits == 0x3f05_1eb8
            &&& b.star_intensity.bits == 0x3f80_0000
            &&& b.tint_strength.bits == 0
            &&& b.aerial_perspective.bits == 0x3f80_0000
            &&& b.fog_density.bits == 0
            &&& b.fog_falloff.bits == 0x3b03_126f
            &&& b.fog_height.bits == 0
            &&& b.fog_color == (Color { r: F32 { bits: 0x3f80_0000 }, g: F32 { bits: 0x3f80_0000 }, b: F32 { bits: 0x3f80_0000 }, a: F32 { bits: 0x3f80_0000 } })
            &&& b.clouds_enabled == false
            &&& b.cloud_coverage.bits == 0x3eb3_3333
            &&& b.cloud_type.bits == 0x3f33_3333
            &&& b.cloud_bottom.bits == 0x44bb_8000
            &&& b.cloud_top.bits == 0x457a_0000
            &&& b.cloud_density.bits == 0x3d23_d70a
            &&& b.cloud_detail.bits == 0x3f19_999a
            &&& b.cloud_seed == 0
            &&& b.cloud_wind_x.bits == 0x40c0_0000
            &&& b.cloud_wind_z.bits == 0x4000_0000
            &&& b.cloud_phase_g.bits == 0x3f4c_cccd
            &&& b.cloud_shadow.bits == 0x3f80_0000
            &&& b.cloud_ambient.bits == 0x3f80_0000
            &&& b.cloud_color == (Color { r: F32 { bits: 0x3f80_0000 }, g: F32 { bits: 0x3f80_0000 }, b: F32 { bits: 0x3f80_0000 }, a: F32 { bits: 0x3f80_0000 } })
            &&& b.weather_enabled == sky.weather_enabled
            &&& b.weather_target == sky.weather_target
            &&& b.weather_blend_seconds == sky.weather_blend_seconds
            &&& b.weather_blend_remaining == sky.weather_blend_remaining
            &&& b.weather_coverage == sky.weather_coverage
            &&& b.weather_cloud_type == sky.weather_cloud_type
            &&& b.weather_wind_x == sky.weather_wind_x
            &&& b.weather_wind_z == sky.weather_wind_z
            &&& b.weather_fog_density == sky.weather_fog_density
            &&& b.weather_precipitation == sky.weather_precipitation
            &&& b.weather_snowiness == sky.weather_snowiness
        },
        (None, None) => true,
        _ => false,
    }
}

/// An atmosphere of version 12 keeps its values; the clouds and the weather are
/// those that the later versions began with.
pub open spec fn sky_of_v12(
    old: Option<SkyAtmosphereV12>,
    new: Option<SkyAtmosphere>,
    sky: SkyAtmosphere,
) -> bool {
    match (old, new) {
        (Some(a), Some(b)) => {
            &&& b.enabled == a.enabled
            &&& b.sun_intensity == a.sun_intensity
            &&& b.sun_color == a.sun_color
            &&& b.moon_intensity == a.moon_intensity
            &&& b.moon_color == a.moon_color
            &&& b.zenith == a.zenith
            &&& b.horizon == a.horizon
            &&& b.ground == a.ground
            &&& b.night_darkening == a.night_darkening
            &&& b.physical == a.physical
            &&& b.sky_intensity == a.sky_intensity
            &&& b.turbidity == a.turbidity
            &&& b.mie_anisotropy == a.mie_anisotropy
            &&& b.sun_disc_deg == a.sun_disc_deg
            &&& b.moon_disc_deg == a.moon_disc_deg
            &&& b.star_intensity == a.star_intensity
            &&& b.tint_strength == a.tint_strength
            &&& b.aerial_perspective == a.aerial_perspective
            &&& b.fog_density == a.fog_density
            &&& b.fog_falloff == a.fog_falloff
            &&& b.fog_height == a.fog_height
            &&& b.fog_color == a.fog_color
            &&& b.clouds_enabled == false
            &&& b.cloud_coverage.bits == 0x3eb3_3333
            &&& b.cloud_type.bits == 0x3f33_3333
            &&& b.cloud_bottom.bits == 0x44bb_8000
            &&& b.cloud_top.bits == 0x457a_0000
            &&& b.cloud_density.bits == 0x3d23_d70a
            &&& b.cloud_detail.bits == 0x3f19_999a
            &&& b.cloud_seed == 0
            &&& b.cloud_wind_x.bits == 0x40c0_0000
            &&& b.cloud_wind_z.bits == 0x4000_0000
            &&& b.cloud_phase_g.bits == 0x3f4c_cccd
            &&& b.cloud_shadow.bits == 0x3f80_0000
            &&& b.cloud_ambient.bits == 0x3f80_0000
            &&& b.cloud_color == (Color { r: F32 { bits: 0x3f80_0000 }, g: F32 { bits: 0x3f80_0000 }, b: F32 { bits: 0x3f80_0000 }, a: F32 { bits: 0x3f80_0000 } })
            &&& b.weather_enabled == sky.weather_enabled
            &&& b.weather_target == sky.weather_target
            &&& b.weather_blend_seconds == sky.weather_blend_seconds
            &&& b.weather_blend_remaining == sky.weather_blend_remaining
            &&& b.weather_coverage == sky.weather_coverage
            &&& b.weather_cloud_type == sky.weather_cloud_type
            &&& b.weather_wind_x == sky.weather_wind_x
            &&& b.weather_wind_z == sky.weather_wind_z
            &&& b.weather_fog_density == sky.weather_fog_density
            &&& b.weather_precipitation == sky.weather_precipitation
            &&& b.weather_snowiness == sky.weather_snowiness
        },
        (None, None) => true,
        _ => false,
    }
}

/// An atmosphere of version 13 keeps its values; the weather is that of the living
/// component.
pub open spec fn sky_of_v13(
    old: Option<SkyAtmosphereV13>,
    new: Option<SkyAtmosphere>,
    sky: SkyAtmosphere,
) -> bool {
    match (old, new) {
        (Some(a), Some(b)) => {
            &&& b.enabled == a.enabled
            &&& b.sun_intensity == a.sun_intensity
            &&& b.sun_color == a.sun_color
            &&& b.moon_intensity == a.moon_intensity
            &&& b.moon_color == a.moon_color
            &&& b.zenith == a.zenith
            &&& b.horizon == a.horizon
            &&& b.ground == a.ground
            &&& b.night_darkening == a.night_darkening
            &&& b.physical == a.physical
            &&& b.sky_intensity == a.sky_intensity
            &&& b.turbidity == a.turbidity
            &&& b.mie_anisotropy == a.mie_anisotropy
            &&& b.sun_disc_deg == a.sun_disc_deg
            &&& b.moon_disc_deg == a.moon_disc_deg
            &&& b.star_intensity == a.star_intensity
            &&& b.tint_strength == a.tint_strength
            &&& b.aerial_perspective == a.aerial_perspective
            &&& b.fog_density == a.fog_density
            &&& b.fog_falloff == a.fog_falloff
            &&& b.fog_height == a.fog_height
            &&& b.fog_color == a.fog_color
            &&& b.clouds_enabled == a.clouds_enabled
            &&& b.cloud_coverage == a.cloud_coverage
            &&& b.cloud_type == a.cloud_type
            &&& b.cloud_bottom == a.cloud_bottom
            &&& b.cloud_top == a.cloud_top
            &&& b.cloud_density == a.cloud_density
            &&& b.cloud_detail == a.cloud_detail
            &&& b.cloud_seed == a.cloud_seed
            &&& b.cloud_wind_x == a.cloud_wind_x
            &&& b.cloud_wind_z == a.cloud_wind_z
            &&& b.cloud_phase_g == a.cloud_phase_g
            &&& b.cloud_shadow == a.cloud_shadow
            &&& b.cloud_ambient == a.cloud_ambient
            &&& b.cloud_color == a.cloud_color
            &&& b.weather_enabled == sky.weather_enabled
            &&& b.weather_target == sky.weather_target
            &&& b.weather_blend_seconds == sky.weather_blend_seconds
            &&& b.weather_blend_remaining == sky.weather_blend_remaining
            &&& b.weather_coverage == sky.weather_coverage
            &&& b.weather_cloud_type == sky.weather_cloud_type
            &&& b.weather_wind_x == sky.weather_wind_x
            &&& b.weather_wind_z == sky.weather_wind_z
            &&& b.weather_fog_density == sky.weather_fog_density
            &&& b.weather_precipitation == sky.weather_precipitation
            &&& b.weather_snowiness == sky.weather_snowiness
        },
        (None, None) => true,
        _ => false,
    }
}

// ---------------------------------------------------------------- records

/// What a record of version 1 became: every slot it had, and nothing in the
/// slots that came later.
pub open spec fn became_v1(old: EntityRecordV1, new: EntityRecord) -> bool {
    &&& new.guid == old.guid
    &&& new.name@ == old.name@
    &&& new.parent == old.parent
    &&& new.transform == old.transform
    &&& new.visible == old.visible
    &&& mesh_of_v6(old.mesh, new.mesh)
    &&& material_of_v7(old.material, new.material)
    &&& light_of_v7(old.light, new.light)
    &&& same_slot(old.camera, new.camera)
    &&& new.sprite is None
    &&& new.tilemap is None
    &&& new.nine_slice is None
    &&& new.text2d is None
    &&& new.light_2d is None
    &&& new.rigid_body_2d is None
    &&& new.collider_2d is None
    &&& new.character_controller_2d is None
    &&& new.rigid_body_3d is None
    &&& new.collider_3d is None
    &&& new.character_controller_3d is None
    &&& new.actor is None
    &&& new.terrain is None
    &&& new.pcg_volume is None
    &&& new.skeletal_mesh is None
    &&& new.anim_player is None
    &&& new.anim_state_machine is None
    &&& new.root_motion is None
    &&& new.attached_to is None
    &&& new.joint_2d is None
    &&& new.joint_3d is None
    &&& new.audio_source is None
    &&& new.audio_listener is None
    &&& new.decal is None
    &&& new.volume is None
    &&& new.spline is None
    &&& new.foliage is None
    &&& new.streaming_source is None
    &&& new.always_loaded is None
    &&& new.time_of_day is None
    &&& new.sky_atmosphere is None
    &&& new.water_body is None
    &&& new.buoyancy is None
    &&& new.voxel_volume is None
}

/// What a record of version 2 became: every slot it had, and nothing in the
/// slots that came later.
pub open spec fn became_v2(old: EntityRecordV2, new: EntityRecord) -> bool {
    &&& new.guid == old.guid
    &&& new.name@ == old.name@
    &&& new.parent == old.parent
    &&& new.transform == old.transform
    &&& new.visible == old.visible
    &&& mesh_of_v6(old.mesh, new.mesh)
    &&& material_of_v7(old.material, new.material)
    &&& light_of_v7(old.light, new.light)
    &&& same_slot(old.camera, new.camera)
    &&& same_slot(old.sprite, new.sprite)
    &&& same_tilemap(old.tilemap, new.tilemap)
    &&& same_slot(old.nine_slice, new.nine_slice)
    &&& same_slot(old.text2d, new.text2d)
    &&& same_slot(old.light_2d, new.light_2d)
    &&& new.rigid_body_2d is None
    &&& new.collider_2d is None
    &&& new.character_controller_2d is None
    &&& new.rigid_body_3d is None
    &&& new.collider_3d is None
    &&& new.character_controller_3d is None
    &&& new.actor is None
    &&& new.terrain is None
    &&& new.pcg_volume is None
    &&& new.skeletal_mesh is None
    &&& new.anim_player is None
    &&& new.anim_state_machine is None
    &&& new.root_motion is None
    &&& new.attached_to is None
    &&& new.joint_2d is None
    &&& new.joint_3d is None
    &&& new.audio_source is None
    &&& new.audio_listener is None
    &&& new.decal is None
    &&& new.volume is None
    &&& new.spline is None
    &&& new.foliage is None
    &&& new.streaming_source is None
    &&& new.always_loaded is None
    &&& new.time_of_day is None
    &&& new.sky_atmosphere is None
    &&& new.water_body is None
    &&& new.buoyancy is None
    &&& new.voxel_volume is None
}

/// What a record of version 3 became: every slot it had, and nothing in the
/// slots that came later.
pub open spec fn became_v3(old: EntityRecordV3, new: EntityRecord) -> bool {
    &&& new.guid == old.guid
    &&& new.name@ == old.name@
    &&& new.parent == old.parent
    &&& new.transform == old.transform
    &&& new.visible == old.visible
    &&& mesh_of_v6(old.mesh, new.mesh)
    &&& material_of_v7(old.material, new.material)
    &&& light_of_v7(old.light, new.light)
    &&& same_slot(old.camera, new.camera)
    &&& same_slot(old.sprite, new.sprite)
    &&& same_tilemap(old.tilemap, new.tilemap)
    &&& same_slot(old.nine_slice, new.nine_slice)
    &&& same_slot(old.text2d, new.text2d)
    &&& same_slot(old.light_2d, new.light_2d)
    &&& same_slot(old.rigid_body_2d, new.rigid_body_2d)
    &&& same_slot(old.collider_2d, new.collider_2d)
    &&& same_slot(old.character_controller_2d, new.character_controller_2d)
    &&& same_slot(old.rigid_body_3d, new.rigid_body_3d)
    &&& same_slot(old.collider_3d, new.collider_3d)
    &&& same_slot(old.character_controller_3d, new.character_controller_3d)
    &&& new.actor == old.actor
    &&& new.terrain is None
    &&& new.pcg_volume is None
    &&& new.skeletal_mesh is None
    &&& new.anim_player is None
    &&& new.anim_state_machine is None
    &&& new.root_motion is None
    &&& new.attached_to is None
    &&& new.joint_2d is None
    &&& new.joint_3d is None
    &&& new.audio_source is None
    &&& new.audio_listener is None
    &&& new.decal is None
    &&& new.volume is None
    &&& new.spline is None
    &&& new.foliage is None
    &&& new.streaming_source is None
    &&& new.always_loaded is None
    &&& new.time_of_day is None
    &&& new.sky_atmosphere is None
    &&& new.water_body is None
    &&& new.buoyancy is None
    &&& new.voxel_volume is None
}

/// What a record of version 4 became: every slot it had, and nothing in the
/// slots that came later.
pub open spec fn became_v4(old: EntityRecordV4, new: EntityRecord) -> bool {
    &&& new.guid == old.guid
    &&& new.name@ == old.name@
    &&& new.parent == old.parent
    &&& new.transform == old.transform
    &&& new.visible == old.visible
    &&& mesh_of_v6(old.mesh, new.mesh)
    &&& material_of_v7(old.material, new.material)
    &&& light_of_v7(old.light, new.light)
    &&& same_slot(old.camera, new.camera)
    &&& same_slot(old.sprite, new.sprite)
    &&& same_tilemap(old.tilemap, new.tilemap)
    &&& same_slot(old.nine_slice, new.nine_slice)
    &&& same_slot(old.text2d, new.text2d)
    &&& same_slot(old.light_2d, new.light_2d)
    &&& same_slot(old.rigid_body_2d, new.rigid_body_2d)
    &&& same_slot(old.collider_2d, new.collider_2d)
    &&& same_slot(old.character_controller_2d, new.character_controller_2d)
    &&& same_slot(old.rigid_body_3d, new.rigid_body_3d)
    &&& same_slot(old.collider_3d, new.collider_3d)
    &&& same_slot(old.character_controller_3d, new.character_controller_3d)
    &&& new.actor == old.actor
    &&& terrain_of_v8(old.terrain, new.terrain)
    &&& same_slot(old.pcg_volume, new.pcg_volume)
    &&& new.skeletal_mesh is None
    &&& new.anim_player is None
    &&& new.anim_state_machine is None
    &&& new.root_motion is None
    &&& new.attached_to is None
    &&& new.joint_2d is None
    &&& new.joint_3d is None
    &&& new.audio_source is None
    &&& new.audio_listener is None
    &&& new.decal is None
    &&& new.volume is None
    &&& new.spline is None
    &&& new.foliage is None
    &&& new.streaming_source is None
    &&& new.always_loaded is None
    &&& new.time_of_day is None
    &&& new.sky_atmosphere is None
    &&& new.water_body is None
    &&& new.buoyancy is None
    &&& new.voxel_volume is None
}

/// What a record of version 5 became: every slot it had, and nothing in the
/// slots that came later.
pub open spec fn became_v5(old: EntityRecordV5, new: EntityRecord) -> bool {
    &&& new.guid == old.guid
    &&& new.name@ == old.name@
    &&& new.parent == old.parent
    &&& new.transform == old.transform
    &&& new.visible == old.visible
    &&& mesh_of_v6(old.mesh, new.mesh)
    &&& material_of_v7(old.material, new.material)
    &&& light_of_v7(old.light, new.light)
    &&& same_slot(old.camera, new.camera)
    &&& same_slot(old.sprite, new.sprite)
    &&& same_tilemap(old.tilemap, new.tilemap)
    &&& same_slot(old.nine_slice, new.nine_slice)
    &&& same_slot(old.text2d, new.text2d)
    &&& same_slot(old.light_2d, new.light_2d)
    &&& same_slot(old.rigid_body_2d, new.rigid_body_2d)
    &&& same_slot(old.collider_2d, new.collider_2d)
    &&& same_slot(old.character_controller_2d, new.character_controller_2d)
    &&& same_slot(old.rigid_body_3d, new.rigid_body_3d)
    &&& same_slot(old.collider_3d, new.collider_3d)
    &&& same_slot(old.character_controller_3d, new.character_controller_3d)
    &&& new.actor == old.actor
    &&& terrain_of_v8(old.terrain, new.terrain)
    &&& same_slot(old.pcg_volume, new.pcg_volume)
    &&& same_slot(old.skeletal_mesh, new.skeletal_mesh)
    &&& same_slot(old.anim_player, new.anim_player)
    &&& same_slot(old.anim_state_machine, new.anim_state_machine)
    &&& same_slot(old.root_motion, new.root_motion)
    &&& same_slot(old.attached_to, new.attached_to)
    &&& new.joint_2d is None
    &&& new.joint_3d is None
    &&& new.audio_source is None
    &&& new.audio_listener is None
    &&& new.decal is None
    &&& new.volume is None
    &&& new.spline is None
    &&& new.foliage is None
    &&& new.streaming_source is None
    &&& new.always_loaded is None
    &&& new.time_of_day is None
    &&& new.sky_atmosphere is None
    &&& new.water_body is None
    &&& new.buoyancy is None
    &&& new.voxel_volume is None
}

/// What a record of version 6 became: every slot it had, and nothing in the
/// slots that came later.
pub open spec fn became_v6(old: EntityRecordV6, new: EntityRecord) -> bool {
    &&& new.guid == old.guid
    &&& new.name@ == old.name@
    &&& new.parent == old.parent
    &&& new.transform == old.transform
    &&& new.visible == old.visible
    &&& mesh_of_v6(old.mesh, new.mesh)
    &&& material_of_v7(old.material, new.material)
    &&& light_of_v7(old.light, new.light)
    &&& same_slot(old.camera, new.camera)
    &&& same_slot(old.sprite, new.sprite)
    &&& same_tilemap(old.tilemap, new.tilemap)
    &&& same_slot(old.nine_slice, new.nine_slice)
    &&& same_slot(old.text2d, new.text2d)
    &&& same_slot(old.light_2d, new.light_2d)
    &&& same_slot(old.rigid_body_2d, new.rigid_body_2d)
    &&& same_slot(old.collider_2d, new.collider_2d)
    &&& same_slot(old.character_controller_2d, new.character_controller_2d)
    &&& same_slot(old.rigid_body_3d, new.rigid_body_3d)
    &&& same_slot(old.collider_3d, new.collider_3d)
    &&& same_slot(old.character_controller_3d, new.character_controller_3d)
    &&& new.actor == old.actor
    &&& terrain_of_v8(old.terrain, new.terrain)
    &&& same_slot(old.pcg_volume, new.pcg_volume)
    &&& same_slot(old.skeletal_mesh, new.skeletal_mesh)
    &&& same_slot(old.anim_player, new.anim_player)
    &&& same_slot(old.anim_state_machine, new.anim_state_machine)
    &&& same_slot(old.root_motion, new.root_motion)
    &&& same_slot(old.attached_to, new.attached_to)
    &&& same_slot(old.joint_2d, new.joint_2d)
    &&& same_slot(old.joint_3d, new.joint_3d)
    &&& same_slot(old.audio_source, new.audio_source)
    &&& same_slot(old.audio_listener, new.audio_listener)
    &&& new.decal is None
    &&& new.volume is None
    &&& new.spline is None
    &&& new.foliage is None
    &&& new.streaming_source is None
    &&& new.always_loaded is None
    &&& new.time_of_day is None
    &&& new.sky_atmosphere is None
    &&& new.water_body is None
    &&& new.buoyancy is None
    &&& new.voxel_volume is None
}

/// What a record of version 7 became: every slot it had, and nothing in the
/// slots that came later.
pub open spec fn became_v7(old: EntityRecordV7, new: EntityRecord) -> bool {
    &&& new.guid == old.guid
    &&& new.name@ == old.name@
    &&& new.parent == old.parent
    &&& new.transform == old.transform
    &&& new.visible == old.visible
    &&& new.mesh == old.mesh
    &&& material_of_v7(old.material, new.material)
    &&& light_of_v7(old.light, new.light)
    &&& same_slot(old.camera, new.camera)
    &&& same_slot(old.sprite, new.sprite)
    &&& same_tilemap(old.tilemap, new.tilemap)
    &&& same_slot(old.nine_slice, new.nine_slice)
    &&& same_slot(old.text2d, new.text2d)
    &&& same_slot(old.light_2d, new.light_2d)
    &&& same_slot(old.rigid_body_2d, new.rigid_body_2d)
    &&& same_slot(old.collider_2d, new.collider_2d)
    &&& same_slot(old.character_controller_2d, new.character_controller_2d)
    &&& same_slot(old.rigid_body_3d, new.rigid_body_3d)
    &&& same_slot(old.collider_3d, new.collider_3d)
    &&& same_slot(old.character_controller_3d, new.character_controller_3d)
    &&& new.actor == old.actor
    &&& terrain_of_v8(old.terrain, new.terrain)
    &&& same_slot(old.pcg_volume, new.pcg_volume)
    &&& same_slot(old.skeletal_mesh, new.skeletal_mesh)
    &&& same_slot(old.anim_player, new.anim_player)
    &&& same_slot(old.anim_state_machine, new.anim_state_machine)
    &&& same_slot(old.root_motion, new.root_motion)
    &&& same_slot(old.attached_to, new.attached_to)
    &&& same_slot(old.joint_2d, new.joint_2d)
    &&& same_slot(old.joint_3d, new.joint_3d)
    &&& same_slot(old.audio_source, new.audio_source)
    &&& same_slot(old.audio_listener, new.audio_listener)
    &&& new.decal is None
    &&& new.volume is None
    &&& new.spline is None
    &&& new.foliage is None
    &&& new.streaming_source is None
    &&& new.always_loaded is None
    &&& new.time_of_day is None
    &&& new.sky_atmosphere is None
    &&& new.water_body is None
    &&& new.buoyancy is None
    &&& new.voxel_volume is None
}

/// What a record of version 8 became: every slot it had, and nothing in the
/// slots that came later.
pub open spec fn became_v8(old: EntityRecordV8, new: EntityRecord) -> bool {
    &&& new.guid == old.guid
    &&& new.name@ == old.name@
    &&& new.parent == old.parent
    &&& new.transform == old.transform
    &&& new.visible == old.visible
    &&& new.mesh == old.mesh
    &&& new.material == old.material
    &&& new.light == old.light
    &&& same_slot(old.camera, new.camera)
    &&& same_slot(old.sprite, new.sprite)
    &&& same_tilemap(old.tilemap, new.tilemap)
    &&& same_slot(old.nine_slice, new.nine_slice)
    &&& same_slot(old.text2d, new.text2d)
    &&& same_slot(old.light_2d, new.light_2d)
    &&& same_slot(old.rigid_body_2d, new.rigid_body_2d)
    &&& same_slot(old.collider_2d, new.collider_2d)
    &&& same_slot(old.character_controller_2d, new.character_controller_2d)
    &&& same_slot(old.rigid_body_3d, new.rigid_body_3d)
    &&& same_slot(old.collider_3d, new.collider_3d)
    &&& same_slot(old.character_controller_3d, new.character_controller_3d)
    &&& new.actor == old.actor
    &&& terrain_of_v8(old.terrain, new.terrain)
    &&& same_slot(old.pcg_volume, new.pcg_volume)
    &&& same_slot(old.skeletal_mesh, new.skeletal_mesh)
    &&& same_slot(old.anim_player, new.anim_player)
    &&& same_slot(old.anim_state_machine, new.anim_state_machine)
    &&& same_slot(old.root_motion, new.root_motion)
    &&& same_slot(old.attached_to, new.attached_to)
    &&& same_slot(old.joint_2d, new.joint_2d)
    &&& same_slot(old.joint_3d, new.joint_3d)
    &&& same_slot(old.audio_source, new.audio_source)
    &&& same_slot(old.audio_listener, new.audio_listener)
    &&& same_slot(old.decal, new.decal)
    &&& same_slot(old.volume, new.volume)
    &&& same_slot(old.spline, new.spline)
    &&& same_foliage(old.foliage, new.foliage)
    &&& new.streaming_source is None
    &&& new.always_loaded is None
    &&& new.time_of_day is None
    &&& new.sky_atmosphere is None
    &&& new.water_body is None
    &&& new.buoyancy is None
    &&& new.voxel_volume is None
}

/// What a record of version 9 became: every slot it had, and nothing in the
/// slots that came later.
pub open spec fn became_v9(old: EntityRecordV9, new: EntityRecord) -> bool {
    &&& new.guid == old.guid
    &&& new.name@ == old.name@
    &&& new.parent == old.parent
    &&& new.transform == old.transform
    &&& new.visible == old.visible
    &&& new.mesh == old.mesh
    &&& new.material == old.material
    &&& new.light == old.light
    &&& same_slot(old.camera, new.camera)
    &&& same_slot(old.sprite, new.sprite)
    &&& same_tilemap(old.tilemap, new.tilemap)
    &&& same_slot(old.nine_slice, new.nine_slice)
    &&& same_slot(old.text2d, new.text2d)
    &&& same_slot(old.light_2d, new.light_2d)
    &&& same_slot(old.rigid_body_2d, new.rigid_body_2d)
    &&& same_slot(old.collider_2d, new.collider_2d)
    &&& same_slot(old.character_controller_2d, new.character_controller_2d)
    &&& same_slot(old.rigid_body_3d, new.rigid_body_3d)
    &&& same_slot(old.collider_3d, new.collider_3d)
    &&& same_slot(old.character_controller_3d, new.character_controller_3d)
    &&& new.actor == old.actor
    &&& terrain_of_v14(old.terrain, new.terrain)
    &&& same_slot(old.pcg_volume, new.pcg_volume)
    &&& same_slot(old.skeletal_mesh, new.skeletal_mesh)
    &&& same_slot(old.anim_player, new.anim_player)
    &&& same_slot(old.anim_state_machine, new.anim_state_machine)
    &&& same_slot(old.root_motion, new.root_motion)
    &&& same_slot(old.attached_to, new.attached_to)
    &&& same_slot(old.joint_2d, new.joint_2d)
    &&& same_slot(old.joint_3d, new.joint_3d)
    &&& same_slot(old.audio_source, new.audio_source)
    &&& same_slot(old.audio_listener, new.audio_listener)
    &&& same_slot(old.decal, new.decal)
    &&& same_slot(old.volume, new.volume)
    &&& same_slot(old.spline, new.spline)
    &&& same_foliage(old.foliage, new.foliage)
    &&& new.streaming_source is None
    &&& new.always_loaded is None
    &&& new.time_of_day is None
    &&& new.sky_atmosphere is None
    &&& new.water_body is None
    &&& new.buoyancy is None
    &&& new.voxel_volume is None
}

/// What a record of version 10 became: every slot it had, and nothing in the
/// slots that came later.
pub open spec fn became_v10(old: EntityRecordV10, new: EntityRecord) -> bool {
    &&& new.guid == old.guid
    &&& new.name@ == old.name@
    &&& new.parent == old.parent
    &&& new.transform == old.transform
    &&& new.visible == old.visible
    &&& new.mesh == old.mesh
    &&& new.material == old.material
    &&& new.light == old.light
    &&& same_slot(old.camera, new.camera)
    &&& same_slot(old.sprite, new.sprite)
    &&& same_tilemap(old.tilemap, new.tilemap)
    &&& same_slot(old.nine_slice, new.nine_slice)
    &&& same_slot(old.text2d, new.text2d)
    &&& same_slot(old.light_2d, new.light_2d)
    &&& same_slot(old.rigid_body_2d, new.rigid_body_2d)
    &&& same_slot(old.collider_2d, new.collider_2d)
    &&& same_slot(old.character_controller_2d, new.character_controller_2d)
    &&& same_slot(old.rigid_body_3d, new.rigid_body_3d)
    &&& same_slot(old.collider_3d, new.collider_3d)
    &&& same_slot(old.character_controller_3d, new.character_controller_3d)
    &&& new.actor == old.actor
    &&& terrain_of_v14(old.terrain, new.terrain)
    &&& same_slot(old.pcg_volume, new.pcg_volume)
    &&& same_slot(old.skeletal_mesh, new.skeletal_mesh)
    &&& same_slot(old.anim_player, new.anim_player)
    &&& same_slot(old.anim_state_machine, new.anim_state_machine)
    &&& same_slot(old.root_motion, new.root_motion)
    &&& same_slot(old.attached_to, new.attached_to)
    &&& same_slot(old.joint_2d, new.joint_2d)
    &&& same_slot(old.joint_3d, new.joint_3d)
    &&& same_slot(old.audio_source, new.audio_source)
    &&& same_slot(old.audio_listener, new.audio_listener)
    &&& same_slot(old.decal, new.decal)
    &&& same_slot(old.volume, new.volume)
    &&& same_slot(old.spline, new.spline)
    &&& same_foliage(old.foliage, new.foliage)
    &&& new.streaming_source == old.streaming_source
    &&& new.always_loaded == old.always_loaded
    &&& new.time_of_day is None
    &&& new.sky_atmosphere is None
    &&& new.water_body is None
    &&& new.buoyancy is None
    &&& new.voxel_volume is None
}

/// What a record of version 11 became: every slot it had, and nothing in the
/// slots that came later.
pub open spec fn became_v11(old: EntityRecordV11, new: EntityRecord, sky: SkyAtmosphere) -> bool {
    &&& new.guid == old.guid
    &&& new.name@ == old.name@
    &&& new.parent == old.parent
    &&& new.transform == old.transform
    &&& new.visible == old.visible
    &&& new.mesh == old.mesh
    &&& new.material == old.material
    &&& new.light == old.light
    &&& same_slot(old.camera, new.camera)
    &&& same_slot(old.sprite, new.sprite)
    &&& same_tilemap(old.tilemap, new.tilemap)
    &&& same_slot(old.nine_slice, new.nine_slice)
    &&& same_slot(old.text2d, new.text2d)
    &&& same_slot(old.light_2d, new.light_2d)
    &&& same_slot(old.rigid_body_2d, new.rigid_body_2d)
    &&& same_slot(old.collider_2d, new.collider_2d)
    &&& same_slot(old.character_controller_2d, new.character_controller_2d)
    &&& same_slot(old.rigid_body_3d, new.rigid_body_3d)
    &&& same_slot(old.collider_3d, new.collider_3d)
    &&& same_slot(old.character_controller_3d, new.character_controller_3d)
    &&& new.actor == old.actor
    &&& terrain_of_v14(old.terrain, new.terrain)
    &&& same_slot(old.pcg_volume, new.pcg_volume)
    &&& same_slot(old.skeletal_mesh, new.skeletal_mesh)
    &&& same_slot(old.anim_player, new.anim_player)
    &&& same_slot(old.anim_state_machine, new.anim_state_machine)
    &&& same_slot(old.root_motion, new.root_motion)
    &&& same_slot(old.attached_to, new.attached_to)
    &&& same_slot(old.joint_2d, new.joint_2d)
    &&& same_slot(old.joint_3d, new.joint_3d)
    &&& same_slot(old.audio_source, new.audio_source)
    &&& same_slot(old.audio_listener, new.audio_listener)
    &&& same_slot(old.decal, new.decal)
    &&& same_slot(old.volume, new.volume)
    &&& same_slot(old.spline, new.spline)
    &&& same_foliage(old.foliage, new.foliage)
    &&& new.streaming_source == old.streaming_source
    &&& new.always_loaded == old.always_loaded
    &&& new.time_of_day == old.time_of_day
    &&& sky_of_v11(old.sky_atmosphere, new.sky_atmosphere, sky)
    &&& new.water_body is None
    &&& new.buoyancy is None
    &&& new.voxel_volume is None
}

/// What a record of version 12 became: every slot it had, and nothing in the
/// slots that came later.
pub open spec fn became_v12(old: EntityRecordV12, new: EntityRecord, sky: SkyAtmosphere) -> bool {
    &&& new.guid == old.guid
    &&& new.name@ == old.name@
    &&& new.parent == old.parent
    &&& new.transform == old.transform
    &&& new.visible == old.visible
    &&& new.mesh == old.mesh
    &&& new.material == old.material
    &&& new.light == old.light
    &&& same_slot(old.camera, new.camera)
    &&& same_slot(old.sprite, new.sprite)
    &&& same_tilemap(old.tilemap, new.tilemap)
    &&& same_slot(old.nine_slice, new.nine_slice)
    &&& same_slot(old.text2d, new.text2d)
    &&& same_slot(old.light_2d, new.light_2d)
    &&& same_slot(old.rigid_body_2d, new.rigid_body_2d)
    &&& same_slot(old.collider_2d, new.collider_2d)
    &&& same_slot(old.character_controller_2d, new.character_controller_2d)
    &&& same_slot(old.rigid_body_3d, new.rigid_body_3d)
    &&& same_slot(old.collider_3d, new.collider_3d)
    &&& same_slot(old.character_controller_3d, new.character_controller_3d)
    &&& new.actor == old.actor
    &&& terrain_of_v14(old.terrain, new.terrain)
    &&& same_slot(old.pcg_volume, new.pcg_volume)
    &&& same_slot(old.skeletal_mesh, new.skeletal_mesh)
    &&& same_slot(old.anim_player, new.anim_player)
    &&& same_slot(old.anim_state_machine, new.anim_state_machine)
    &&& same_slot(old.root_motion, new.root_motion)
    &&& same_slot(old.attached_to, new.attached_to)
    &&& same_slot(old.joint_2d, new.joint_2d)
    &&& same_slot(old.joint_3d, new.joint_3d)
    &&& same_slot(old.audio_source, new.audio_source)
    &&& same_slot(old.audio_listener, new.audio_listener)
    &&& same_slot(old.decal, new.decal)
    &&& same_slot(old.volume, new.volume)
    &&& same_slot(old.spline, new.spline)
    &&& same_foliage(old.foliage, new.foliage)
    &&& new.streaming_source == old.streaming_source
    &&& new.always_loaded == old.always_loaded
    &&& new.time_of_day == old.time_of_day
    &&& sky_of_v12(old.sky_atmosphere, new.sky_atmosphere, sky)
    &&& new.water_body is None
    &&& new.buoyancy is None
    &&& new.voxel_volume is None
}

/// What a record of version 13 became: every slot it had, and nothing in the
/// slots that came later.
pub open spec fn became_v13(old: EntityRecordV13, new: EntityRecord, sky: SkyAtmosphere) -> bool {
    &&& new.guid == old.guid
    &&& new.name@ == old.name@
    &&& new.parent == old.parent
    &&& new.transform == old.transform
    &&& new.visible == old.visible
    &&& new.mesh == old.mesh
    &&& new.material == old.material
    &&& new.light == old.light
    &&& same_slot(old.camera, new.camera)
    &&& same_slot(old.sprite, new.sprite)
    &&& same_tilemap(old.tilemap, new.tilemap)
    &&& same_slot(old.nine_slice, new.nine_slice)
    &&& same_slot(old.text2d, new.text2d)
    &&& same_slot(old.light_2d, new.light_2d)
    &&& same_slot(old.rigid_body_2d, new.rigid_body_2d)
    &&& same_slot(old.collider_2d, new.collider_2d)
    &&& same_slot(old.character_controller_2d, new.character_controller_2d)
    &&& same_slot(old.rigid_body_3d, new.rigid_body_3d)
    &&& same_slot(old.collider_3d, new.collider_3d)
    &&& same_slot(old.character_controller_3d, new.character_controller_3d)
    &&& new.actor == old.actor
    &&& terrain_of_v14(old.terrain, new.terrain)
    &&& same_slot(old.pcg_volume, new.pcg_volume)
    &&& same_slot(old.skeletal_mesh, new.skeletal_mesh)
    &&& same_slot(old.anim_player, new.anim_player)
    &&& same_slot(old.anim_state_machine, new.anim_state_machine)
    &&& same_slot(old.root_motion, new.root_motion)
    &&& same_slot(old.attached_to, new.attached_to)
    &&& same_slot(old.joint_2d, new.joint_2d)
    &&& same_slot(old.joint_3d, new.joint_3d)
    &&& same_slot(old.audio_source, new.audio_source)
    &&& same_slot(old.audio_listener, new.audio_listener)
    &&& same_slot(old.decal, new.decal)
    &&& same_slot(old.volume, new.volume)
    &&& same_slot(old.spline, new.spline)
    &&& same_foliage(old.foliage, new.foliage)
    &&& new.streaming_source == old.streaming_source
    &&& new.always_loaded == old.always_loaded
    &&& new.time_of_day == old.time_of_day
    &&& sky_of_v13(old.sky_atmosphere, new.sky_atmosphere, sky)
    &&& new.water_body is None
    &&& new.buoyancy is None
    &&& new.voxel_volume is None
}

/// What a record of version 14 became: every slot it had, and nothing in the
/// slots that came later.
pub open spec fn became_v14(old: EntityRecordV14, new: EntityRecord) -> bool {
    &&& new.guid == old.guid
    &&& new.name@ == old.name@
    &&& new.parent == old.parent
    &&& new.transform == old.transform
    &&& new.visible == old.visible
    &&& new.mesh == old.mesh
    &&& new.material == old.material
    &&& new.light == old.light
    &&& same_slot(old.camera, new.camera)
    &&& same_slot(old.sprite, new.sprite)
    &&& same_tilemap(old.tilemap, new.tilemap)
    &&& same_slot(old.nine_slice, new.nine_slice)
    &&& same_slot(old.text2d, new.text2d)
    &&& same_slot(old.light_2d, new.light_2d)
    &&& same_slot(old.rigid_body_2d, new.rigid_body_2d)
    &&& same_slot(old.collider_2d, new.collider_2d)
    &&& same_slot(old.character_controller_2d, new.character_controller_2d)
    &&& same_slot(old.rigid_body_3d, new.rigid_body_3d)
    &&& same_slot(old.collider_3d, new.collider_3d)
    &&& same_slot(old.character_controller_3d, new.character_controller_3d)
    &&& new.actor == old.actor
    &&& terrain_of_v14(old.terrain, new.terrain)
    &&& same_slot(old.pcg_volume, new.pcg_volume)
    &&& same_slot(old.skeletal_mesh, new.skeletal_mesh)
    &&& same_slot(old.anim_player, new.anim_player)
    &&& same_slot(old.anim_state_machine, new.anim_state_machine)
    &&& same_slot(old.root_motion, new.root_motion)
    &&& same_slot(old.attached_to, new.attached_to)
    &&& same_slot(old.joint_2d, new.joint_2d)
    &&& same_slot(old.joint_3d, new.joint_3d)
    &&& same_slot(old.audio_source, new.audio_source)
    &&& same_slot(old.audio_listener, new.audio_listener)
    &&& same_slot(old.decal, new.decal)
    &&& same_slot(old.volume, new.volume)
    &&& same_slot(old.spline, new.spline)
    &&& same_foliage(old.foliage, new.foliage)
    &&& new.streaming_source == old.streaming_source
    &&& new.always_loaded == old.always_loaded
    &&& new.time_of_day == old.time_of_day
    &&& new.sky_atmosphere == old.sky_atmosphere
    &&& new.water_body is None
    &&& new.buoyancy is None
    &&& new.voxel_volume is None
}

/// What a record of version 15 became: every slot it had, and nothing in the
/// slots that came later.
pub open spec fn became_v15(old: EntityRecordV15, new: EntityRecord) -> bool {
    &&& new.guid == old.guid
    &&& new.name@ == old.name@
    &&& new.parent == old.parent
    &&& new.transform == old.transform
    &&& new.visible == old.visible
    &&& new.mesh == old.mesh
    &&& new.material == old.material
    &&& new.light == old.light
    &&& same_slot(old.camera, new.camera)
    &&& same_slot(old.sprite, new.sprite)
    &&& same_tilemap(old.tilemap, new.tilemap)
    &&& same_slot(old.nine_slice, new.nine_slice)
    &&& same_slot(old.text2d, new.text2d)
    &&& same_slot(old.light_2d, new.light_2d)
    &&& same_slot(old.rigid_body_2d, new.rigid_body_2d)
    &&& same_slot(old.collider_2d, new.collider_2d)
    &&& same_slot(old.character_controller_2d, new.character_controller_2d)
    &&& same_slot(old.rigid_body_3d, new.rigid_body_3d)
    &&& same_slot(old.collider_3d, new.collider_3d)
    &&& same_slot(old.character_controller_3d, new.character_controller_3d)
    &&& new.actor == old.actor
    &&& terrain_of_v15(old.terrain, new.terrain)
    &&& same_slot(old.pcg_volume, new.pcg_volume)
    &&& same_slot(old.skeletal_mesh, new.skeletal_mesh)
    &&& same_slot(old.anim_player, new.anim_player)
    &&& same_slot(old.anim_state_machine, new.anim_state_machine)
    &&& same_slot(old.root_motion, new.root_motion)
    &&& same_slot(old.attached_to, new.attached_to)
    &&& same_slot(old.joint_2d, new.joint_2d)
    &&& same_slot(old.joint_3d, new.joint_3d)
    &&& same_slot(old.audio_source, new.audio_source)
    &&& same_slot(old.audio_listener, new.audio_listener)
    &&& same_slot(old.decal, new.decal)
    &&& same_slot(old.volume, new.volume)
    &&& same_slot(old.spline, new.spline)
    &&& same_foliage(old.foliage, new.foliage)
    &&& new.streaming_source == old.streaming_source
    &&& new.always_loaded == old.always_loaded
    &&& new.time_of_day == old.time_of_day
    &&& new.sky_atmosphere == old.sky_atmosphere
    &&& new.water_body is None
    &&& new.buoyancy is None
    &&& new.voxel_volume is None
}

/// What a record of version 16 became: every slot it had, and nothing in the
/// slots that came later.
pub open spec fn became_v16(old: EntityRecordV16, new: EntityRecord) -> bool {
    &&& new.guid == old.guid
    &&& new.name@ == old.name@
    &&& new.parent == old.parent
    &&& new.transform == old.transform
    &&& new.visible == old.visible
    &&& new.mesh == old.mesh
    &&& new.material == old.material
    &&& new.light == old.light
    &&& same_slot(old.camera, new.camera)
    &&& same_slot(old.sprite, new.sprite)
    &&& same_tilemap(old.tilemap, new.tilemap)
    &&& same_slot(old.nine_slice, new.nine_slice)
    &&& same_slot(old.text2d, new.text2d)
    &&& same_slot(old.light_2d, new.light_2d)
    &&& same_slot(old.rigid_body_2d, new.rigid_body_2d)
    &&& same_slot(old.collider_2d, new.collider_2d)
    &&& same_slot(old.character_controller_2d, new.character_controller_2d)
    &&& same_slot(old.rigid_body_3d, new.rigid_body_3d)
    &&& same_slot(old.collider_3d, new.collider_3d)
    &&& same_slot(old.character_controller_3d, new.character_controller_3d)
    &&& new.actor == old.actor
    &&& same_terrain(old.terrain, new.terrain)
    &&& same_slot(old.pcg_volume, new.pcg_volume)
    &&& same_slot(old.skeletal_mesh, new.skeletal_mesh)
    &&& same_slot(old.anim_player, new.anim_player)
    &&& same_slot(old.anim_state_machine, new.anim_state_machine)
    &&& same_slot(old.root_motion, new.root_motion)
    &&& same_slot(old.attached_to, new.attached_to)
    &&& same_slot(old.joint_2d, new.joint_2d)
    &&& same_slot(old.joint_3d, new.joint_3d)
    &&& same_slot(old.audio_source, new.audio_source)
    &&& same_slot(old.audio_listener, new.audio_listener)
    &&& same_slot(old.decal, new.decal)
    &&& same_slot(old.volume, new.volume)
    &&& same_slot(old.spline, new.spline)
    &&& same_foliage(old.foliage, new.foliage)
    &&& new.streaming_source == old.streaming_source
    &&& new.always_loaded == old.always_loaded
    &&& new.time_of_day == old.time_of_day
    &&& new.sky_atmosphere == old.sky_atmosphere
    &&& new.water_body is None
    &&& new.buoyancy is None
    &&& new.voxel_volume is None
}

/// What a record of version 17 became: every slot it had, and nothing in the
/// slots that came later.
pub open spec fn became_v17(old: EntityRecordV17, new: EntityRecord) -> bool {
    &&& new.guid == old.guid
    &&& new.name@ == old.name@
    &&& new.parent == old.parent
    &&& new.transform == old.transform
    &&& new.visible == old.visible
    &&& new.mesh == old.mesh
    &&& new.material == old.material
    &&& new.light == old.light
    &&& same_slot(old.camera, new.camera)
    &&& same_slot(old.sprite, new.sprite)
    &&& same_tilemap(old.tilemap, new.tilemap)
    &&& same_slot(old.nine_slice, new.nine_slice)
    &&& same_slot(old.text2d, new.text2d)
    &&& same_slot(old.light_2d, new.light_2d)
    &&& same_slot(old.rigid_body_2d, new.rigid_body_2d)
    &&& same_slot(old.collider_2d, new.collider_2d)
    &&& same_slot(old.character_controller_2d, new.character_controller_2d)
    &&& same_slot(old.rigid_body_3d, new.rigid_body_3d)
    &&& same_slot(old.collider_3d, new.collider_3d)
    &&& same_slot(old.character_controller_3d, new.character_controller_3d)
    &&& new.actor == old.actor
    &&& same_terrain(old.terrain, new.terrain)
    &&& same_slot(old.pcg_volume, new.pcg_volume)
    &&& same_slot(old.skeletal_mesh, new.skeletal_mesh)
    &&& same_slot(old.anim_player, new.anim_player)
    &&& same_slot(old.anim_state_machine, new.anim_state_machine)
    &&& same_slot(old.root_motion, new.root_motion)
    &&& same_slot(old.attached_to, new.attached_to)
    &&& same_slot(old.joint_2d, new.joint_2d)
    &&& same_slot(old.joint_3d, new.joint_3d)
    &&& same_slot(old.audio_source, new.audio_source)
    &&& same_slot(old.audio_listener, new.audio_listener)
    &&& same_slot(old.decal, new.decal)
    &&& same_slot(old.volume, new.volume)
    &&& same_slot(old.spline, new.spline)
    &&& same_foliage(old.foliage, new.foliage)
    &&& new.streaming_source == old.streaming_source
    &&& new.always_loaded == old.always_loaded
    &&& new.time_of_day == old.time_of_day
    &&& new.sky_atmosphere == old.sky_atmosphere
    &&& same_slot(old.water_body, new.water_body)
    &&& new.buoyancy is None
    &&& new.voxel_volume is None
}

/// What a record of version 18 became: every slot it had, and nothing in the
/// slots that came later.
pub open spec fn became_v18(old: EntityRecordV18, new: EntityRecord) -> bool {
    &&& new.guid == old.guid
    &&& new.name@ == old.name@
    &&& new.parent == old.parent
    &&& new.transform == old.transform
    &&& new.visible == old.visible
    &&& new.mesh == old.mesh
    &&& new.material == old.material
    &&& new.light == old.light
    &&& same_slot(old.camera, new.camera)
    &&& same_slot(old.sprite, new.sprite)
    &&& same_tilemap(old.tilemap, new.tilemap)
    &&& same_slot(old.nine_slice, new.nine_slice)
    &&& same_slot(old.text2d, new.text2d)
    &&& same_slot(old.light_2d, new.light_2d)
    &&& same_slot(old.rigid_body_2d, new.rigid_body_2d)
    &&& same_slot(old.collider_2d, new.collider_2d)
    &&& same_slot(old.character_controller_2d, new.character_controller_2d)
    &&& same_slot(old.rigid_body_3d, new.rigid_body_3d)
    &&& same_slot(old.collider_3d, new.collider_3d)
    &&& same_slot(old.character_controller_3d, new.character_controller_3d)
    &&& new.actor == old.actor
    &&& same_terrain(old.terrain, new.terrain)
    &&& same_slot(old.pcg_volume, new.pcg_volume)
    &&& same_slot(old.skeletal_mesh, new.skeletal_mesh)
    &&& same_slot(old.anim_player, new.anim_player)
    &&& same_slot(old.anim_state_machine, new.anim_state_machine)
    &&& same_slot(old.root_motion, new.root_motion)
    &&& same_slot(old.attached_to, new.attached_to)
    &&& same_slot(old.joint_2d, new.joint_2d)
    &&& same_slot(old.joint_3d, new.joint_3d)
    &&& same_slot(old.audio_source, new.audio_source)
    &&& same_slot(old.audio_listener, new.audio_listener)
    &&& same_slot(old.decal, new.decal)
    &&& same_slot(old.volume, new.volume)
    &&& same_slot(old.spline, new.spline)
    &&& same_foliage(old.foliage, new.foliage)
    &&& new.streaming_source == old.streaming_source
    &&& new.always_loaded == old.always_loaded
    &&& new.time_of_day == old.time_of_day
    &&& new.sky_atmosphere == old.sky_atmosphere
    &&& same_slot(old.water_body, new.water_body)
    &&& same_slot(old.buoyancy, new.buoyancy)
    &&& new.voxel_volume is None
}

/// Two records of today that hold the same.
pub open spec fn same_record(old: EntityRecord, new: EntityRecord) -> bool {
    &&& new.guid == old.guid
    &&& new.name@ == old.name@
    &&& new.parent == old.parent
    &&& new.transform == old.transform
    &&& new.visible == old.visible
    &&& new.mesh == old.mesh
    &&& new.material == old.material
    &&& new.light == old.light
    &&& same_slot(old.camera, new.camera)
    &&& same_slot(old.sprite, new.sprite)
    &&& same_tilemap(old.tilemap, new.tilemap)
    &&& same_slot(old.nine_slice, new.nine_slice)
    &&& same_slot(old.text2d, new.text2d)
    &&& same_slot(old.light_2d, new.light_2d)
    &&& same_slot(old.rigid_body_2d, new.rigid_body_2d)
    &&& same_slot(old.collider_2d, new.collider_2d)
    &&& same_slot(old.character_controller_2d, new.character_controller_2d)
    &&& same_slot(old.rigid_body_3d, new.rigid_body_3d)
    &&& same_slot(old.collider_3d, new.collider_3d)
    &&& same_slot(old.character_controller_3d, new.character_controller_3d)
    &&& new.actor == old.actor
    &&& same_terrain(old.terrain, new.terrain)
    &&& same_slot(old.pcg_volume, new.pcg_volume)
    &&& same_slot(old.skeletal_mesh, new.skeletal_mesh)
    &&& same_slot(old.anim_player, new.anim_player)
    &&& same_slot(old.anim_state_machine, new.anim_state_machine)
    &&& same_slot(old.root_motion, new.root_motion)
    &&& same_slot(old.attached_to, new.attached_to)
    &&& same_slot(old.joint_2d, new.joint_2d)
    &&& same_slot(old.joint_3d, new.joint_3d)
    &&& same_slot(old.audio_source, new.audio_source)
    &&& same_slot(old.audio_listener, new.audio_listener)
    &&& same_slot(old.decal, new.decal)
    &&& same_slot(old.volume, new.volume)
    &&& same_slot(old.spline, new.spline)
    &&& same_foliage(old.foliage, new.foliage)
    &&& new.streaming_source == old.streaming_source
    &&& new.always_loaded == old.always_loaded
    &&& new.time_of_day == old.time_of_day
    &&& new.sky_atmosphere == old.sky_atmosphere
    &&& same_slot(old.water_body, new.water_body)
    &&& same_slot(old.buoyancy, new.buoyancy)
    &&& same_slot(old.voxel_volume, new.voxel_volume)
}

// ---------------------------------------------------------------- proofs

pub proof fn lemma_same_list(old: Seq<Component>, new: Seq<Component>)
    requires
        component::blobs(new) == component::blobs(old),
    ensures
        same_list(old, new),
{
    let a = component::blobs(old);
    let b = component::blobs(new);
    assert(a.len() == old.len() && b.len() == new.len());
    assert forall|i: int| 0 <= i < old.len() implies (#[trigger] new[i]).bytes@ == old[i].bytes@ by {
        assert(a[i] == old[i]@ && b[i] == new[i]@);
    }
}

pub proof fn lemma_same_tilemap(old: Option<Tilemap>, new: Option<Tilemap>)
    requires
        tilemap::tilemap_now(new) == tilemap::tilemap_now(old),
    ensures
        same_tilemap(old, new),
{
    match (old, new) {
        (Some(a), Some(b)) => {
            assert(a@.chunks.len() == a.chunks@.len() && b@.chunks.len() == b.chunks@.len());
            assert forall|i: int| 0 <= i < a.chunks@.len() implies (#[trigger] b.chunks@[i]).coord
                == a.chunks@[i].coord && b.chunks@[i].tiles@ == a.chunks@[i].tiles@ by {
                assert(a@.chunks[i] == a.chunks@[i]@ && b@.chunks[i] == b.chunks@[i]@);
            }
        },
        _ => {},
    }
}

pub proof fn lemma_same_foliage(old: Option<Foliage>, new: Option<Foliage>)
    requires
        foliage::foliage_now(new) == foliage::foliage_now(old),
    ensures
        same_foliage(old, new),
{
    match (old, new) {
        (Some(a), Some(b)) => {
            lemma_same_list(a.instances@, b.instances@);
        },
        _ => {},
    }
}

proof fn lemma_terrain_of_v8(old: Option<TerrainV8>, new: Option<Terrain>)
    requires
        terrain::terrain_now(new) == terrain::terrain_v8(old),
    ensures
        terrain_of_v8(old, new),
{
    match (old, new) {
        (Some(a), Some(b)) => {
            assert(a@.data.tiles.len() == a.data.tiles@.len());
            assert(b@.data.tiles.len() == b.data.tiles@.len());
            assert(b@.biome_population.len() == b.biome_population@.len());
            assert forall|i: int| 0 <= i < a.data.tiles@.len() implies {
                let s = a.data.tiles@[i];
                let t = #[trigger] b.data.tiles@[i];
                &&& t.coord == s.coord
                &&& t.base.bytes@ == s.base.bytes@
                &&& t.data_maps.bytes@.len() == 0
                &&& t.biome_ids.bytes@.len() == 0
            } by {
                assert(a@.data.tiles[i] == a.data.tiles@[i]@);
                assert(b@.data.tiles[i] == b.data.tiles@[i]@);
            }
        },
        _ => {},
    }
}

proof fn lemma_terrain_of_v14(old: Option<TerrainV14>, new: Option<Terrain>)
    requires
        terrain::terrain_now(new) == terrain::terrain_v14(old),
    ensures
        terrain_of_v14(old, new),
{
    match (old, new) {
        (Some(a), Some(b)) => {
            assert(a@.data.tiles.len() == a.data.tiles@.len());
            assert(b@.data.tiles.len() == b.data.tiles@.len());
            assert(b@.biome_population.len() == b.biome_population@.len());
            assert forall|i: int| 0 <= i < a.data.tiles@.len() implies {
                let s = a.data.tiles@[i];
                let t = #[trigger] b.data.tiles@[i];
                &&& t.coord == s.coord
                &&& t.base.bytes@ == s.base.bytes@
                &&& t.data_maps.bytes@.len() == 0
                &&& t.biome_ids.bytes@.len() == 0
            } by {
                assert(a@.data.tiles[i] == a.data.tiles@[i]@);
                assert(b@.data.tiles[i] == b.data.tiles@[i]@);
            }
        },
        _ => {},
    }
}

proof fn lemma_terrain_of_v15(old: Option<TerrainV15>, new: Option<Terrain>)
    requires
        terrain::terrain_now(new) == terrain::terrain_v15(old),
    ensures
        terrain_of_v15(old, new),
{
    match (old, new) {
        (Some(a), Some(b)) => {
            assert(a@.data.tiles.len() == a.data.tiles@.len());
            assert(b@.data.tiles.len() == b.data.tiles@.len());
            assert(b@.biome_population.len() == b.biome_population@.len());
            assert forall|i: int| 0 <= i < a.data.tiles@.len() implies {
                let s = a.data.tiles@[i];
                let t = #[trigger] b.data.tiles@[i];
                &&& t.coord == s.coord
                &&& t.base.bytes@ == s.base.bytes@
                &&& t.data_maps.bytes@ == s.data_maps.bytes@
                &&& t.biome_ids.bytes@.len() == 0
            } by {
                assert(a@.data.tiles[i] == a.data.tiles@[i]@);
                assert(b@.data.tiles[i] == b.data.tiles@[i]@);
            }
        },
        _ => {},
    }
}

pub proof fn lemma_same_terrain(old: Option<Terrain>, new: Option<Terrain>)
    requires
        terrain::terrain_now(new) == terrain::terrain_now(old),
    ensures
        same_terrain(old, new),
{
    match (old, new) {
        (Some(a), Some(b)) => {
            assert(a@.data.tiles.len() == a.data.tiles@.len());
            assert(b@.data.tiles.len() == b.data.tiles@.len());
            lemma_same_list(a.biome_population@, b.biome_population@);
            assert forall|i: int| 0 <= i < a.data.tiles@.len() implies {
                let s = a.data.tiles@[i];
                let t = #[trigger] b.data.tiles@[i];
                &&& t.coord == s.coord
                &&& t.base.bytes@ == s.base.bytes@
                &&& t.data_maps.bytes@ == s.data_maps.bytes@
                &&& t.biome_ids.bytes@ == s.biome_ids.bytes@
            } by {
                assert(a@.data.tiles[i] == a.data.tiles@[i]@);
                assert(b@.data.tiles[i] == b.data.tiles@[i]@);
            }
        },
        _ => {},
    }
}

proof fn lemma_became_v1(old: EntityRecordV1, new: EntityRecord, sky: SkyAtmosphere)
    requires
        new@ == old@.with_weather(sky.weather()),
    ensures
        became_v1(old, new),
{
    let p = new@.parts;
    assert(p == old@.parts.with_weather(sky.weather()));
}

proof fn lemma_became_v2(old: EntityRecordV2, new: EntityRecord, sky: SkyAtmosphere)
    requires
        new@ == old@.with_weather(sky.weather()),
    ensures
        became_v2(old, new),
{
    let p = new@.parts;
    assert(p == old@.parts.with_weather(sky.weather()));
    lemma_same_tilemap(old.tilemap, new.tilemap);
}

proof fn lemma_became_v3(old: EntityRecordV3, new: EntityRecord, sky: SkyAtmosphere)
    requires
        new@ == old@.with_weather(sky.weather()),
    ensures
        became_v3(old, new),
{
    let p = new@.parts;
    assert(p == old@.parts.with_weather(sky.weather()));
    lemma_same_tilemap(old.tilemap, new.tilemap);
}

proof fn lemma_became_v4(old: EntityRecordV4, new: EntityRecord, sky: SkyAtmosphere)
    requires
        new@ == old@.with_weather(sky.weather()),
    ensures
        became_v4(old, new),
{
    let p = new@.parts;
    assert(p == old@.parts.with_weather(sky.weather()));
    lemma_same_tilemap(old.tilemap, new.tilemap);
    lemma_terrain_of_v8(old.terrain, new.terrain);
}

proof fn lemma_became_v5(old: EntityRecordV5, new: EntityRecord, sky: SkyAtmosphere)
    requires
        new@ == old@.with_weather(sky.weather()),
    ensures
        became_v5(old, new),
{
    let p = new@.parts;
    assert(p == old@.parts.with_weather(sky.weather()));
    lemma_same_tilemap(old.tilemap, new.tilemap);
    lemma_terrain_of_v8(old.terrain, new.terrain);
}

proof fn lemma_became_v6(old: EntityRecordV6, new: EntityRecord, sky: SkyAtmosphere)
    requires
        new@ == old@.with_weather(sky.weather()),
    ensures
        became_v6(old, new),
{
    let p = new@.parts;
    assert(p == old@.parts.with_weather(sky.weather()));
    lemma_same_tilemap(old.tilemap, new.tilemap);
    lemma_terrain_of_v8(old.terrain, new.terrain);
}

proof fn lemma_became_v7(old: EntityRecordV7, new: EntityRecord, sky: SkyAtmosphere)
    requires
        new@ == old@.with_weather(sky.weather()),
    ensures
        became_v7(old, new),
{
    let p = new@.parts;
    assert(p == old@.parts.with_weather(sky.weather()));
    lemma_same_tilemap(old.tilemap, new.tilemap);
    lemma_terrain_of_v8(old.terrain, new.terrain);
}

proof fn lemma_became_v8(old: EntityRecordV8, new: EntityRecord, sky: SkyAtmosphere)
    requires
        new@ == old@.with_weather(sky.weather()),
    ensures
        became_v8(old, new),
{
    let p = new@.parts;
    assert(p == old@.parts.with_weather(sky.weather()));
    lemma_same_tilemap(old.tilemap, new.tilemap);
    lemma_terrain_of_v8(old.terrain, new.terrain);
    lemma_same_foliage(old.foliage, new.foliage);
}

proof fn lemma_became_v9(old: EntityRecordV9, new: EntityRecord, sky: SkyAtmosphere)
    requires
        new@ == old@.with_weather(sky.weather()),
    ensures
        became_v9(old, new),
{
    let p = new@.parts;
    assert(p == old@.parts.with_weather(sky.weather()));
    lemma_same_tilemap(old.tilemap, new.tilemap);
    lemma_terrain_of_v14(old.terrain, new.terrain);
    lemma_same_foliage(old.foliage, new.foliage);
}

proof fn lemma_became_v10(old: EntityRecordV10, new: EntityRecord, sky: SkyAtmosphere)
    requires
        new@ == old@.with_weather(sky.weather()),
    ensures
        became_v10(old, new),
{
    let p = new@.parts;
    assert(p == old@.parts.with_weather(sky.weather()));
    lemma_same_tilemap(old.tilemap, new.tilemap);
    lemma_terrain_of_v14(old.terrain, new.terrain);
    lemma_same_foliage(old.foliage, new.foliage);
}

proof fn lemma_became_v11(old: EntityRecordV11, new: EntityRecord, sky: SkyAtmosphere)
    requires
        new@ == old@.with_weather(sky.weather()),
    ensures
        became_v11(old, new, sky),
{
    let p = new@.parts;
    assert(p == old@.parts.with_weather(sky.weather()));
    lemma_same_tilemap(old.tilemap, new.tilemap);
    lemma_terrain_of_v14(old.terrain, new.terrain);
    lemma_same_foliage(old.foliage, new.foliage);
}

proof fn lemma_became_v12(old: EntityRecordV12, new: EntityRecord, sky: SkyAtmosphere)
    requires
        new@ == old@.with_weather(sky.weather()),
    ensures
        became_v12(old, new, sky),
{
    let p = new@.parts;
    assert(p == old@.parts.with_weather(sky.weather()));
    lemma_same_tilemap(old.tilemap, new.tilemap);
    lemma_terrain_of_v14(old.terrain, new.terrain);
    lemma_same_foliage(old.foliage, new.foliage);
}

proof fn lemma_became_v13(old: EntityRecordV13, new: EntityRecord, sky: SkyAtmosphere)
    requires
        new@ == old@.with_weather(sky.weather()),
    ensures
        became_v13(old, new, sky),
{
    let p = new@.parts;
    assert(p == old@.parts.with_weather(sky.weather()));
    lemma_same_tilemap(old.tilemap, new.tilemap);
    lemma_terrain_of_v14(old.terrain, new.terrain);
    lemma_same_foliage(old.foliage, new.foliage);
}

proof fn lemma_became_v14(old: EntityRecordV14, new: EntityRecord)
    requires
        new@ == old@,
    ensures
        became_v14(old, new),
{
    let p = new@.parts;
    assert(p == old@.parts);
    lemma_same_tilemap(old.tilemap, new.tilemap);
    lemma_terrain_of_v14(old.terrain, new.terrain);
    lemma_same_foliage(old.foliage, new.foliage);
}

proof fn lemma_became_v15(old: EntityRecordV15, new: EntityRecord)
    requires
        new@ == old@,
    ensures
        became_v15(old, new),
{
    let p = new@.parts;
    assert(p == old@.parts);
    lemma_same_tilemap(old.tilemap, new.tilemap);
    lemma_terrain_of_v15(old.terrain, new.terrain);
    lemma_same_foliage(old.foliage, new.foliage);
}

proof fn lemma_became_v16(old: EntityRecordV16, new: EntityRecord)
    requires
        new@ == old@,
    ensures
        became_v16(old, new),
{
    let p = new@.parts;
    assert(p == old@.parts);
    lemma_same_tilemap(old.tilemap, new.tilemap);
    lemma_same_terrain(old.terrain, new.terrain);
    lemma_same_foliage(old.foliage, new.foliage);
}

proof fn lemma_became_v17(old: EntityRecordV17, new: EntityRecord)
    requires
        new@ == old@,
    ensures
        became_v17(old, new),
{
    let p = new@.parts;
    assert(p == old@.parts);
    lemma_same_tilemap(old.tilemap, new.tilemap);
    lemma_same_terrain(old.terrain, new.terrain);
    lemma_same_foliage(old.foliage, new.foliage);
}

proof fn lemma_became_v18(old: EntityRecordV18, new: EntityRecord)
    requires
        new@ == old@,
    ensures
        became_v18(old, new),
{
    let p = new@.parts;
    assert(p == old@.parts);
    lemma_same_tilemap(old.tilemap, new.tilemap);
    lemma_same_terrain(old.terrain, new.terrain);
    lemma_same_foliage(old.foliage, new.foliage);
}

proof fn lemma_same_record(old: EntityRecord, new: EntityRecord)
    requires
        new@ == old@,
    ensures
        same_record(old, new),
{
    let p = new@.parts;
    assert(p == old@.parts);
    lemma_same_tilemap(old.tilemap, new.tilemap);
    lemma_same_terrain(old.terrain, new.terrain);
    lemma_same_foliage(old.foliage, new.foliage);
}

// ---------------------------------------------------------------- settings

/// The rendering of a level that authored none: exposure 1, dithered, every
/// effect off.
pub open spec fn plain_render(r: RenderSettingsRecord) -> bool {
    &&& r.exposure.bits == 0x3f80_0000
    &&& r.dither == true
    &&& r.bloom_enabled == false
    &&& r.bloom_threshold.bits == 0x3f80_0000
    &&& r.bloom_knee.bits == 0x3f00_0000
    &&& r.bloom_intensity.bits == 0x3d75_c28f
    &&& r.ssao_enabled == false
    &&& r.ssao_radius.bits == 0x3f19_999a
    &&& r.ssao_intensity.bits == 0x3f80_0000
    &&& r.ssao_bias.bits == 0x3ccc_cccd
    &&& r.taa == false
    &&& r.shadows_enabled == false
    &&& r.shadows_max_distance.bits == 0x4270_0000
    &&& r.gi_enabled == false
    &&& r.gi_intensity.bits == 0x3f80_0000
}

/// The partition of a level that authored none: off, with 256 metres throughout.
pub open spec fn plain_partition(p: PartitionSettings) -> bool {
    &&& !p.enabled
    &&& p.cell_size_m.bits == 0x4070_0000_0000_0000
    &&& p.activation_radius_m.bits == 0x4070_0000_0000_0000
    &&& p.prefetch_margin_m.bits == 0x4070_0000_0000_0000
}

/// The settings of a level that authored none: no gravity in the plane, the
/// earth's in space, 60 steps a second.
pub open spec fn plain_settings(s: LevelSettings) -> bool {
    &&& s.gravity_2d.x.bits == 0 && s.gravity_2d.y.bits == 0
    &&& s.gravity_3d.x.bits == 0 && s.gravity_3d.z.bits == 0
    &&& s.gravity_3d.y.bits == 0xc023_9eb8_51eb_851f
    &&& s.sim_hz.bits == 0x404e_0000_0000_0000
    &&& plain_render(s.render)
    &&& plain_partition(s.partition)
}

// ---------------------------------------------------------------- laws

/// A level of version 1 opens with everything that was authored in it.
pub proof fn law_version_1_keeps_what_was_authored(
    bytes: Seq<u8>,
    f: SceneFileV1,
    sky: SkyAtmosphere,
    out: SceneFile,
)
    requires
        decode::decoded(bytes, Ok(ScenePayload::V1(f)), sky.weather()) == Ok::<
            SceneFileModel,
            Seq<char>,
        >(out@),
    ensures
        out.schema_version == 19,
        out.title@ == f.title@,
        plain_settings(out.settings),
        out.entities@.len() == f.entities@.len(),
        forall|i: int|
            0 <= i < f.entities@.len() ==> became_v1(f.entities@[i], #[trigger] out.entities@[i]),
{
    let was = f@.entities;
    let now = out@.entities;
    assert(now.len() == out.entities@.len());
    assert(was.len() == f.entities@.len());
    assert forall|i: int| 0 <= i < f.entities@.len() implies became_v1(
        f.entities@[i],
        #[trigger] out.entities@[i],
    ) by {
        assert(was[i] == f.entities@[i]@);
        assert(now[i] == out.entities@[i]@);
        lemma_became_v1(f.entities@[i], out.entities@[i], sky);
    }
}

/// A level of version 2 opens with everything that was authored in it.
pub proof fn law_version_2_keeps_what_was_authored(
    bytes: Seq<u8>,
    f: SceneFileV2,
    sky: SkyAtmosphere,
    out: SceneFile,
)
    requires
        decode::decoded(bytes, Ok(ScenePayload::V2(f)), sky.weather()) == Ok::<
            SceneFileModel,
            Seq<char>,
        >(out@),
    ensures
        out.schema_version == 19,
        out.title@ == f.title@,
        plain_settings(out.settings),
        out.entities@.len() == f.entities@.len(),
        forall|i: int|
            0 <= i < f.entities@.len() ==> became_v2(f.entities@[i], #[trigger] out.entities@[i]),
{
    let was = f@.entities;
    let now = out@.entities;
    assert(now.len() == out.entities@.len());
    assert(was.len() == f.entities@.len());
    assert forall|i: int| 0 <= i < f.entities@.len() implies became_v2(
        f.entities@[i],
        #[trigger] out.entities@[i],
    ) by {
        assert(was[i] == f.entities@[i]@);
        assert(now[i] == out.entities@[i]@);
        lemma_became_v2(f.entities@[i], out.entities@[i], sky);
    }
}

/// A level of version 3 opens with everything that was authored in it.
pub proof fn law_version_3_keeps_what_was_authored(
    bytes: Seq<u8>,
    f: SceneFileV3,
    sky: SkyAtmosphere,
    out: SceneFile,
)
    requires
        decode::decoded(bytes, Ok(ScenePayload::V3(f)), sky.weather()) == Ok::<
            SceneFileModel,
            Seq<char>,
        >(out@),
    ensures
        out.schema_version == 19,
        out.title@ == f.title@,
        out.settings.gravity_2d == f.settings.gravity_2d,
        out.settings.gravity_3d == f.settings.gravity_3d,
        out.settings.sim_hz == f.settings.sim_hz,
        plain_render(out.settings.render),
        plain_partition(out.settings.partition),
        out.entities@.len() == f.entities@.len(),
        forall|i: int|
            0 <= i < f.entities@.len() ==> became_v3(f.entities@[i], #[trigger] out.entities@[i]),
{
    let was = f@.entities;
    let now = out@.entities;
    assert(now.len() == out.entities@.len());
    assert(was.len() == f.entities@.len());
    assert forall|i: int| 0 <= i < f.entities@.len() implies became_v3(
        f.entities@[i],
        #[trigger] out.entities@[i],
    ) by {
        assert(was[i] == f.entities@[i]@);
        assert(now[i] == out.entities@[i]@);
        lemma_became_v3(f.entities@[i], out.entities@[i], sky);
    }
}

/// A level of version 4 opens with everything that was authored in it.
pub proof fn law_version_4_keeps_what_was_authored(
    bytes: Seq<u8>,
    f: SceneFileV4,
    sky: SkyAtmosphere,
    out: SceneFile,
)
    requires
        decode::decoded(bytes, Ok(ScenePayload::V4(f)), sky.weather()) == Ok::<
            SceneFileModel,
            Seq<char>,
        >(out@),
    ensures
        out.schema_version == 19,
        out.title@ == f.title@,
        out.settings.gravity_2d == f.settings.gravity_2d,
        out.settings.gravity_3d == f.settings.gravity_3d,
        out.settings.sim_hz == f.settings.sim_hz,
        plain_render(out.settings.render),
        plain_partition(out.settings.partition),
        out.entities@.len() == f.entities@.len(),
        forall|i: int|
            0 <= i < f.entities@.len() ==> became_v4(f.entities@[i], #[trigger] out.entities@[i]),
{
    let was = f@.entities;
    let now = out@.entities;
    assert(now.len() == out.entities@.len());
    assert(was.len() == f.entities@.len());
    assert forall|i: int| 0 <= i < f.entities@.len() implies became_v4(
        f.entities@[i],
        #[trigger] out.entities@[i],
    ) by {
        assert(was[i] == f.entities@[i]@);
        assert(now[i] == out.entities@[i]@);
        lemma_became_v4(f.entities@[i], out.entities@[i], sky);
    }
}

/// A level of version 5 opens with everything that was authored in it.
pub proof fn law_version_5_keeps_what_was_authored(
    bytes: Seq<u8>,
    f: SceneFileV5,
    sky: SkyAtmosphere,
    out: SceneFile,
)
    requires
        decode::decoded(bytes, Ok(ScenePayload::V5(f)), sky.weather()) == Ok::<
            SceneFileModel,
            Seq<char>,
        >(out@),
    ensures
        out.schema_version == 19,
        out.title@ == f.title@,
        out.settings.gravity_2d == f.settings.gravity_2d,
        out.settings.gravity_3d == f.settings.gravity_3d,
        out.settings.sim_hz == f.settings.sim_hz,
        plain_render(out.settings.render),
        plain_partition(out.settings.partition),
        out.entities@.len() == f.entities@.len(),
        forall|i: int|
            0 <= i < f.entities@.len() ==> became_v5(f.entities@[i], #[trigger] out.entities@[i]),
{
    let was = f@.entities;
    let now = out@.entities;
    assert(now.len() == out.entities@.len());
    assert(was.len() == f.entities@.len());
    assert forall|i: int| 0 <= i < f.entities@.len() implies became_v5(
        f.entities@[i],
        #[trigger] out.entities@[i],
    ) by {
        assert(was[i] == f.entities@[i]@);
        assert(now[i] == out.entities@[i]@);
        lemma_became_v5(f.entities@[i], out.entities@[i], sky);
    }
}

/// A level of version 6 opens with everything that was authored in it.
pub proof fn law_version_6_keeps_what_was_authored(
    bytes: Seq<u8>,
    f: SceneFileV6,
    sky: SkyAtmosphere,
    out: SceneFile,
)
    requires
        decode::decoded(bytes, Ok(ScenePayload::V6(f)), sky.weather()) == Ok::<
            SceneFileModel,
            Seq<char>,
        >(out@),
    ensures
        out.schema_version == 19,
        out.title@ == f.title@,
        out.settings.gravity_2d == f.settings.gravity_2d,
        out.settings.gravity_3d == f.settings.gravity_3d,
        out.settings.sim_hz == f.settings.sim_hz,
        plain_render(out.settings.render),
        plain_partition(out.settings.partition),
        out.entities@.len() == f.entities@.len(),
        forall|i: int|
            0 <= i < f.entities@.len() ==> became_v6(f.entities@[i], #[trigger] out.entities@[i]),
{
    let was = f@.entities;
    let now = out@.entities;
    assert(now.len() == out.entities@.len());
    assert(was.len() == f.entities@.len());
    assert forall|i: int| 0 <= i < f.entities@.len() implies became_v6(
        f.entities@[i],
        #[trigger] out.entities@[i],
    ) by {
        assert(was[i] == f.entities@[i]@);
        assert(now[i] == out.entities@[i]@);
        lemma_became_v6(f.entities@[i], out.entities@[i], sky);
    }
}

/// A level of version 7 opens with everything that was authored in it.
pub proof fn law_version_7_keeps_what_was_authored(
    bytes: Seq<u8>,
    f: SceneFileV7,
    sky: SkyAtmosphere,
    out: SceneFile,
)
    requires
        decode::decoded(bytes, Ok(ScenePayload::V7(f)), sky.weather()) == Ok::<
            SceneFileModel,
            Seq<char>,
        >(out@),
    ensures
        out.schema_version == 19,
        out.title@ == f.title@,
        out.settings.gravity_2d == f.settings.gravity_2d,
        out.settings.gravity_3d == f.settings.gravity_3d,
        out.settings.sim_hz == f.settings.sim_hz,
        plain_render(out.settings.render),
        plain_partition(out.settings.partition),
        out.entities@.len() == f.entities@.len(),
        forall|i: int|
            0 <= i < f.entities@.len() ==> became_v7(f.entities@[i], #[trigger] out.entities@[i]),
{
    let was = f@.entities;
    let now = out@.entities;
    assert(now.len() == out.entities@.len());
    assert(was.len() == f.entities@.len());
    assert forall|i: int| 0 <= i < f.entities@.len() implies became_v7(
        f.entities@[i],
        #[trigger] out.entities@[i],
    ) by {
        assert(was[i] == f.entities@[i]@);
        assert(now[i] == out.entities@[i]@);
        lemma_became_v7(f.entities@[i], out.entities@[i], sky);
    }
}

/// A level of version 8 opens with everything that was authored in it.
pub proof fn law_version_8_keeps_what_was_authored(
    bytes: Seq<u8>,
    f: SceneFileV8,
    sky: SkyAtmosphere,
    out: SceneFile,
)
    requires
        decode::decoded(bytes, Ok(ScenePayload::V8(f)), sky.weather()) == Ok::<
            SceneFileModel,
            Seq<char>,
        >(out@),
    ensures
        out.schema_version == 19,
        out.title@ == f.title@,
        out.settings.gravity_2d == f.settings.gravity_2d,
        out.settings.gravity_3d == f.settings.gravity_3d,
        out.settings.sim_hz == f.settings.sim_hz,
        out.settings.render == f.settings.render,
        plain_partition(out.settings.partition),
        out.entities@.len() == f.entities@.len(),
        forall|i: int|
            0 <= i < f.entities@.len() ==> became_v8(f.entities@[i], #[trigger] out.entities@[i]),
{
    let was = f@.entities;
    let now = out@.entities;
    assert(now.len() == out.entities@.len());
    assert(was.len() == f.entities@.len());
    assert forall|i: int| 0 <= i < f.entities@.len() implies became_v8(
        f.entities@[i],
        #[trigger] out.entities@[i],
    ) by {
        assert(was[i] == f.entities@[i]@);
        assert(now[i] == out.entities@[i]@);
        lemma_became_v8(f.entities@[i], out.entities@[i], sky);
    }
}

/// A level of version 9 opens with everything that was authored in it.
pub proof fn law_version_9_keeps_what_was_authored(
    bytes: Seq<u8>,
    f: SceneFileV9,
    sky: SkyAtmosphere,
    out: SceneFile,
)
    requires
        decode::decoded(bytes, Ok(ScenePayload::V9(f)), sky.weather()) == Ok::<
            SceneFileModel,
            Seq<char>,
        >(out@),
    ensures
        out.schema_version == 19,
        out.title@ == f.title@,
        out.settings.gravity_2d == f.settings.gravity_2d,
        out.settings.gravity_3d == f.settings.gravity_3d,
        out.settings.sim_hz == f.settings.sim_hz,
        out.settings.render == f.settings.render,
        plain_partition(out.settings.partition),
        out.entities@.len() == f.entities@.len(),
        forall|i: int|
            0 <= i < f.entities@.len() ==> became_v9(f.entities@[i], #[trigger] out.entities@[i]),
{
    let was = f@.entities;
    let now = out@.entities;
    assert(now.len() == out.entities@.len());
    assert(was.len() == f.entities@.len());
    assert forall|i: int| 0 <= i < f.entities@.len() implies became_v9(
        f.entities@[i],
        #[trigger] out.entities@[i],
    ) by {
        assert(was[i] == f.entities@[i]@);
        assert(now[i] == out.entities@[i]@);
        lemma_became_v9(f.entities@[i], out.entities@[i], sky);
    }
}

/// A level of version 10 opens with everything that was authored in it.
pub proof fn law_version_10_keeps_what_was_authored(
    bytes: Seq<u8>,
    f: SceneFileV10,
    sky: SkyAtmosphere,
    out: SceneFile,
)
    requires
        decode::decoded(bytes, Ok(ScenePayload::V10(f)), sky.weather()) == Ok::<
            SceneFileModel,
            Seq<char>,
        >(out@),
    ensures
        out.schema_version == 19,
        out.title@ == f.title@,
        out.settings == f.settings,
        out.entities@.len() == f.entities@.len(),
        forall|i: int|
            0 <= i < f.entities@.len() ==> became_v10(f.entities@[i], #[trigger] out.entities@[i]),
{
    let was = f@.entities;
    let now = out@.entities;
    assert(now.len() == out.entities@.len());
    assert(was.len() == f.entities@.len());
    assert forall|i: int| 0 <= i < f.entities@.len() implies became_v10(
        f.entities@[i],
        #[trigger] out.entities@[i],
    ) by {
        assert(was[i] == f.entities@[i]@);
        assert(now[i] == out.entities@[i]@);
        lemma_became_v10(f.entities@[i], out.entities@[i], sky);
    }
}

/// A level of version 11 opens with everything that was authored in it.
pub proof fn law_version_11_keeps_what_was_authored(
    bytes: Seq<u8>,
    f: SceneFileV11,
    sky: SkyAtmosphere,
    out: SceneFile,
)
    requires
        decode::decoded(bytes, Ok(ScenePayload::V11(f)), sky.weather()) == Ok::<
            SceneFileModel,
            Seq<char>,
        >(out@),
    ensures
        out.schema_version == 19,
        out.title@ == f.title@,
        out.settings == f.settings,
        out.entities@.len() == f.entities@.len(),
        forall|i: int|
            0 <= i < f.entities@.len() ==> became_v11(f.entities@[i], #[trigger] out.entities@[i], sky),
{
    let was = f@.entities;
    let now = out@.entities;
    assert(now.len() == out.entities@.len());
    assert(was.len() == f.entities@.len());
    assert forall|i: int| 0 <= i < f.entities@.len() implies became_v11(
        f.entities@[i],
        #[trigger] out.entities@[i],
        sky,
    ) by {
        assert(was[i] == f.entities@[i]@);
        assert(now[i] == out.entities@[i]@);
        lemma_became_v11(f.entities@[i], out.entities@[i], sky);
    }
}

/// A level of version 12 opens with everything that was authored in it.
pub proof fn law_version_12_keeps_what_was_authored(
    bytes: Seq<u8>,
    f: SceneFileV12,
    sky: SkyAtmosphere,
    out: SceneFile,
)
    requires
        decode::decoded(bytes, Ok(ScenePayload::V12(f)), sky.weather()) == Ok::<
            SceneFileModel,
            Seq<char>,
        >(out@),
    ensures
        out.schema_version == 19,
        out.title@ == f.title@,
        out.settings == f.settings,
        out.entities@.len() == f.entities@.len(),
        forall|i: int|
            0 <= i < f.entities@.len() ==> became_v12(f.entities@[i], #[trigger] out.entities@[i], sky),
{
    let was = f@.entities;
    let now = out@.entities;
    assert(now.len() == out.entities@.len());
    assert(was.len() == f.entities@.len());
    assert forall|i: int| 0 <= i < f.entities@.len() implies became_v12(
        f.entities@[i],
        #[trigger] out.entities@[i],
        sky,
    ) by {
        assert(was[i] == f.entities@[i]@);
        assert(now[i] == out.entities@[i]@);
        lemma_became_v12(f.entities@[i], out.entities@[i], sky);
    }
}

/// A level of version 13 opens with everything that was authored in it.
pub proof fn law_version_13_keeps_what_was_authored(
    bytes: Seq<u8>,
    f: SceneFileV13,
    sky: SkyAtmosphere,
    out: SceneFile,
)
    requires
        decode::decoded(bytes, Ok(ScenePayload::V13(f)), sky.weather()) == Ok::<
            SceneFileModel,
            Seq<char>,
        >(out@),
    ensures
        out.schema_version == 19,
        out.title@ == f.title@,
        out.settings == f.settings,
        out.entities@.len() == f.entities@.len(),
        forall|i: int|
            0 <= i < f.entities@.len() ==> became_v13(f.entities@[i], #[trigger] out.entities@[i], sky),
{
    let was = f@.entities;
    let now = out@.entities;
    assert(now.len() == out.entities@.len());
    assert(was.len() == f.entities@.len());
    assert forall|i: int| 0 <= i < f.entities@.len() implies became_v13(
        f.entities@[i],
        #[trigger] out.entities@[i],
        sky,
    ) by {
        assert(was[i] == f.entities@[i]@);
        assert(now[i] == out.entities@[i]@);
        lemma_became_v13(f.entities@[i], out.entities@[i], sky);
    }
}

/// A level of version 14 opens with everything that was authored in it.
pub proof fn law_version_14_keeps_what_was_authored(
    bytes: Seq<u8>,
    f: SceneFileV14,
    sky: SkyAtmosphere,
    out: SceneFile,
)
    requires
        decode::decoded(bytes, Ok(ScenePayload::V14(f)), sky.weather()) == Ok::<
            SceneFileModel,
            Seq<char>,
        >(out@),
    ensures
        out.schema_version == 19,
        out.title@ == f.title@,
        out.settings == f.settings,
        out.entities@.len() == f.entities@.len(),
        forall|i: int|
            0 <= i < f.entities@.len() ==> became_v14(f.entities@[i], #[trigger] out.entities@[i]),
{
    let was = f@.entities;
    let now = out@.entities;
    assert(now.len() == out.entities@.len());
    assert(was.len() == f.entities@.len());
    assert forall|i: int| 0 <= i < f.entities@.len() implies became_v14(
        f.entities@[i],
        #[trigger] out.entities@[i],
    ) by {
        assert(was[i] == f.entities@[i]@);
        assert(now[i] == out.entities@[i]@);
        lemma_became_v14(f.entities@[i], out.entities@[i]);
    }
}

/// A level of version 15 opens with everything that was authored in it.
pub proof fn law_version_15_keeps_what_was_authored(
    bytes: Seq<u8>,
    f: SceneFileV15,
    sky: SkyAtmosphere,
    out: SceneFile,
)
    requires
        decode::decoded(bytes, Ok(ScenePayload::V15(f)), sky.weather()) == Ok::<
            SceneFileModel,
            Seq<char>,
        >(out@),
    ensures
        out.schema_version == 19,
        out.title@ == f.title@,
        out.settings == f.settings,
        out.entities@.len() == f.entities@.len(),
        forall|i: int|
            0 <= i < f.entities@.len() ==> became_v15(f.entities@[i], #[trigger] out.entities@[i]),
{
    let was = f@.entities;
    let now = out@.entities;
    assert(now.len() == out.entities@.len());
    assert(was.len() == f.entities@.len());
    assert forall|i: int| 0 <= i < f.entities@.len() implies became_v15(
        f.entities@[i],
        #[trigger] out.entities@[i],
    ) by {
        assert(was[i] == f.entities@[i]@);
        assert(now[i] == out.entities@[i]@);
        lemma_became_v15(f.entities@[i], out.entities@[i]);
    }
}

/// A level of version 16 opens with everything that was authored in it.
pub proof fn law_version_16_keeps_what_was_authored(
    bytes: Seq<u8>,
    f: SceneFileV16,
    sky: SkyAtmosphere,
    out: SceneFile,
)
    requires
        decode::decoded(bytes, Ok(ScenePayload::V16(f)), sky.weather()) == Ok::<
            SceneFileModel,
            Seq<char>,
        >(out@),
    ensures
        out.schema_version == 19,
        out.title@ == f.title@,
        out.settings == f.settings,
        out.entities@.len() == f.entities@.len(),
        forall|i: int|
            0 <= i < f.entities@.len() ==> became_v16(f.entities@[i], #[trigger] out.entities@[i]),
{
    let was = f@.entities;
    let now = out@.entities;
    assert(now.len() == out.entities@.len());
    assert(was.len() == f.entities@.len());
    assert forall|i: int| 0 <= i < f.entities@.len() implies became_v16(
        f.entities@[i],
        #[trigger] out.entities@[i],
    ) by {
        assert(was[i] == f.entities@[i]@);
        assert(now[i] == out.entities@[i]@);
        lemma_became_v16(f.entities@[i], out.entities@[i]);
    }
}

/// A level of version 17 opens with everything that was authored in it.
pub proof fn law_version_17_keeps_what_was_authored(
    bytes: Seq<u8>,
    f: SceneFileV17,
    sky: SkyAtmosphere,
    out: SceneFile,
)
    requires
        decode::decoded(bytes, Ok(ScenePayload::V17(f)), sky.weather()) == Ok::<
            SceneFileModel,
            Seq<char>,
        >(out@),
    ensures
        out.schema_version == 19,
        out.title@ == f.title@,
        out.settings == f.settings,
        out.entities@.len() == f.entities@.len(),
        forall|i: int|
            0 <= i < f.entities@.len() ==> became_v17(f.entities@[i], #[trigger] out.entities@[i]),
{
    let was = f@.entities;
    let now = out@.entities;
    assert(now.len() == out.entities@.len());
    assert(was.len() == f.entities@.len());
    assert forall|i: int| 0 <= i < f.entities@.len() implies became_v17(
        f.entities@[i],
        #[trigger] out.entities@[i],
    ) by {
        assert(was[i] == f.entities@[i]@);
        assert(now[i] == out.entities@[i]@);
        lemma_became_v17(f.entities@[i], out.entities@[i]);
    }
}

/// A level of version 18 opens with everything that was authored in it.
pub proof fn law_version_18_keeps_what_was_authored(
    bytes: Seq<u8>,
    f: SceneFileV18,
    sky: SkyAtmosphere,
    out: SceneFile,
)
    requires
        decode::decoded(bytes, Ok(ScenePayload::V18(f)), sky.weather()) == Ok::<
            SceneFileModel,
            Seq<char>,
        >(out@),
    ensures
        out.schema_version == 19,
        out.title@ == f.title@,
        out.settings == f.settings,
        out.entities@.len() == f.entities@.len(),
        forall|i: int|
            0 <= i < f.entities@.len() ==> became_v18(f.entities@[i], #[trigger] out.entities@[i]),
{
    let was = f@.entities;
    let now = out@.entities;
    assert(now.len() == out.entities@.len());
    assert(was.len() == f.entities@.len());
    assert forall|i: int| 0 <= i < f.entities@.len() implies became_v18(
        f.entities@[i],
        #[trigger] out.entities@[i],
    ) by {
        assert(was[i] == f.entities@[i]@);
        assert(now[i] == out.entities@[i]@);
        lemma_became_v18(f.entities@[i], out.entities@[i]);
    }
}

/// Records of today that are told apart by nothing hold the same in every slot.
pub proof fn law_a_record_is_its_slots(old: EntityRecord, new: EntityRecord)
    requires
        new@ == old@,
    ensures
        same_record(old, new),
{
    lemma_same_record(old, new);
}

/// A level of today opens as it was read.
pub proof fn law_todays_level_keeps_what_was_authored(
    bytes: Seq<u8>,
    f: SceneFile,
    sky: SkyAtmosphere,
    out: SceneFile,
)
    requires
        decode::decoded(bytes, Ok(ScenePayload::Current(f)), sky.weather()) == Ok::<
            SceneFileModel,
            Seq<char>,
        >(out@),
    ensures
        out.schema_version == 19,
        out.title@ == f.title@,
        out.settings == f.settings,
        out.entities@.len() == f.entities@.len(),
        forall|i: int|
            0 <= i < f.entities@.len() ==> same_record(f.entities@[i], #[trigger] out.entities@[i]),
{
    let was = f@.entities;
    let now = out@.entities;
    assert(now.len() == out.entities@.len());
    assert(was.len() == f.entities@.len());
    assert forall|i: int| 0 <= i < f.entities@.len() implies same_record(
        f.entities@[i],
        #[trigger] out.entities@[i],
    ) by {
        assert(was[i] == f.entities@[i]@);
        assert(now[i] == out.entities@[i]@);
        lemma_same_record(f.entities@[i], out.entities@[i]);
    }
}

/// An entity is recorded as it is: its record holds what the entity holds in every
/// slot. Without a name it is nameless, without a place at the origin with scale
/// one, without a visibility visible.
pub proof fn law_an_entity_is_recorded_as_it_is(e: Entity, rec: EntityRecord)
    requires
        rec@ == e@.record(),
    ensures
        rec.guid == e.guid,
        rec.parent == e.parent,
        match e.name {
            Some(n) => rec.name@ == n@,
            None => rec.name@.len() == 0,
        },
        match e.transform {
            Some(t) => rec.transform == t,
            None => {
                let t = rec.transform;
                &&& t.translation.x.bits == 0 && t.translation.y.bits == 0 && t.translation.z.bits == 0
                &&& t.rotation.x.bits == 0 && t.rotation.y.bits == 0 && t.rotation.z.bits == 0
                &&& t.scale.x.bits == 0x3ff0_0000_0000_0000
                &&& t.scale.y.bits == 0x3ff0_0000_0000_0000
                &&& t.scale.z.bits == 0x3ff0_0000_0000_0000
            },
        },
        match e.visible {
            Some(v) => rec.visible == v,
            None => rec.visible,
        },
        rec.mesh == e.parts.mesh,
        rec.material == e.parts.material,
        rec.light == e.parts.light,
        same_slot(e.parts.camera, rec.camera),
        same_slot(e.parts.sprite, rec.sprite),
        same_tilemap(e.parts.tilemap, rec.tilemap),
        same_slot(e.parts.nine_slice, rec.nine_slice),
        same_slot(e.parts.text2d, rec.text2d),
        same_slot(e.parts.light_2d, rec.light_2d),
        same_slot(e.parts.rigid_body_2d, rec.rigid_body_2d),
        same_slot(e.parts.collider_2d, rec.collider_2d),
        same_slot(e.parts.character_controller_2d, rec.character_controller_2d),
        same_slot(e.parts.rigid_body_3d, rec.rigid_body_3d),
        same_slot(e.parts.collider_3d, rec.collider_3d),
        same_slot(e.parts.character_controller_3d, rec.character_controller_3d),
        rec.actor == e.parts.actor,
        same_terrain(e.parts.terrain, rec.terrain),
        same_slot(e.parts.pcg_volume, rec.pcg_volume),
        same_slot(e.parts.skeletal_mesh, rec.skeletal_mesh),
        same_slot(e.parts.anim_player, rec.anim_player),
        same_slot(e.parts.anim_state_machine, rec.anim_state_machine),
        same_slot(e.parts.root_motion, rec.root_motion),
        same_slot(e.parts.attached_to, rec.attached_to),
        same_slot(e.parts.joint_2d, rec.joint_2d),
        same_slot(e.parts.joint_3d, rec.joint_3d),
        same_slot(e.parts.audio_source, rec.audio_source),
        same_slot(e.parts.audio_listener, rec.audio_listener),
        same_slot(e.parts.decal, rec.decal),
        same_slot(e.parts.volume, rec.volume),
        same_slot(e.parts.spline, rec.spline),
        same_foliage(e.parts.foliage, rec.foliage),
        rec.streaming_source == e.parts.streaming_source,
        rec.always_loaded == e.parts.always_loaded,
        rec.time_of_day == e.parts.time_of_day,
        rec.sky_atmosphere == e.parts.sky_atmosphere,
        same_slot(e.parts.water_body, rec.water_body),
        same_slot(e.parts.buoyancy, rec.buoyancy),
        same_slot(e.parts.voxel_volume, rec.voxel_volume),
{
    assert(rec@.parts == e.parts@);
    lemma_same_tilemap(e.parts.tilemap, rec.tilemap);
    lemma_same_foliage(e.parts.foliage, rec.foliage);
    lemma_same_terrain(e.parts.terrain, rec.terrain);
}

/// A record is spawned as it is: the entity holds what the record holds in every
/// slot, below the parent that was found for it.
pub proof fn law_a_record_is_spawned_as_it_is(rec: EntityRecord, parent: Option<Guid>, e: Entity)
    requires
        e@ == EntityModel::of_record(rec@, parent),
    ensures
        e.guid == rec.guid,
        e.parent == parent,
        e.name matches Some(n) && n@ == rec.name@,
        e.transform == Some(rec.transform),
        e.visible == Some(rec.visible),
        e.parts.mesh == rec.mesh,
        e.parts.material == rec.material,
        e.parts.light == rec.light,
        same_slot(rec.camera, e.parts.camera),
        same_slot(rec.sprite, e.parts.sprite),
        same_tilemap(rec.tilemap, e.parts.tilemap),
        same_slot(rec.nine_slice, e.parts.nine_slice),
        same_slot(rec.text2d, e.parts.text2d),
        same_slot(rec.light_2d, e.parts.light_2d),
        same_slot(rec.rigid_body_2d, e.parts.rigid_body_2d),
        same_slot(rec.collider_2d, e.parts.collider_2d),
        same_slot(rec.character_controller_2d, e.parts.character_controller_2d),
        same_slot(rec.rigid_body_3d, e.parts.rigid_body_3d),
        same_slot(rec.collider_3d, e.parts.collider_3d),
        same_slot(rec.character_controller_3d, e.parts.character_controller_3d),
        e.parts.actor == rec.actor,
        same_terrain(rec.terrain, e.parts.terrain),
        same_slot(rec.pcg_volume, e.parts.pcg_volume),
        same_slot(rec.skeletal_mesh, e.parts.skeletal_mesh),
        same_slot(rec.anim_player, e.parts.anim_player),
        same_slot(rec.anim_state_machine, e.parts.anim_state_machine),
        same_slot(rec.root_motion, e.parts.root_motion),
        same_slot(rec.attached_to, e.parts.attached_to),
        same_slot(rec.joint_2d, e.parts.joint_2d),
        same_slot(rec.joint_3d, e.parts.joint_3d),
        same_slot(rec.audio_source, e.parts.audio_source),
        same_slot(rec.audio_listener, e.parts.audio_listener),
        same_slot(rec.decal, e.parts.decal),
        same_slot(rec.volume, e.parts.volume),
        same_slot(rec.spline, e.parts.spline),
        same_foliage(rec.foliage, e.parts.foliage),
        e.parts.streaming_source == rec.streaming_source,
        e.parts.always_loaded == rec.always_loaded,
        e.parts.time_of_day == rec.time_of_day,
        e.parts.sky_atmosphere == rec.sky_atmosphere,
        same_slot(rec.water_body, e.parts.water_body),
        same_slot(rec.buoyancy, e.parts.buoyancy),
        same_slot(rec.voxel_volume, e.parts.voxel_volume),
{
    assert(e.parts@ == rec@.parts);
    lemma_same_tilemap(rec.tilemap, e.parts.tilemap);
    lemma_same_foliage(rec.foliage, e.parts.foliage);
    lemma_same_terrain(rec.terrain, e.parts.terrain);
}

} // verus!
