//! The versions of the file, record by record.

use inf_editor_core::bits::{F32, F64};
use inf_editor_core::guid::Guid;
use inf_editor_core::scene::component::{
    AlwaysLoaded, BlendMode, Color, Component, LightV7, MaterialV7, MeshRefV6, StreamingSource,
    TimeOfDay, Transform, Vec2d, Vec3d,
};
use inf_editor_core::scene::file::SCHEMA_VERSION;
use inf_editor_core::scene::ladder_early::EntityRecordV1;
use inf_editor_core::scene::ladder_late::{
    EntityRecordV10, EntityRecordV11, EntityRecordV12, EntityRecordV13, EntityRecordV14,
    EntityRecordV15, EntityRecordV16, EntityRecordV17, EntityRecordV18,
};
use inf_editor_core::scene::record::EntityRecord;
use inf_editor_core::scene::settings::{
    LevelSettings, LevelSettingsV7, LevelSettingsV9, PartitionSettings, RenderSettingsRecord,
};
use inf_editor_core::scene::sky::{
    SkyAtmosphere, SkyAtmosphereV11, SkyAtmosphereV12, SkyAtmosphereV13,
};
use inf_editor_core::scene::terrain::{
    default_macro_variation, Terrain, TerrainData, TerrainTile, TerrainV14, TerrainV15, TerrainV8,
};

fn f(x: f64) -> F64 {
    F64::from_bits(x.to_bits())
}

fn s(x: f32) -> F32 {
    F32::from_bits(x.to_bits())
}

fn color(r: f32, g: f32, b: f32, a: f32) -> Color {
    Color { r: s(r), g: s(g), b: s(b), a: s(a) }
}

fn blob(bytes: &[u8]) -> Component {
    Component { bytes: bytes.to_vec() }
}

/// The living default of the atmosphere: the documented values, and a clear
/// weather that is off.
fn default_sky() -> SkyAtmosphere {
    SkyAtmosphere {
        enabled: true,
        sun_intensity: s(3.0),
        sun_color: color(1.0, 0.98, 0.95, 1.0),
        moon_intensity: s(0.15),
        moon_color: color(0.62, 0.72, 1.0, 1.0),
        zenith: color(0.012, 0.021, 0.038, 1.0),
        horizon: color(0.055, 0.081, 0.120, 1.0),
        ground: color(0.009, 0.011, 0.015, 1.0),
        night_darkening: s(0.85),
        physical: true,
        sky_intensity: s(1.0),
        turbidity: s(1.0),
        mie_anisotropy: s(0.8),
        sun_disc_deg: s(0.545),
        moon_disc_deg: s(0.52),
        star_intensity: s(1.0),
        tint_strength: s(0.0),
        aerial_perspective: s(1.0),
        fog_density: s(0.0),
        fog_falloff: s(0.002),
        fog_height: s(0.0),
        fog_color: color(1.0, 1.0, 1.0, 1.0),
        clouds_enabled: false,
        cloud_coverage: s(0.35),
        cloud_type: s(0.7),
        cloud_bottom: s(1500.0),
        cloud_top: s(4000.0),
        cloud_density: s(0.04),
        cloud_detail: s(0.6),
        cloud_seed: 0,
        cloud_wind_x: s(6.0),
        cloud_wind_z: s(2.0),
        cloud_phase_g: s(0.8),
        cloud_shadow: s(1.0),
        cloud_ambient: s(1.0),
        cloud_color: color(1.0, 1.0, 1.0, 1.0),
        weather_enabled: false,
        weather_target: 0,
        weather_blend_seconds: s(8.0),
        weather_blend_remaining: s(0.0),
        weather_coverage: s(0.1),
        weather_cloud_type: s(0.5),
        weather_wind_x: s(3.0),
        weather_wind_z: s(1.0),
        weather_fog_density: s(0.0),
        weather_precipitation: s(0.0),
        weather_snowiness: s(0.0),
    }
}

fn default_clock() -> TimeOfDay {
    TimeOfDay {
        seconds: f(36_000.0),
        day_of_year: 172,
        latitude_deg: f(48.9),
        longitude_deg: f(0.0),
        rate: f(0.0),
    }
}

fn plain(n: u128, name: &str) -> EntityRecord {
    EntityRecord::named(Guid::from_u128(n), name.to_string(), None, Transform::identity())
}

fn through_v10(rec: EntityRecord) -> EntityRecord {
    EntityRecordV10::from_current(rec).into_v11().into_v12().into_v13().into_current(&default_sky())
}

fn through_v11(rec: EntityRecord) -> EntityRecord {
    EntityRecordV11::from_current(rec).into_v12().into_v13().into_current(&default_sky())
}

fn through_v12(rec: EntityRecord) -> EntityRecord {
    EntityRecordV12::from_current(rec).into_v13().into_current(&default_sky())
}

fn through_v14(rec: EntityRecord) -> EntityRecord {
    EntityRecordV14::from_current(rec).into_v15().into_v16().into_v17().into_v18().into_current()
}

fn through_v15(rec: EntityRecord) -> EntityRecord {
    EntityRecordV15::from_current(rec).into_v16().into_v17().into_v18().into_current()
}

/// A terrain of one tile with both of the later layers.
fn full_terrain() -> Terrain {
    Terrain {
        meters_per_sample: f(2.0),
        tile_resolution: 4,
        data: TerrainData {
            tile_resolution: 4,
            meters_per_sample: f(2.0),
            tiles: vec![TerrainTile {
                coord: (0, 0),
                base: blob(&[1, 2, 3]),
                data_maps: blob(&[5, 2, 1]),
                biome_ids: blob(&[7]),
            }],
        },
        layers: blob(&[4]),
        macro_variation: f(0.4),
        asset: Some(Guid::from_u128(0xA55E7)),
        biome_set: Some(Guid::from_u128(0xB10E)),
        biome_population: vec![blob(&[8])],
    }
}

#[test]
fn v10_entity_downgrade_is_lossless_except_for_the_sky_slots() {
    let mut live = plain(0xB001, "Sky");
    live.streaming_source = Some(StreamingSource { radius_m: f(42.0) });
    live.always_loaded = Some(AlwaysLoaded {});
    live.time_of_day = Some(TimeOfDay { seconds: f(1234.0), rate: f(60.0), ..default_clock() });
    live.sky_atmosphere = Some(default_sky());
    let back = through_v10(live.clone());
    assert_eq!(back.streaming_source, live.streaming_source);
    assert_eq!(back.always_loaded, live.always_loaded);
    assert_eq!(back.name, live.name);
    assert!(
        back.time_of_day.is_none() && back.sky_atmosphere.is_none(),
        "the sky slots have no v10 home and must come back empty"
    );
    // A record with no clock survives the hop exactly.
    let prop = plain(0xB002, "Prop");
    assert_eq!(through_v10(prop.clone()), prop);
}

#[test]
fn v11_entity_downgrade_is_lossless_except_for_the_physical_atmosphere_block() {
    let tod = TimeOfDay { seconds: f(1234.0), rate: f(60.0), ..default_clock() };
    let authored = SkyAtmosphere {
        // the v11 half — must survive …
        sun_intensity: s(4.25),
        night_darkening: s(0.35),
        // … and the v12 block — must not.
        physical: false,
        turbidity: s(3.5),
        fog_density: s(6e-4),
        fog_height: s(120.0),
        ..default_sky()
    };
    let mut live = plain(0xC001, "Sky");
    live.streaming_source = Some(StreamingSource { radius_m: f(42.0) });
    live.always_loaded = Some(AlwaysLoaded {});
    live.time_of_day = Some(tod);
    live.sky_atmosphere = Some(authored);
    let back = through_v11(live.clone());
    assert_eq!(back.streaming_source, live.streaming_source);
    assert_eq!(back.always_loaded, live.always_loaded);
    assert_eq!(back.time_of_day, Some(tod), "v11 already had the clock");
    assert_eq!(back.name, live.name);

    let a = back.sky_atmosphere.unwrap();
    // The v11 nine survive verbatim …
    assert_eq!(a.sun_intensity, s(4.25));
    assert_eq!(a.night_darkening, s(0.35));
    // … and the physical-atmosphere block has no v11 home, so it comes back at
    // the live defaults — the one deliberately lossy direction.
    let d = default_sky();
    assert_eq!(a.physical, d.physical, "`physical: false` cannot be stored in v11");
    assert_eq!(a.turbidity, d.turbidity);
    assert_eq!(a.fog_density, d.fog_density);
    assert_eq!(a.fog_height, d.fog_height);

    // A record whose atmosphere is entirely default survives the hop exactly,
    // as does one with no atmosphere at all.
    let mut defaulted = plain(0xC002, "PlainSky");
    defaulted.sky_atmosphere = Some(default_sky());
    assert_eq!(through_v11(defaulted.clone()), defaulted);
    let prop = plain(0xC003, "Prop");
    assert_eq!(through_v11(prop.clone()), prop);
}

#[test]
fn v12_entity_downgrade_is_lossless_except_for_the_cloud_block() {
    let tod = TimeOfDay { seconds: f(1234.0), rate: f(60.0), ..default_clock() };
    let authored = SkyAtmosphere {
        // the v12 shape — must survive …
        sun_intensity: s(4.25),
        night_darkening: s(0.35),
        physical: false,
        turbidity: s(3.5),
        fog_density: s(6e-4),
        fog_height: s(120.0),
        // … and the v13 block — must not.
        clouds_enabled: true,
        cloud_coverage: s(0.9),
        cloud_seed: 7,
        cloud_wind_x: s(20.0),
        ..default_sky()
    };
    let mut live = plain(0xE001, "Sky");
    live.streaming_source = Some(StreamingSource { radius_m: f(42.0) });
    live.always_loaded = Some(AlwaysLoaded {});
    live.time_of_day = Some(tod);
    live.sky_atmosphere = Some(authored);
    let back = through_v12(live.clone());
    assert_eq!(back.streaming_source, live.streaming_source);
    assert_eq!(back.always_loaded, live.always_loaded);
    assert_eq!(back.time_of_day, Some(tod), "v12 already had the clock");
    assert_eq!(back.name, live.name);

    let a = back.sky_atmosphere.unwrap();
    // The v12 twenty-two survive verbatim …
    assert_eq!(a.sun_intensity, s(4.25));
    assert_eq!(a.night_darkening, s(0.35));
    assert!(!a.physical, "v12 could store `physical: false`");
    assert_eq!(a.turbidity, s(3.5));
    assert_eq!(a.fog_density, s(6e-4));
    assert_eq!(a.fog_height, s(120.0));
    // … and the volumetric-cloud block has no v12 home.
    let d = default_sky();
    assert_eq!(a.clouds_enabled, d.clouds_enabled, "clouds cannot be stored in v12");
    assert_eq!(a.cloud_coverage, d.cloud_coverage);
    assert_eq!(a.cloud_seed, d.cloud_seed);
    assert_eq!(a.cloud_wind_x, d.cloud_wind_x);

    let mut defaulted = plain(0xE002, "PlainSky");
    defaulted.sky_atmosphere = Some(default_sky());
    assert_eq!(through_v12(defaulted.clone()), defaulted);
    let prop = plain(0xE003, "Prop");
    assert_eq!(through_v12(prop.clone()), prop);
}

#[test]
fn the_weather_is_what_a_v13_record_loses() {
    let mut live = plain(1, "Sky");
    live.sky_atmosphere = Some(SkyAtmosphere {
        cloud_seed: 90_210,
        weather_enabled: true,
        weather_target: 4,
        weather_snowiness: s(1.0),
        ..default_sky()
    });
    let back = EntityRecordV13::from_current(live.clone()).into_current(&default_sky());
    let a = back.sky_atmosphere.unwrap();
    assert_eq!(a, SkyAtmosphere { cloud_seed: 90_210, ..default_sky() });
}

#[test]
fn v14_entity_downgrade_is_lossless_except_for_the_data_maps() {
    let mut live = plain(0xD100, "T");
    live.terrain = Some(full_terrain());
    let back = through_v14(live.clone());

    // Everything but the maps survives …
    let t = back.terrain.clone().unwrap();
    assert_eq!(t.tile_resolution, 4);
    assert_eq!(t.data.tiles.len(), 1);
    assert_eq!(t.data.tiles[0].base, live.terrain.as_ref().unwrap().data.tiles[0].base);
    // … and the maps are exactly what is lost, with the biomes that came later.
    assert_eq!(t.data.tiles[0].data_maps, blob(&[]));
    assert_eq!(t.data.tiles[0].biome_ids, blob(&[]));
    let mut restored = back;
    restored.terrain = Some(full_terrain());
    assert_eq!(restored, live, "nothing outside the terrain moved");
}

#[test]
fn v15_entity_downgrade_is_lossless_except_for_the_biome_ids() {
    let mut live = plain(0xE100, "T");
    live.terrain = Some(full_terrain());
    let back = through_v15(live.clone());

    // Everything but the biome layer survives — the erosion maps included …
    let t = back.terrain.clone().unwrap();
    assert_eq!(t.tile_resolution, 4);
    assert_eq!(t.data.tiles.len(), 1);
    assert_eq!(t.data.tiles[0].data_maps, blob(&[5, 2, 1]));
    assert_eq!(t.data.tiles[0].base, live.terrain.as_ref().unwrap().data.tiles[0].base);

    // … and the biome ids plus their vocabulary are exactly what is lost.
    assert_eq!(t.data.tiles[0].biome_ids, blob(&[]));
    assert_eq!(t.biome_set, None, "TerrainV15 has no biome_set field to carry");

    // Put the biome layer back and the records are equal.
    let mut restored = back;
    restored.terrain = Some(Terrain {
        data: full_terrain().data,
        biome_set: full_terrain().biome_set,
        biome_population: full_terrain().biome_population,
        ..t
    });
    assert_eq!(restored, live, "nothing outside the biome layer moved");
}

/// A record with everything that versions 16 to 19 brought.
fn watery(n: u128, name: &str) -> EntityRecord {
    let mut live = plain(n, name);
    live.terrain = Some(full_terrain());
    live.spline = Some(blob(&[1]));
    live.water_body = Some(blob(&[2]));
    live.buoyancy = Some(blob(&[3]));
    live.voxel_volume = Some(blob(&[4]));
    live
}

#[test]
fn v16_entity_downgrade_is_lossless_except_for_the_water_body() {
    let mut live = watery(0xF100, "Rill");
    live.buoyancy = None;
    live.voxel_volume = None;
    let back = EntityRecordV16::from_current(live.clone()).into_v17().into_v18().into_current();
    // The water is exactly what is lost …
    assert!(back.water_body.is_none());
    // … and nothing else moved: put it back and the records are equal.
    let mut restored = back;
    restored.water_body = live.water_body.clone();
    assert_eq!(restored, live, "the v16 downgrade lost something other than the water body");
}

#[test]
fn v17_entity_downgrade_is_lossless_except_for_the_buoyancy() {
    let mut live = watery(0xF400, "Raft");
    live.voxel_volume = None;
    let back = EntityRecordV17::from_current(live.clone()).into_v18().into_current();
    // The buoyancy is exactly what is lost — the water, which v17 *can*
    // express, is not …
    assert!(back.buoyancy.is_none());
    assert_eq!(back.water_body, live.water_body);
    let mut restored = back;
    restored.buoyancy = live.buoyancy.clone();
    assert_eq!(restored, live, "the v17 downgrade lost something other than the buoyancy");
}

#[test]
fn v18_entity_downgrade_is_lossless_except_for_the_voxel_volume() {
    let live = watery(0xF700, "Cavern");
    let back = EntityRecordV18::from_current(live.clone()).into_current();
    // The voxel volume is exactly what is lost …
    assert!(back.voxel_volume.is_none());
    assert_eq!(back.water_body, live.water_body);
    assert_eq!(back.buoyancy, live.buoyancy);
    let mut restored = back;
    restored.voxel_volume = live.voxel_volume.clone();
    assert_eq!(restored, live, "the v18 downgrade lost something other than the voxel volume");
}

#[test]
fn the_frozen_tile_generation_covers_this_schema() {
    assert_eq!(SCHEMA_VERSION, 19);
    let live = full_terrain();
    // Generation 1 can carry neither addition.
    let gen1 = TerrainV14::from_current(live.clone()).into_current();
    assert_eq!(gen1.data.tiles[0].data_maps, blob(&[]));
    assert_eq!(gen1.data.tiles[0].biome_ids, blob(&[]));
    assert_eq!(gen1.asset, live.asset);
    // Generation 2 carries the maps but still not the biome ids, and has no
    // `biome_set` field at all.
    let gen2 = TerrainV15::from_current(live.clone()).into_current();
    assert_eq!(gen2.data.tiles[0].data_maps, blob(&[5, 2, 1]));
    assert_eq!(gen2.data.tiles[0].biome_ids, blob(&[]));
    assert_eq!(gen2.biome_set, None);
    // The first terrain record had no asset either.
    assert_eq!(TerrainV8::from_current(live).into_current().asset, None);
    assert_eq!(default_macro_variation(), f(0.15));
}

#[test]
fn physical_atmosphere_defaults_are_the_documented_ones() {
    // Lifting a default-frozen record yields a default live one.
    let a = default_sky();
    let frozen = SkyAtmosphereV11::from_current(a);
    assert_eq!(frozen.into_v12().into_v13().into_current(&a), a);
    // The frozen record's own defaults are literals.
    let partial = SkyAtmosphereV11::default();
    assert!(partial.enabled);
    assert_eq!(partial.sun_intensity, s(3.0));
    assert_eq!(partial.sun_color, color(1.0, 0.98, 0.95, 1.0));
    assert_eq!(partial.moon_intensity, s(0.15));
    assert_eq!(partial.moon_color, color(0.62, 0.72, 1.0, 1.0));
    assert_eq!(partial.zenith, color(0.012, 0.021, 0.038, 1.0));
    assert_eq!(partial.horizon, color(0.055, 0.081, 0.120, 1.0));
    assert_eq!(partial.ground, color(0.009, 0.011, 0.015, 1.0));
    assert_eq!(partial.night_darkening, s(0.85));
    assert_eq!(partial, frozen, "v12 appended fields; it moved none");
}

#[test]
fn cloud_defaults_are_the_documented_ones() {
    let a = default_sky();
    let frozen = SkyAtmosphereV12::from_current(a);
    assert_eq!(frozen.into_v13().into_current(&a), a);
    let partial = SkyAtmosphereV12::default();
    assert!(partial.enabled);
    assert_eq!(partial.night_darkening, s(0.85));
    assert!(partial.physical);
    assert_eq!(partial.sky_intensity, s(1.0));
    assert_eq!(partial.turbidity, s(1.0));
    assert_eq!(partial.mie_anisotropy, s(0.8));
    assert_eq!(partial.sun_disc_deg, s(0.545));
    assert_eq!(partial.moon_disc_deg, s(0.52));
    assert_eq!(partial.star_intensity, s(1.0));
    assert_eq!(partial.tint_strength, s(0.0));
    assert_eq!(partial.aerial_perspective, s(1.0));
    assert_eq!(partial.fog_density, s(0.0));
    assert_eq!(partial.fog_falloff, s(0.002));
    assert_eq!(partial.fog_height, s(0.0));
    assert_eq!(partial.fog_color, color(1.0, 1.0, 1.0, 1.0));
    assert_eq!(partial, frozen, "v13 appended fields; it moved none");
}

#[test]
fn weather_defaults_are_the_documented_ones() {
    let a = default_sky();
    let frozen = SkyAtmosphereV13::from_current(a);
    assert_eq!(frozen.into_current(&a), a);
    let partial = SkyAtmosphereV13::default();
    assert!(partial.enabled);
    assert!(partial.physical);
    assert_eq!(partial.sun_intensity, s(3.0));
    assert_eq!(partial.night_darkening, s(0.85));
    assert_eq!(partial.fog_falloff, s(0.002));
    assert!(!partial.clouds_enabled);
    assert_eq!(partial.cloud_coverage, s(0.35));
    assert_eq!(partial.cloud_type, s(0.7));
    assert_eq!(partial.cloud_bottom, s(1500.0));
    assert_eq!(partial.cloud_top, s(4000.0));
    assert_eq!(partial.cloud_density, s(0.04));
    assert_eq!(partial.cloud_detail, s(0.6));
    assert_eq!(partial.cloud_seed, 0);
    assert_eq!(partial.cloud_wind_x, s(6.0));
    assert_eq!(partial.cloud_wind_z, s(2.0));
    assert_eq!(partial.cloud_phase_g, s(0.8));
    assert_eq!(partial.cloud_shadow, s(1.0));
    assert_eq!(partial.cloud_ambient, s(1.0));
    assert_eq!(partial.cloud_color, color(1.0, 1.0, 1.0, 1.0));
    assert_eq!(partial, frozen, "v14 appended fields; it moved none");
}

#[test]
fn partition_settings_mirror_matches_the_runtime_defaults() {
    let d = PartitionSettings::default();
    assert!(!d.enabled, "a level is unpartitioned until an author says so");
    assert_eq!(d.cell_size_m, f(256.0));
    assert_eq!(d.activation_radius_m, f(256.0));
    assert_eq!(d.prefetch_margin_m, f(256.0));
}

#[test]
fn settings_of_every_version() {
    let d = LevelSettings::default();
    assert_eq!(d.gravity_2d, Vec2d { x: f(0.0), y: f(0.0) });
    assert_eq!(d.gravity_3d, Vec3d { x: f(0.0), y: f(-9.81), z: f(0.0) });
    assert_eq!(d.sim_hz, f(60.0));
    let r = RenderSettingsRecord::default();
    assert_eq!((r.exposure, r.bloom_knee, r.bloom_intensity), (s(1.0), s(0.5), s(0.06)));
    assert_eq!((r.ssao_radius, r.ssao_bias, r.shadows_max_distance), (s(0.6), s(0.025), s(60.0)));
    assert!(r.dither && !r.bloom_enabled && !r.ssao_enabled && !r.taa && !r.gi_enabled);
    // The earlier layouts lift to the same defaults.
    assert_eq!(LevelSettingsV7::default().into_v9().into_current(), d);
    assert_eq!(LevelSettingsV9::default().into_current(), d);
    let mut authored = d;
    authored.sim_hz = f(90.0);
    authored.partition.enabled = true;
    let back = LevelSettingsV9::from_current(authored).into_current();
    assert_eq!(back, LevelSettings { partition: PartitionSettings::default(), ..authored });
}

#[test]
fn a_record_of_the_first_version_climbs_the_whole_ladder() {
    let g = Guid::from_u128(0x51);
    let old = EntityRecordV1 {
        guid: g,
        name: "Lamp".to_string(),
        parent: Some(Guid::from_u128(0x52)),
        transform: Transform::identity(),
        visible: false,
        mesh: Some(MeshRefV6 { primitive: 3 }),
        material: Some(MaterialV7::default()),
        light: Some(LightV7 { kind: 1, color: color(1.0, 0.5, 0.25, 1.0), intensity: s(2.0) }),
        camera: Some(blob(&[9])),
    };
    let now = old
        .into_v2()
        .into_v3()
        .into_v4()
        .into_v5()
        .into_v6()
        .into_v7()
        .into_v8()
        .into_v9()
        .into_v10()
        .into_v11()
        .into_v12()
        .into_v13()
        .into_current(&default_sky());
    assert_eq!((now.guid, now.name.as_str(), now.visible), (g, "Lamp", false));
    assert_eq!(now.parent, Some(Guid::from_u128(0x52)));
    let mesh = now.mesh.unwrap();
    assert_eq!((mesh.primitive, mesh.asset), (3, None));
    let m = now.material.unwrap();
    assert_eq!(m.base_color, color(0.8, 0.8, 0.8, 1.0));
    assert_eq!((m.blend, m.alpha_cutoff, m.roughness), (BlendMode::Opaque, s(0.5), s(0.5)));
    let l = now.light.unwrap();
    assert_eq!((l.range, l.inner_cone_deg, l.outer_cone_deg), (s(0.0), s(30.0), s(40.0)));
    assert!(l.cast_shadows);
    assert_eq!((l.kind, l.intensity), (1, s(2.0)));
    assert_eq!(now.camera, Some(blob(&[9])));
    assert!(now.sprite.is_none() && now.terrain.is_none() && now.voxel_volume.is_none());
}
