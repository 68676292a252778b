//! Levels of every earlier version, loaded with today's library.

use inf_editor_core::bits::{F32, F64};
use inf_editor_core::guid::Guid;
use inf_editor_core::scene::component::{
    AlwaysLoaded, BlendMode, Color, Component, Light, LightV7, Material, MaterialV7, MeshRef,
    StreamingSource, TimeOfDay, Transform, Vec2d, Vec3d,
};
use inf_editor_core::scene::decode::{decode, ScenePayload};
use inf_editor_core::scene::file::{
    SceneFile, SceneFileV10, SceneFileV11, SceneFileV12, SceneFileV13, SceneFileV14, SceneFileV15,
    SceneFileV16, SceneFileV17, SceneFileV18, SceneFileV5, SceneFileV7, SceneFileV8, SceneFileV9,
    SCHEMA_VERSION,
};
use inf_editor_core::scene::foliage::Foliage;
use inf_editor_core::scene::ladder_early::{
    EntityRecordV1, EntityRecordV5, EntityRecordV7, EntityRecordV8, EntityRecordV9,
};
use inf_editor_core::scene::ladder_late::{
    EntityRecordV10, EntityRecordV11, EntityRecordV12, EntityRecordV13, EntityRecordV14,
    EntityRecordV15, EntityRecordV16, EntityRecordV17, EntityRecordV18,
};
use inf_editor_core::scene::record::EntityRecord;
use inf_editor_core::scene::save::{load, to_scene_file};
use inf_editor_core::scene::settings::{
    LevelSettings, LevelSettingsV7, LevelSettingsV9, PartitionSettings, RenderSettingsRecord,
};
use inf_editor_core::scene::sky::{SkyAtmosphere, SkyAtmosphereV13};
use inf_editor_core::scene::terrain::{Terrain, TerrainData, TerrainTile, TerrainV14, TerrainV8};

fn f(x: f64) -> F64 {
    F64::from_bits(x.to_bits())
}

fn s(x: f32) -> F32 {
    F32::from_bits(x.to_bits())
}

fn g(n: u128) -> Guid {
    Guid::from_u128(n)
}

fn blob(bytes: &[u8]) -> Option<Component> {
    Some(Component { bytes: bytes.to_vec() })
}

fn header(n: u32) -> Vec<u8> {
    bincode::serde::encode_to_vec(n, bincode::config::standard()).unwrap()
}

fn white() -> Color {
    Color { r: s(1.0), g: s(1.0), b: s(1.0), a: s(1.0) }
}

fn lift(version: u32, payload: ScenePayload) -> SceneFile {
    let file = decode(&header(version), Ok(payload), &sky()).expect("decodes");
    assert_eq!(file.schema_version, SCHEMA_VERSION);
    file
}

/// Loading and saving a lifted level gives a level that saves the same again.
fn settles(file: SceneFile) {
    let doc = load(Ok(file)).ok().unwrap();
    let first = to_scene_file(&doc);
    assert_eq!(first.schema_version, SCHEMA_VERSION);
    let again = load(Ok(to_scene_file(&doc))).ok().unwrap();
    assert_eq!(to_scene_file(&again), first);
}

fn by_name<'a>(file: &'a SceneFile, name: &str) -> &'a EntityRecord {
    file.entities.iter().find(|r| r.name == name).unwrap()
}

fn tile(x: i32, maps: &[u8], biomes: &[u8]) -> TerrainTile {
    TerrainTile {
        coord: (x, 0),
        base: Component { bytes: vec![40, 100, 80, 35] },
        data_maps: Component { bytes: maps.to_vec() },
        biome_ids: Component { bytes: biomes.to_vec() },
    }
}

fn terrain(asset: Option<Guid>, maps: &[u8], biomes: &[u8], set: Option<Guid>) -> Terrain {
    Terrain {
        meters_per_sample: f(2.0),
        tile_resolution: 4,
        data: TerrainData {
            tile_resolution: 4,
            meters_per_sample: f(2.0),
            tiles: vec![tile(0, maps, biomes), tile(1, &[], &[])],
        },
        layers: Component { bytes: vec![] },
        macro_variation: f(0.25),
        asset,
        biome_set: set,
        biome_population: vec![],
    }
}

fn sky() -> SkyAtmosphere {
    let v = SkyAtmosphereV13::default();
    SkyAtmosphere {
        enabled: v.enabled,
        sun_intensity: v.sun_intensity,
        sun_color: v.sun_color,
        moon_intensity: v.moon_intensity,
        moon_color: v.moon_color,
        zenith: v.zenith,
        horizon: v.horizon,
        ground: v.ground,
        night_darkening: v.night_darkening,
        physical: v.physical,
        sky_intensity: v.sky_intensity,
        turbidity: v.turbidity,
        mie_anisotropy: v.mie_anisotropy,
        sun_disc_deg: v.sun_disc_deg,
        moon_disc_deg: v.moon_disc_deg,
        star_intensity: v.star_intensity,
        tint_strength: v.tint_strength,
        aerial_perspective: v.aerial_perspective,
        fog_density: v.fog_density,
        fog_falloff: v.fog_falloff,
        fog_height: v.fog_height,
        fog_color: v.fog_color,
        clouds_enabled: v.clouds_enabled,
        cloud_coverage: v.cloud_coverage,
        cloud_type: v.cloud_type,
        cloud_bottom: v.cloud_bottom,
        cloud_top: v.cloud_top,
        cloud_density: v.cloud_density,
        cloud_detail: v.cloud_detail,
        cloud_seed: v.cloud_seed,
        cloud_wind_x: v.cloud_wind_x,
        cloud_wind_z: v.cloud_wind_z,
        cloud_phase_g: v.cloud_phase_g,
        cloud_shadow: v.cloud_shadow,
        cloud_ambient: v.cloud_ambient,
        cloud_color: v.cloud_color,
        weather_enabled: false,
        weather_target: 0,
        weather_blend_seconds: s(8.0),
        weather_blend_remaining: s(0.0),
        weather_coverage: s(0.1),
        weather_cloud_type: s(0.5),
        weather_wind_x: s(3.0),
        weather_wind_z: s(1.0),
        weather_fog_density: s(0.0),
        weather_precipitation: s(0.0),
        weather_snowiness: s(0.0),
    }
}

fn first(n: u128, name: &str, parent: Option<Guid>) -> EntityRecordV1 {
    EntityRecordV1 {
        guid: g(n),
        name: name.to_string(),
        parent,
        transform: Transform::identity(),
        visible: true,
        mesh: None,
        material: None,
        light: None,
        camera: None,
    }
}

/// Two instances over a palette.
fn scatter() -> Foliage {
    let part = |b: u8| Component { bytes: vec![b] };
    Foliage { palette: part(9), instances: vec![part(1), part(2)] }
}

fn fifth(n: u128, name: &str) -> EntityRecordV5 {
    first(n, name, None).into_v2().into_v3().into_v4().into_v5()
}

fn seventh(n: u128, name: &str, parent: Option<Guid>) -> EntityRecordV7 {
    first(n, name, parent).into_v2().into_v3().into_v4().into_v5().into_v6().into_v7()
}

fn eighth(n: u128, name: &str) -> EntityRecordV8 {
    seventh(n, name, None).into_v8()
}

fn ninth(n: u128, name: &str) -> EntityRecordV9 {
    eighth(n, name).into_v9()
}

fn current(n: u128, name: &str) -> EntityRecord {
    EntityRecord::named(g(n), name.to_string(), None, Transform::identity())
}

fn light(kind: u32, range: f32, intensity: f32) -> Light {
    Light {
        kind,
        color: white(),
        intensity: s(intensity),
        range: s(range),
        inner_cone_deg: s(30.0),
        outer_cone_deg: s(40.0),
        cast_shadows: true,
    }
}

fn settings(partition: PartitionSettings) -> LevelSettings {
    LevelSettings {
        gravity_2d: Vec2d { x: f(0.0), y: f(-18.0) },
        gravity_3d: Vec3d { x: f(0.0), y: f(-9.81), z: f(0.0) },
        sim_hz: f(90.0),
        render: RenderSettingsRecord { exposure: s(1.1), ..RenderSettingsRecord::default() },
        partition,
    }
}

fn partition() -> PartitionSettings {
    PartitionSettings {
        enabled: true,
        cell_size_m: f(128.0),
        activation_radius_m: f(200.0),
        prefetch_margin_m: f(300.0),
    }
}

/// A player, a manager and a sky.
fn sky_level(base: u128, asset: u128, atmos: SkyAtmosphere) -> Vec<EntityRecord> {
    let mut player = current(base + 1, "Player");
    player.mesh = Some(MeshRef { primitive: 0, asset: Some(g(asset)) });
    player.streaming_source = Some(StreamingSource { radius_m: f(300.0) });
    let mut manager = current(base + 2, "GameMode");
    manager.always_loaded = Some(AlwaysLoaded {});
    let mut sky = current(base + 3, "Sky");
    sky.light = Some(light(0, 0.0, 2.0));
    sky.time_of_day = Some(TimeOfDay {
        seconds: f(3_600.0),
        day_of_year: 355,
        latitude_deg: f(-33.9),
        longitude_deg: f(151.2),
        rate: f(120.0),
    });
    sky.sky_atmosphere = Some(atmos);
    vec![player, manager, sky]
}

/// A cube, a terrain and a sun.
fn ground_level(base: u128, asset: u128, ground: Terrain) -> Vec<EntityRecord> {
    let mut cube = current(base + 1, "Cube");
    cube.mesh = Some(MeshRef { primitive: 0, asset: Some(g(asset)) });
    let mut land = current(base + 2, "Terrain");
    land.terrain = Some(ground);
    let mut sun = current(base + 3, "Sun");
    sun.light = Some(light(0, 0.0, 2.0));
    vec![cube, land, sun]
}

#[test]
fn v5_fixture_loads_forever_and_lifts_to_v6() {
    let mut character = fifth(0x5002, "Character");
    character.skeletal_mesh = blob(&[1]);
    character.root_motion = blob(&[2]);
    character.actor = Some(g(0x5ACC));
    let file = lift(
        5,
        ScenePayload::V5(SceneFileV5 {
            schema_version: 5,
            title: "V5 Fixture Level".to_string(),
            entities: vec![fifth(0x5001, "Ground"), character],
            settings: LevelSettingsV7::default(),
        }),
    );
    assert_eq!(file.title, "V5 Fixture Level");
    assert_eq!(file.entities.len(), 2);
    assert!(by_name(&file, "Character").skeletal_mesh.is_some());
    assert!(by_name(&file, "Character").root_motion.is_some());
    assert!(by_name(&file, "Character").actor.is_some());
    for r in &file.entities {
        assert!(r.joint_2d.is_none());
        assert!(r.joint_3d.is_none());
        assert!(r.audio_source.is_none());
        assert!(r.audio_listener.is_none());
    }
}

#[test]
fn v7_fixture_loads_forever_and_lifts_to_v8() {
    let mut ground = seventh(0x7001, "Ground", None);
    ground.transform.scale = Vec3d { x: f(20.0), y: f(1.0), z: f(20.0) };
    ground.mesh = Some(MeshRef { primitive: 2, asset: None });
    ground.material = Some(MaterialV7 {
        base_color: Color { r: s(0.3), g: s(0.32), b: s(0.35), a: s(1.0) },
        ..MaterialV7::default()
    });
    let mut cube = seventh(0x7002, "Cube", None);
    cube.material = Some(MaterialV7::default());
    let mut cone = seventh(0x7005, "Cone", Some(g(0x7002)));
    cone.joint_3d = blob(&[7]);
    let lamp = |n: u128, name: &str, kind: u32, intensity: f32| {
        let mut r = seventh(n, name, None);
        r.light = Some(LightV7 { kind, color: white(), intensity: s(intensity) });
        r
    };
    let file = lift(
        7,
        ScenePayload::V7(SceneFileV7 {
            schema_version: 7,
            title: "V7 Fixture Level".to_string(),
            entities: vec![
                ground,
                cube,
                seventh(0x7003, "Sphere", None),
                seventh(0x7004, "Cylinder", None),
                cone,
                lamp(0x7006, "Sun", 0, 1.0),
                lamp(0x7007, "Lamp", 1, 2.0),
                lamp(0x7008, "Spot", 2, 3.0),
            ],
            settings: LevelSettingsV7 {
                gravity_2d: Vec2d { x: f(0.0), y: f(-20.0) },
                gravity_3d: Vec3d { x: f(0.0), y: f(-9.81), z: f(0.0) },
                sim_hz: f(120.0),
            },
        }),
    );
    assert_eq!(file.title, "V7 Fixture Level");
    assert_eq!(file.entities.len(), 8);
    assert!(by_name(&file, "Ground").material.is_some());
    assert!(by_name(&file, "Cone").joint_3d.is_some());
    assert_eq!(by_name(&file, "Cone").parent, Some(g(0x7002)));
    let m = by_name(&file, "Ground").material.unwrap();
    assert_eq!(m.blend, BlendMode::Opaque);
    assert_eq!(m.alpha_cutoff, s(0.5));
    for name in ["Sun", "Lamp", "Spot"] {
        let l = by_name(&file, name).light.unwrap();
        assert_eq!(l.range, s(0.0));
        assert_eq!(l.inner_cone_deg, s(30.0));
        assert_eq!(l.outer_cone_deg, s(40.0));
        assert!(l.cast_shadows);
    }
    for r in &file.entities {
        assert!(r.decal.is_none());
        assert!(r.volume.is_none());
        assert!(r.spline.is_none());
        assert!(r.foliage.is_none());
    }
    assert_eq!(file.settings.gravity_2d, Vec2d { x: f(0.0), y: f(-20.0) });
    assert_eq!(file.settings.sim_hz, f(120.0));
    assert_eq!(file.settings.render, RenderSettingsRecord::default());
}

#[test]
fn v8_fixture_loads_forever_and_lifts_to_v9() {
    let mut ground = eighth(0x8001, "Ground");
    ground.material = Some(Material {
        base_color: Color { r: s(0.3), g: s(0.32), b: s(0.35), a: s(1.0) },
        metallic: s(0.0),
        roughness: s(0.5),
        emissive: Color { r: s(0.0), g: s(0.0), b: s(0.0), a: s(1.0) },
        blend: BlendMode::Other(1),
        alpha_cutoff: s(0.25),
        asset: None,
    });
    let mut cube = eighth(0x8002, "Cube");
    cube.mesh = Some(MeshRef { primitive: 0, asset: Some(g(0x80A1)) });
    cube.foliage = Some(scatter());
    let mut spot = eighth(0x8003, "Spot");
    spot.light = Some(light(2, 25.0, 4.0));
    let mut land = eighth(0x8004, "Terrain");
    land.terrain = Some(TerrainV8::from_current(terrain(None, &[], &[], None)));
    let file = lift(
        8,
        ScenePayload::V8(SceneFileV8 {
            schema_version: 8,
            title: "V8 Fixture Level".to_string(),
            entities: vec![ground, cube, spot, land],
            settings: LevelSettingsV9 {
                render: RenderSettingsRecord { exposure: s(1.4), ..RenderSettingsRecord::default() },
                ..LevelSettingsV9::default()
            },
        }),
    );
    assert_eq!(file.title, "V8 Fixture Level");
    assert_eq!(file.entities.len(), 4);
    let land = by_name(&file, "Terrain").terrain.as_ref().expect("terrain slot");
    assert_eq!(land, &terrain(None, &[], &[], None), "v8 terrain decodes unchanged");
    assert_eq!(land.data.tiles.len(), 2);
    assert_eq!(land.macro_variation, f(0.25));
    assert_eq!(land.data.tiles[0].base.bytes, vec![40, 100, 80, 35]);
    assert_eq!(land.asset, None);
    assert_eq!(by_name(&file, "Ground").material.unwrap().blend, BlendMode::Other(1));
    assert_eq!(by_name(&file, "Spot").light.unwrap().range, s(25.0));
    assert_eq!(by_name(&file, "Cube").foliage, Some(scatter()));
    assert_eq!(file.settings.render.exposure, s(1.4));
    settles(file);
}

#[test]
fn v9_fixture_loads_forever_and_lifts_to_v10() {
    let mut cube = ninth(0x9001, "Cube");
    cube.mesh = Some(MeshRef { primitive: 0, asset: Some(g(0x90A1)) });
    let mut land = ninth(0x9002, "Terrain");
    land.terrain = Some(TerrainV14::from_current(terrain(Some(g(0x9_00AA)), &[], &[], None)));
    let mut sun = ninth(0x9003, "Sun");
    sun.light = Some(light(0, 0.0, 2.0));
    let file = lift(
        9,
        ScenePayload::V9(SceneFileV9 {
            schema_version: 9,
            title: "V9 Fixture Level".to_string(),
            entities: vec![cube, land, sun],
            settings: LevelSettingsV9 {
                gravity_2d: Vec2d { x: f(0.0), y: f(-18.0) },
                gravity_3d: Vec3d { x: f(0.0), y: f(-9.81), z: f(0.0) },
                sim_hz: f(90.0),
                render: RenderSettingsRecord { exposure: s(1.1), ..RenderSettingsRecord::default() },
            },
        }),
    );
    assert_eq!(file.title, "V9 Fixture Level");
    assert_eq!(file.entities.len(), 3);
    let land = by_name(&file, "Terrain").terrain.as_ref().expect("terrain slot");
    assert_eq!(land.asset, Some(g(0x9_00AA)));
    assert_eq!(land.data.tiles.len(), 2);
    assert_eq!(by_name(&file, "Cube").mesh.unwrap().asset, Some(g(0x90A1)));
    assert_eq!(file.settings.sim_hz, f(90.0));
    assert_eq!(file.settings.render.exposure, s(1.1));
    for e in &file.entities {
        assert!(e.streaming_source.is_none());
        assert!(e.always_loaded.is_none());
    }
    assert_eq!(file.settings.partition, PartitionSettings::default());
    assert!(!file.settings.partition.enabled);
    settles(file);
}

#[test]
fn v10_fixture_loads_forever_and_lifts_to_v11() {
    let entities = sky_level(0xA000, 0xA0A1, sky());
    let file = lift(
        10,
        ScenePayload::V10(SceneFileV10 {
            schema_version: 10,
            title: "V10 Fixture Level".to_string(),
            entities: entities.into_iter().map(EntityRecordV10::from_current).collect(),
            settings: settings(partition()),
        }),
    );
    assert_eq!(file.title, "V10 Fixture Level");
    assert_eq!(file.entities.len(), 3);
    assert_eq!(by_name(&file, "Player").streaming_source.unwrap().radius_m, f(300.0));
    assert!(by_name(&file, "GameMode").always_loaded.is_some());
    assert_eq!(by_name(&file, "Player").mesh.unwrap().asset, Some(g(0xA0A1)));
    assert_eq!(file.settings.sim_hz, f(90.0));
    assert!(file.settings.partition.enabled);
    assert_eq!(file.settings.partition.cell_size_m, f(128.0));
    for e in &file.entities {
        assert!(e.time_of_day.is_none());
        assert!(e.sky_atmosphere.is_none());
    }
    settles(file);
}

/// What every version with a sky keeps of the level.
fn check_sky_level(file: &SceneFile, title: &str) -> SkyAtmosphere {
    assert_eq!(file.title, title);
    assert_eq!(file.entities.len(), 3);
    assert_eq!(by_name(file, "Player").streaming_source.unwrap().radius_m, f(300.0));
    assert!(by_name(file, "GameMode").always_loaded.is_some());
    assert_eq!(by_name(file, "Sky").time_of_day.unwrap().rate, f(120.0));
    assert_eq!(file.settings.sim_hz, f(90.0));
    assert!(file.settings.partition.enabled);
    by_name(file, "Sky").sky_atmosphere.expect("sky carries an atmosphere")
}

/// An atmosphere in which every block was tuned.
fn tuned() -> SkyAtmosphere {
    SkyAtmosphere {
        sun_intensity: s(4.25),
        night_darkening: s(0.35),
        turbidity: s(2.5),
        fog_density: s(6e-4),
        clouds_enabled: true,
        cloud_coverage: s(0.62),
        cloud_seed: 90_210,
        weather_enabled: true,
        weather_target: 4,
        weather_precipitation: s(0.65),
        ..sky()
    }
}

#[test]
fn v11_loads_and_lifts_the_atmosphere() {
    let entities = sky_level(0xB000, 0xB0A1, tuned());
    let file = lift(
        11,
        ScenePayload::V11(SceneFileV11 {
            schema_version: 11,
            title: "V11 Fixture Level".to_string(),
            entities: entities.into_iter().map(EntityRecordV11::from_current).collect(),
            settings: settings(partition()),
        }),
    );
    let a = check_sky_level(&file, "V11 Fixture Level");
    // What the version knew stays; everything after it is the default.
    let d = sky();
    assert_eq!(a, SkyAtmosphere { sun_intensity: s(4.25), night_darkening: s(0.35), ..d });
    assert_eq!(a.tint_strength, s(0.0), "a v11 level is not tinted back toward itself");
    assert_eq!(a.fog_density, s(0.0), "a v11 level had no height fog");
    settles(file);
}

#[test]
fn v12_loads_and_lifts_the_clouds() {
    let entities = sky_level(0xB000, 0xB0A1, tuned());
    let file = lift(
        12,
        ScenePayload::V12(SceneFileV12 {
            schema_version: 12,
            title: "V12 Fixture Level".to_string(),
            entities: entities.into_iter().map(EntityRecordV12::from_current).collect(),
            settings: settings(partition()),
        }),
    );
    let a = check_sky_level(&file, "V12 Fixture Level");
    assert_eq!(a.sun_intensity, s(4.25));
    assert_eq!(a.night_darkening, s(0.35));
    assert_eq!(a.turbidity, s(2.5));
    assert_eq!(a.fog_density, s(6e-4));
    let kept = SkyAtmosphere {
        sun_intensity: s(4.25),
        night_darkening: s(0.35),
        turbidity: s(2.5),
        fog_density: s(6e-4),
        ..sky()
    };
    assert_eq!(a, kept);
    assert!(!a.clouds_enabled, "a v12 level had no clouds");
    settles(file);
}

#[test]
fn v13_loads_and_lifts_the_weather() {
    let entities = sky_level(0xC000, 0xC0A1, tuned());
    let file = lift(
        13,
        ScenePayload::V13(SceneFileV13 {
            schema_version: 13,
            title: "V13 Fixture Level".to_string(),
            entities: entities.into_iter().map(EntityRecordV13::from_current).collect(),
            settings: settings(partition()),
        }),
    );
    let a = check_sky_level(&file, "V13 Fixture Level");
    assert_eq!(a.sun_intensity, s(4.25));
    assert_eq!(a.turbidity, s(2.5));
    assert!(a.clouds_enabled, "v13 could author clouds");
    assert_eq!(a.cloud_seed, 90_210);
    let d = sky();
    assert!(!a.weather_enabled, "a v13 level had no weather block");
    assert_eq!(a.weather_target, d.weather_target);
    assert_eq!(a.weather_blend_seconds, d.weather_blend_seconds);
    assert_eq!(a.weather_blend_remaining, s(0.0));
    assert_eq!(a.weather_coverage, d.weather_coverage);
    assert_eq!(a.weather_precipitation, s(0.0));
    assert_eq!(a.weather_snowiness, s(0.0));
}

/// What every version with such a level keeps of it.
fn check_ground_level(file: &SceneFile, title: &str, count: usize, asset: u128) -> Terrain {
    assert_eq!(file.title, title);
    assert_eq!(file.entities.len(), count);
    assert_eq!(by_name(file, "Cube").mesh.unwrap().asset, Some(g(asset)));
    assert_eq!(by_name(file, "Sun").light.unwrap().intensity, s(2.0));
    assert_eq!(file.settings.sim_hz, f(90.0));
    by_name(file, "Terrain").terrain.clone().expect("terrain slot")
}

#[test]
fn v14_loads_and_lifts_the_data_maps() {
    let land = terrain(Some(g(0xD_00AA)), &[75, 5, 22], &[3], Some(g(0xF_00BB)));
    let entities = ground_level(0xD000, 0xD0A1, land);
    let file = lift(
        14,
        ScenePayload::V14(SceneFileV14 {
            schema_version: 14,
            title: "V14 Fixture Level".to_string(),
            entities: entities.into_iter().map(EntityRecordV14::from_current).collect(),
            settings: settings(PartitionSettings::default()),
        }),
    );
    let t = check_ground_level(&file, "V14 Fixture Level", 3, 0xD0A1);
    assert_eq!(t.tile_resolution, 4);
    assert_eq!(t.meters_per_sample, f(2.0));
    assert_eq!(t.macro_variation, f(0.25));
    assert_eq!(t.asset, Some(g(0xD_00AA)));
    assert_eq!(t.data.tiles.len(), 2);
    assert_eq!(t.data.tiles[0].base.bytes, vec![40, 100, 80, 35]);
    for tile in &t.data.tiles {
        assert!(tile.data_maps.bytes.is_empty(), "a v14 level had no data maps");
    }
}

#[test]
fn v15_loads_and_lifts_the_biomes() {
    let land = terrain(Some(g(0xE_00AA)), &[75, 5, 22], &[3], Some(g(0xF_00BB)));
    let entities = ground_level(0xE000, 0xE0A1, land);
    let file = lift(
        15,
        ScenePayload::V15(SceneFileV15 {
            schema_version: 15,
            title: "V15 Fixture Level".to_string(),
            entities: entities.into_iter().map(EntityRecordV15::from_current).collect(),
            settings: settings(PartitionSettings::default()),
        }),
    );
    let t = check_ground_level(&file, "V15 Fixture Level", 3, 0xE0A1);
    assert_eq!(t.asset, Some(g(0xE_00AA)));
    assert_eq!(t.data.tiles.len(), 2);
    assert_eq!(t.data.tiles[0].base.bytes, vec![40, 100, 80, 35]);
    assert_eq!(t.data.tiles[0].data_maps.bytes, vec![75, 5, 22]);
    for tile in &t.data.tiles {
        assert!(tile.biome_ids.bytes.is_empty(), "a v15 level had no biome ids");
    }
    assert_eq!(t.biome_set, None);
}

/// The ground that knows biomes.
fn painted() -> Terrain {
    terrain(None, &[75, 5, 22], &[3], Some(g(0xF_00BB)))
}

fn river(n: u128) -> EntityRecord {
    let mut r = current(n, "River");
    r.spline = blob(&[3]);
    r.water_body = blob(&[1, 7]);
    r
}

fn check_painted(t: &Terrain) {
    assert_eq!(t.biome_set, Some(g(0xF_00BB)));
    assert_eq!(t.data.tiles[0].biome_ids.bytes, vec![3]);
    assert_eq!(t.data.tiles[0].data_maps.bytes, vec![75, 5, 22]);
}

#[test]
fn v16_loads_and_lifts_without_water() {
    let mut entities = ground_level(0xF000, 0xF0A1, painted());
    entities[0].water_body = blob(&[1, 7]);
    let file = lift(
        16,
        ScenePayload::V16(SceneFileV16 {
            schema_version: 16,
            title: "V16 Fixture Level".to_string(),
            entities: entities.into_iter().map(EntityRecordV16::from_current).collect(),
            settings: settings(PartitionSettings::default()),
        }),
    );
    check_painted(&check_ground_level(&file, "V16 Fixture Level", 3, 0xF0A1));
    for r in &file.entities {
        assert!(r.water_body.is_none(), "a v16 level has no water");
    }
}

#[test]
fn v17_loads_and_lifts_without_buoyancy() {
    let mut entities = ground_level(0xF100, 0xF1A1, painted());
    entities.push(river(0xF104));
    entities[0].buoyancy = blob(&[9]);
    let file = lift(
        17,
        ScenePayload::V17(SceneFileV17 {
            schema_version: 17,
            title: "V17 Fixture Level".to_string(),
            entities: entities.into_iter().map(EntityRecordV17::from_current).collect(),
            settings: settings(PartitionSettings::default()),
        }),
    );
    check_painted(&check_ground_level(&file, "V17 Fixture Level", 4, 0xF1A1));
    assert_eq!(by_name(&file, "River").water_body, blob(&[1, 7]));
    assert_eq!(by_name(&file, "River").spline, blob(&[3]));
    for r in &file.entities {
        assert!(r.buoyancy.is_none(), "a v17 level floats nothing");
    }
}

#[test]
fn v18_loads_and_lifts_without_a_voxel_volume() {
    let mut entities = ground_level(0xF200, 0xF2A1, painted());
    entities.push(river(0xF204));
    let mut raft = current(0xF205, "Raft");
    raft.rigid_body_3d = blob(&[2]);
    raft.buoyancy = blob(&[4, 5]);
    raft.voxel_volume = blob(&[6]);
    entities.push(raft);
    let file = lift(
        18,
        ScenePayload::V18(SceneFileV18 {
            schema_version: 18,
            title: "V18 Fixture Level".to_string(),
            entities: entities.into_iter().map(EntityRecordV18::from_current).collect(),
            settings: settings(PartitionSettings::default()),
        }),
    );
    check_painted(&check_ground_level(&file, "V18 Fixture Level", 5, 0xF2A1));
    assert_eq!(by_name(&file, "River").water_body, blob(&[1, 7]));
    assert_eq!(by_name(&file, "Raft").buoyancy, blob(&[4, 5]));
    assert!(by_name(&file, "Raft").rigid_body_3d.is_some());
    for r in &file.entities {
        assert!(r.voxel_volume.is_none(), "a v18 level has no volumetric ground");
    }
}
