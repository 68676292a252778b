//! What survives a save and a load, component by component.

use inf_editor_core::bits::{F32, F64};
use inf_editor_core::guid::Guid;
use inf_editor_core::scene::component::{
    AlwaysLoaded, BlendMode, Color, Component, Light, LightV7, Material, MaterialV7, MeshRefV6,
    StreamingSource, TimeOfDay, Transform, Vec2d, Vec3d,
};
use inf_editor_core::scene::decode::{decode, ScenePayload};
use inf_editor_core::scene::doc::SceneDoc;
use inf_editor_core::scene::file::{
    SceneFile, SceneFileV1, SceneFileV2, SceneFileV3, SceneFileV4, SCHEMA_VERSION,
};
use inf_editor_core::scene::foliage::Foliage;
use inf_editor_core::scene::ladder_early::{
    EntityRecordV1, EntityRecordV2, EntityRecordV3, EntityRecordV4,
};
use inf_editor_core::scene::record::EntityRecord;
use inf_editor_core::scene::save::{load, record_of, to_scene_file, to_scene_file_for, ScenePersist};
use inf_editor_core::scene::settings::{
    LevelSettings, LevelSettingsV7, PartitionSettings, RenderSettingsRecord,
};
use inf_editor_core::scene::sky::{SkyAtmosphere, SkyAtmosphereV13};
use inf_editor_core::scene::terrain::{Terrain, TerrainData, TerrainTile};
use inf_editor_core::scene::tilemap::Tilemap;

fn f(x: f64) -> F64 {
    F64::from_bits(x.to_bits())
}

fn s(x: f32) -> F32 {
    F32::from_bits(x.to_bits())
}

fn g(n: u128) -> Guid {
    Guid::from_u128(n)
}

fn blob(bytes: &[u8]) -> Option<Component> {
    Some(Component { bytes: bytes.to_vec() })
}

/// Three instances over a palette.
fn scatter() -> Foliage {
    let part = |b: u8| Component { bytes: vec![b] };
    Foliage { palette: part(9), instances: vec![part(1), part(2), part(3)] }
}

fn named(n: u128, name: &str) -> EntityRecord {
    EntityRecord::named(g(n), name.to_string(), None, Transform::identity())
}

fn at(x: f64, y: f64, z: f64) -> Transform {
    let mut t = Transform::identity();
    t.translation = Vec3d { x: f(x), y: f(y), z: f(z) };
    t
}

fn doc_of(records: Vec<EntityRecord>) -> SceneDoc {
    let mut doc = SceneDoc::new();
    for r in records {
        assert!(doc.edit_create(r));
    }
    doc
}

fn header(n: u32) -> Vec<u8> {
    bincode::serde::encode_to_vec(n, bincode::config::standard()).unwrap()
}

fn sky() -> SkyAtmosphere {
    let v = SkyAtmosphereV13::default();
    SkyAtmosphere {
        enabled: v.enabled,
        sun_intensity: v.sun_intensity,
        sun_color: v.sun_color,
        moon_intensity: v.moon_intensity,
        moon_color: v.moon_color,
        zenith: v.zenith,
        horizon: v.horizon,
        ground: v.ground,
        night_darkening: v.night_darkening,
        physical: v.physical,
        sky_intensity: v.sky_intensity,
        turbidity: v.turbidity,
        mie_anisotropy: v.mie_anisotropy,
        sun_disc_deg: v.sun_disc_deg,
        moon_disc_deg: v.moon_disc_deg,
        star_intensity: v.star_intensity,
        tint_strength: v.tint_strength,
        aerial_perspective: v.aerial_perspective,
        fog_density: v.fog_density,
        fog_falloff: v.fog_falloff,
        fog_height: v.fog_height,
        fog_color: v.fog_color,
        clouds_enabled: v.clouds_enabled,
        cloud_coverage: v.cloud_coverage,
        cloud_type: v.cloud_type,
        cloud_bottom: v.cloud_bottom,
        cloud_top: v.cloud_top,
        cloud_density: v.cloud_density,
        cloud_detail: v.cloud_detail,
        cloud_seed: v.cloud_seed,
        cloud_wind_x: v.cloud_wind_x,
        cloud_wind_z: v.cloud_wind_z,
        cloud_phase_g: v.cloud_phase_g,
        cloud_shadow: v.cloud_shadow,
        cloud_ambient: v.cloud_ambient,
        cloud_color: v.cloud_color,
        weather_enabled: false,
        weather_target: 0,
        weather_blend_seconds: s(8.0),
        weather_blend_remaining: s(0.0),
        weather_coverage: s(0.1),
        weather_cloud_type: s(0.5),
        weather_wind_x: s(3.0),
        weather_wind_z: s(1.0),
        weather_fog_density: s(0.0),
        weather_precipitation: s(0.0),
        weather_snowiness: s(0.0),
    }
}

fn clock() -> TimeOfDay {
    TimeOfDay {
        seconds: f(36_000.0),
        day_of_year: 172,
        latitude_deg: f(48.9),
        longitude_deg: f(0.0),
        rate: f(0.0),
    }
}

/// Save, decode, load, and check that the document saves the same again.
fn round_trip(doc: &SceneDoc) -> SceneDoc {
    let file = to_scene_file(doc);
    assert_eq!(file.schema_version, SCHEMA_VERSION, "written at the current schema");
    let read = decode(
        &header(SCHEMA_VERSION),
        Ok(ScenePayload::Current(to_scene_file(doc))),
        &sky(),
    );
    let loaded = load(read).ok().unwrap();
    assert_eq!(to_scene_file(&loaded), file, "save→load→save must be identical");
    loaded
}

fn by_name<'a>(file: &'a SceneFile, name: &str) -> &'a EntityRecord {
    file.entities.iter().find(|r| r.name == name).unwrap()
}

fn fixture_terrain() -> Terrain {
    let tile = |x: i32, maps: &[u8], biomes: &[u8]| TerrainTile {
        coord: (x, 0),
        base: Component { bytes: vec![40, 100, 80, 35] },
        data_maps: Component { bytes: maps.to_vec() },
        biome_ids: Component { bytes: biomes.to_vec() },
    };
    Terrain {
        meters_per_sample: f(2.0),
        tile_resolution: 4,
        data: TerrainData {
            tile_resolution: 4,
            meters_per_sample: f(2.0),
            tiles: vec![tile(0, &[5, 2, 1], &[9]), tile(1, &[], &[])],
        },
        layers: Component { bytes: vec![] },
        macro_variation: f(0.4),
        asset: None,
        biome_set: None,
        biome_population: vec![],
    }
}

#[test]
fn round_trip_is_byte_identical() {
    let mut cone = named(5, "Cone");
    cone.transform = at(1.0, 2.0, 3.0);
    let loaded = round_trip(&doc_of(vec![named(1, "Ground"), named(2, "Cube"), cone]));
    assert_eq!(record_of(&loaded, g(5)).unwrap().transform, at(1.0, 2.0, 3.0));
}

#[test]
fn round_trip_with_2d_components_is_byte_identical() {
    let mut sprite = named(2, "Sprite");
    sprite.sprite = blob(&[0xAB, 0xCD]);
    let mut map = named(3, "Tilemap");
    let mut tm = Tilemap {
        texture: None,
        tile_size: Vec2d { x: f(1.0), y: f(1.0) },
        atlas_cols: 4,
        atlas_rows: 4,
        chunk_dim: 32,
        chunks: vec![],
        style: Component { bytes: vec![] },
    };
    // Two occupied chunks → the multi-chunk requirement.
    tm.set_tile(1, 1, 5);
    tm.set_tile(2, 3, 9);
    tm.set_tile(100, -50, 8);
    map.tilemap = Some(tm);
    let mut panel = named(4, "Panel");
    panel.nine_slice = blob(&[6, 4]);
    let mut label = named(5, "Label");
    label.text2d = blob(b"Hello\nInfinity");
    let mut lamp = named(6, "Light2D");
    lamp.light_2d = blob(&[8]);
    let mut doc = doc_of(vec![named(1, "Cube"), sprite, map, panel, label, lamp]);
    doc.set_title("2D Level");

    let file = to_scene_file(&round_trip(&doc));
    assert_eq!(by_name(&file, "Sprite").sprite, blob(&[0xAB, 0xCD]));
    let tm = by_name(&file, "Tilemap").tilemap.as_ref().unwrap();
    assert_eq!(tm.tile(1, 1), 5);
    assert_eq!(tm.tile(2, 3), 9);
    assert_eq!(tm.tile(100, -50), 8);
    assert_eq!(tm.chunks.len(), 2, "multi-chunk content survives the round trip");
    assert!(by_name(&file, "Panel").nine_slice.is_some());
    assert_eq!(by_name(&file, "Label").text2d, blob(b"Hello\nInfinity"));
    assert_eq!(by_name(&file, "Light2D").light_2d, blob(&[8]));
    // The 3D cube carries none of the 2D slots.
    assert!(by_name(&file, "Cube").sprite.is_none());
    assert!(by_name(&file, "Cube").tilemap.is_none());
}

#[test]
fn round_trip_with_v3_physics_and_actor_is_byte_identical() {
    let actor = g(0xAC70_0001);
    let mut ground = named(1, "Ground");
    ground.rigid_body_2d = blob(&[0]);
    ground.collider_2d = blob(&[3]);
    let mut player = named(2, "Player");
    player.rigid_body_2d = blob(&[2, 1]);
    player.collider_2d = blob(&[1, 3]);
    player.character_controller_2d = blob(&[]);
    player.actor = Some(actor);
    let mut doc = doc_of(vec![ground, player]);
    doc.set_title("Physics Level");
    doc.edit_settings(LevelSettings {
        gravity_2d: Vec2d { x: f(0.0), y: f(-20.0) },
        gravity_3d: Vec3d { x: f(0.0), y: f(-9.81), z: f(0.0) },
        sim_hz: f(120.0),
        render: RenderSettingsRecord::default(),
        partition: PartitionSettings::default(),
    });
    let loaded = round_trip(&doc);
    let player = record_of(&loaded, g(2)).unwrap();
    assert_eq!(player.rigid_body_2d, blob(&[2, 1]));
    assert_eq!(player.collider_2d, blob(&[1, 3]));
    assert!(player.character_controller_2d.is_some());
    assert_eq!(player.actor, Some(actor));
    assert_eq!(loaded.settings.gravity_2d, Vec2d { x: f(0.0), y: f(-20.0) });
    assert_eq!(loaded.settings.sim_hz, f(120.0));
}

#[test]
fn terrain_persists_across_save_load_v4() {
    let mut rec = named(1, "Terrain");
    rec.terrain = Some(fixture_terrain());
    let loaded = round_trip(&doc_of(vec![rec]));
    let t = record_of(&loaded, g(1)).unwrap().terrain.expect("terrain persists");
    assert_eq!(t.data.tiles.len(), 2);
    assert_eq!(t.data.tiles[0].base.bytes, vec![40, 100, 80, 35]);
    assert_eq!(t.macro_variation, f(0.4));
}

#[test]
fn pcg_volume_persists_across_save_load_v4() {
    let mut rec = named(1, "Scatter");
    rec.pcg_volume = blob(&[0xC0, 0xFF, 0xEE, 80, 40, 7]);
    let loaded = round_trip(&doc_of(vec![rec]));
    assert_eq!(record_of(&loaded, g(1)).unwrap().pcg_volume, blob(&[0xC0, 0xFF, 0xEE, 80, 40, 7]));
}

/// A character with every animation component.
fn character() -> EntityRecord {
    let mut rec = named(1, "Character");
    rec.skeletal_mesh = blob(&[1]);
    rec.anim_player = blob(&[2]);
    rec.anim_state_machine = blob(&[3]);
    rec.root_motion = blob(&[4]);
    rec.attached_to = blob(b"hand_r");
    rec
}

#[test]
fn anim_components_persist_across_save_load_v5() {
    let loaded = round_trip(&doc_of(vec![character()]));
    assert_eq!(record_of(&loaded, g(1)).unwrap(), character());
}

#[test]
fn delete_undo_restores_anim_components_v5() {
    let mut doc = doc_of(vec![character()]);
    doc.edit_delete(vec![g(1)]);
    assert!(!doc.contains(g(1)), "deleted");
    doc.undo();
    assert_eq!(record_of(&doc, g(1)).expect("entity restored by undo"), character());
}

/// A body with two joints and a sound.
fn body() -> EntityRecord {
    let mut rec = named(2, "Body");
    rec.joint_3d = blob(&[0x12, 0x0B]);
    rec.joint_2d = blob(&[0x12, 0x0C]);
    rec.audio_source = blob(b"sfx");
    rec
}

#[test]
fn joints_and_audio_persist_across_save_load_v6() {
    let mut listener = named(3, "Listener");
    listener.audio_listener = blob(&[1]);
    let loaded = round_trip(&doc_of(vec![named(1, "Anchor"), body(), listener.clone()]));
    assert_eq!(record_of(&loaded, g(2)).unwrap(), body());
    assert_eq!(record_of(&loaded, g(3)).unwrap(), listener);
}

#[test]
fn delete_undo_restores_joints_and_audio_v6() {
    let mut doc = doc_of(vec![body()]);
    doc.edit_delete(vec![g(2)]);
    assert!(!doc.contains(g(2)), "deleted");
    doc.undo();
    assert_eq!(record_of(&doc, g(2)).expect("entity restored by undo"), body());
}

#[test]
fn round_trip_with_v8_components_is_byte_identical() {
    let mut spot = named(1, "Spot");
    spot.light = Some(Light {
        kind: 2,
        color: Color { r: s(1.0), g: s(0.8), b: s(0.6), a: s(1.0) },
        intensity: s(4.0),
        range: s(25.0),
        inner_cone_deg: s(18.0),
        outer_cone_deg: s(32.0),
        cast_shadows: false,
    });
    let mut glass = named(2, "Glass");
    glass.material = Some(Material {
        base_color: Color { r: s(0.2), g: s(0.5), b: s(0.9), a: s(0.4) },
        metallic: s(0.0),
        roughness: s(0.1),
        emissive: Color { r: s(0.0), g: s(0.0), b: s(0.0), a: s(1.0) },
        blend: BlendMode::Other(2),
        alpha_cutoff: s(0.3),
        asset: None,
    });
    let mut deco = named(3, "Decals");
    deco.decal = blob(&[8]);
    deco.volume = blob(&[1]);
    let mut rail = named(4, "Rail");
    rail.spline = blob(&[3]);
    let mut grass = named(5, "Grass");
    grass.foliage = Some(scatter());
    let mut doc = doc_of(vec![spot, glass, deco, rail, grass]);
    doc.set_title("V8 Level");
    let mut settings = LevelSettings::default();
    settings.gravity_2d = Vec2d { x: f(0.0), y: f(-18.0) };
    settings.sim_hz = f(90.0);
    settings.render.exposure = s(1.4);
    settings.render.gi_enabled = true;
    doc.edit_settings(settings);

    let loaded = round_trip(&doc);
    let file = to_scene_file(&loaded);
    let l = by_name(&file, "Spot").light.unwrap();
    assert_eq!(l.range, s(25.0));
    assert_eq!(l.inner_cone_deg, s(18.0));
    assert!(!l.cast_shadows);
    let m = by_name(&file, "Glass").material.unwrap();
    assert_eq!(m.blend, BlendMode::Other(2));
    assert_eq!(m.alpha_cutoff, s(0.3));
    assert_eq!(by_name(&file, "Decals").decal, blob(&[8]));
    assert_eq!(by_name(&file, "Decals").volume, blob(&[1]));
    assert_eq!(by_name(&file, "Rail").spline, blob(&[3]));
    assert_eq!(by_name(&file, "Grass").foliage, Some(scatter()));
    assert_eq!(loaded.settings.render.exposure, s(1.4));
    assert!(loaded.settings.render.gi_enabled);
}

#[test]
fn terrain_asset_reference_persists_across_save_load_v9() {
    let asset = g(0x1603_00AA);
    let mut rec = named(1, "Streamed Terrain");
    rec.terrain = Some(Terrain { asset: Some(asset), ..fixture_terrain() });
    let doc = doc_of(vec![rec]);
    let file = to_scene_file(&round_trip(&doc));
    let t = file.entities[0].terrain.as_ref().expect("terrain persisted");
    assert_eq!(t.asset, Some(asset), "the asset ref survives the trip");
    assert_eq!(t.data.tiles.len(), 0, "a streamed terrain's tiles must never reach the level");
    assert_eq!(t.tile_resolution, fixture_terrain().tile_resolution);
    assert_eq!(t.meters_per_sample, fixture_terrain().meters_per_sample);

    // The document is untouched by the write.
    let live = to_scene_file_for(&doc, ScenePersist::Memory);
    let live = live.entities[0].terrain.as_ref().unwrap();
    assert_eq!(live.data.tiles.len(), 2, "the write must not mutate the doc");
    assert_eq!(live.data.tiles[0].base.bytes, vec![40, 100, 80, 35]);

    // Clearing the reference makes another file.
    let mut inline = named(1, "Streamed Terrain");
    inline.terrain = Some(fixture_terrain());
    assert_ne!(to_scene_file(&doc_of(vec![inline])), file);
}

#[test]
fn v10_partition_components_and_settings_round_trip() {
    let mut player = named(1, "Player");
    player.streaming_source = Some(StreamingSource { radius_m: f(384.0) });
    let mut manager = named(2, "GameMode");
    manager.always_loaded = Some(AlwaysLoaded {});
    let mut doc = doc_of(vec![player, manager, named(3, "Prop")]);
    doc.set_title("Partitioned Level");
    doc.edit_settings(LevelSettings {
        partition: PartitionSettings {
            enabled: true,
            cell_size_m: f(128.0),
            activation_radius_m: f(200.0),
            prefetch_margin_m: f(300.0),
        },
        ..LevelSettings::default()
    });
    let mut loaded = round_trip(&doc);
    let file = to_scene_file(&loaded);
    assert_eq!(by_name(&file, "Player").streaming_source.unwrap().radius_m, f(384.0));
    assert_eq!(by_name(&file, "GameMode").always_loaded, Some(AlwaysLoaded {}));
    assert!(by_name(&file, "Prop").streaming_source.is_none());
    assert!(by_name(&file, "Prop").always_loaded.is_none());
    assert_eq!(file.settings.partition.cell_size_m, f(128.0));
    assert_eq!(file.settings.partition.activation_radius_m, f(200.0));
    assert_eq!(file.settings.partition.prefetch_margin_m, f(300.0));
    assert!(file.settings.partition.enabled);
    // Turning it off moves the file.
    loaded.raw_set_settings(LevelSettings::default());
    assert_ne!(to_scene_file(&loaded), file);
}

/// A level with one sky and one prop, there and back.
fn sky_round_trip(title: &str, tod: TimeOfDay, atmos: SkyAtmosphere) -> SceneFile {
    let mut rec = named(1, "Sky");
    rec.time_of_day = Some(tod);
    rec.sky_atmosphere = Some(atmos);
    let mut doc = doc_of(vec![rec, named(2, "Prop")]);
    doc.set_title(title);
    let loaded = round_trip(&doc);
    let back = record_of(&loaded, g(1)).unwrap();
    assert_eq!(back.time_of_day, Some(tod));
    assert_eq!(back.sky_atmosphere, Some(atmos));
    assert!(record_of(&loaded, g(2)).unwrap().time_of_day.is_none());
    to_scene_file(&loaded)
}

#[test]
fn v11_sky_components_round_trip() {
    let tod = TimeOfDay {
        seconds: f(3_600.0),
        day_of_year: 355,
        latitude_deg: f(-33.9),
        longitude_deg: f(151.2),
        rate: f(120.0),
    };
    let atmos = SkyAtmosphere { sun_intensity: s(5.5), night_darkening: s(0.4), ..sky() };
    sky_round_trip("Sky Level", tod, atmos);
}

#[test]
fn v12_physical_atmosphere_round_trips() {
    let atmos = SkyAtmosphere {
        physical: true,
        sky_intensity: s(1.4),
        turbidity: s(2.5),
        mie_anisotropy: s(0.72),
        sun_disc_deg: s(1.2),
        moon_disc_deg: s(0.6),
        star_intensity: s(0.25),
        tint_strength: s(0.3),
        aerial_perspective: s(1.8),
        fog_density: s(6e-4),
        fog_falloff: s(0.004),
        fog_height: s(120.0),
        fog_color: Color { r: s(0.8), g: s(0.9), b: s(1.0), a: s(1.0) },
        ..sky()
    };
    let file = sky_round_trip("Foggy Level", clock(), atmos);
    // Clearing one v12-only field moves the file: the block is persisted.
    let other = sky_round_trip("Foggy Level", clock(), SkyAtmosphere { fog_density: s(0.0), ..atmos });
    assert_ne!(other, file);
}

#[test]
fn v13_clouds_round_trip() {
    let atmos = SkyAtmosphere {
        clouds_enabled: true,
        cloud_coverage: s(0.62),
        cloud_type: s(0.4),
        cloud_bottom: s(900.0),
        cloud_top: s(5200.0),
        cloud_density: s(0.07),
        cloud_detail: s(0.85),
        cloud_seed: 90_210,
        cloud_wind_x: s(-11.5),
        cloud_wind_z: s(3.25),
        cloud_phase_g: s(0.55),
        cloud_shadow: s(0.4),
        cloud_ambient: s(1.75),
        cloud_color: Color { r: s(0.94), g: s(0.96), b: s(1.0), a: s(1.0) },
        ..sky()
    };
    let file = sky_round_trip("Cloudy Level", clock(), atmos);
    let other =
        sky_round_trip("Cloudy Level", clock(), SkyAtmosphere { clouds_enabled: false, ..atmos });
    assert_ne!(other, file);
}

#[test]
fn v14_weather_round_trips_through_the_codec() {
    let atmos = SkyAtmosphere {
        weather_enabled: true,
        weather_target: 4,
        weather_blend_seconds: s(12.5),
        weather_blend_remaining: s(3.25),
        weather_coverage: s(0.77),
        weather_cloud_type: s(0.31),
        weather_wind_x: s(-14.5),
        weather_wind_z: s(6.25),
        weather_fog_density: s(9e-4),
        weather_precipitation: s(0.65),
        weather_snowiness: s(0.5),
        ..sky()
    };
    let file = sky_round_trip("V14 Weather", clock(), atmos);
    let other = sky_round_trip("V14 Weather", clock(), SkyAtmosphere { weather_target: 2, ..atmos });
    assert_ne!(other, file);
}

#[test]
fn v15_data_maps_round_trip_through_the_codec() {
    let mut rec = named(0xD200, "T");
    rec.terrain = Some(fixture_terrain());
    let loaded = round_trip(&doc_of(vec![rec]));
    let t = record_of(&loaded, g(0xD200)).unwrap().terrain.unwrap();
    assert_eq!(t.data.tiles[0].data_maps.bytes, vec![5, 2, 1]);
}

#[test]
fn v16_biome_ids_round_trip_through_the_codec() {
    let mut rec = named(0xE200, "T");
    rec.terrain = Some(Terrain { biome_set: Some(g(0xB10E)), ..fixture_terrain() });
    let loaded = round_trip(&doc_of(vec![rec]));
    let t = record_of(&loaded, g(0xE200)).unwrap().terrain.unwrap();
    assert_eq!(t.data.tiles[0].biome_ids.bytes, vec![9]);
    assert!(t.data.tiles[1].biome_ids.bytes.is_empty());
    assert_eq!(t.biome_set, Some(g(0xB10E)));
}

#[test]
fn v17_water_round_trips_through_the_codec_and_the_world() {
    let mut rec = named(0xF200, "Lake");
    rec.water_body = blob(&[12, 40, 25]);
    let loaded = round_trip(&doc_of(vec![rec]));
    assert_eq!(record_of(&loaded, g(0xF200)).unwrap().water_body, blob(&[12, 40, 25]));
}

#[test]
fn v18_buoyancy_round_trips_through_the_codec_and_the_world() {
    let mut rec = named(0xF500, "Crate");
    rec.buoyancy = blob(&[1, 2, 3]);
    let loaded = round_trip(&doc_of(vec![rec]));
    assert_eq!(record_of(&loaded, g(0xF500)).unwrap().buoyancy, blob(&[1, 2, 3]));
}

#[test]
fn v19_voxel_volume_round_trips_through_the_codec_and_the_world() {
    let mut rec = named(0xF800, "Cave");
    rec.voxel_volume = blob(&[0xF0, 0xCA, 0x5]);
    let loaded = round_trip(&doc_of(vec![rec]));
    assert_eq!(record_of(&loaded, g(0xF800)).unwrap().voxel_volume, blob(&[0xF0, 0xCA, 0x5]));
}

fn v1_record(n: u128, name: &str) -> EntityRecordV1 {
    EntityRecordV1 {
        guid: g(n),
        name: name.to_string(),
        parent: None,
        transform: Transform::identity(),
        visible: true,
        mesh: None,
        material: None,
        light: None,
        camera: None,
    }
}

fn v1_reference() -> SceneFileV1 {
    let mut ground = v1_record(0x1001, "Ground");
    ground.transform.scale = Vec3d { x: f(20.0), y: f(1.0), z: f(20.0) };
    ground.mesh = Some(MeshRefV6 { primitive: 2 });
    ground.material = Some(MaterialV7 {
        base_color: Color { r: s(0.3), g: s(0.32), b: s(0.35), a: s(1.0) },
        ..MaterialV7::default()
    });
    let mut hero = v1_record(0x1002, "Hero");
    hero.transform = at(-2.0, 0.5, 0.0);
    hero.mesh = Some(MeshRefV6 { primitive: 0 });
    hero.material = Some(MaterialV7::default());
    let mut sun = v1_record(0x1003, "Sun");
    sun.light = Some(LightV7 {
        kind: 0,
        color: Color { r: s(1.0), g: s(1.0), b: s(1.0), a: s(1.0) },
        intensity: s(1.0),
    });
    let mut cam = v1_record(0x1004, "Cam");
    cam.visible = false;
    cam.camera = blob(&[1]);
    SceneFileV1 {
        schema_version: 1,
        title: "Fixture Level".to_string(),
        entities: vec![ground, hero, sun, cam],
    }
}

fn v1_decoded() -> SceneFile {
    decode(&header(1), Ok(ScenePayload::V1(v1_reference())), &sky()).expect("v1 decodes")
}

#[test]
fn v1_fixture_loads_forever() {
    let file = v1_decoded();
    // Migrated up to the current schema.
    assert_eq!(file.schema_version, SCHEMA_VERSION);
    assert_eq!(file.title, "Fixture Level");
    assert_eq!(file.entities.len(), 4);
    // Legacy 3D data preserved.
    assert!(by_name(&file, "Ground").mesh.is_some());
    assert!(by_name(&file, "Ground").material.is_some());
    assert!(by_name(&file, "Sun").light.is_some());
    assert!(by_name(&file, "Cam").camera.is_some());
    assert!(!by_name(&file, "Cam").visible);
    // Every 2D + v3 + v4 slot defaulted on the old payload.
    for r in &file.entities {
        assert!(r.sprite.is_none());
        assert!(r.tilemap.is_none());
        assert!(r.nine_slice.is_none());
        assert!(r.text2d.is_none());
        assert!(r.light_2d.is_none());
        assert!(r.rigid_body_2d.is_none());
        assert!(r.collider_2d.is_none());
        assert!(r.character_controller_2d.is_none());
        assert!(r.actor.is_none());
        assert!(r.terrain.is_none());
        assert!(r.pcg_volume.is_none());
    }
    assert_eq!(file.settings, LevelSettings::default());
}

#[test]
fn v1_fixture_loads_into_a_document() {
    let doc = load(Ok(v1_decoded())).ok().unwrap();
    assert_eq!(doc.entities.len(), 4);
    assert_eq!(doc.title, "Fixture Level");
}

#[test]
fn v2_fixture_loads_forever_and_lifts_to_v4() {
    let record = |n: u128, name: &str| EntityRecordV2 {
        guid: g(n),
        name: name.to_string(),
        parent: None,
        transform: Transform::identity(),
        visible: true,
        mesh: None,
        material: None,
        light: None,
        camera: None,
        sprite: None,
        tilemap: None,
        nine_slice: None,
        text2d: None,
        light_2d: None,
    };
    let mut tm = Tilemap {
        texture: None,
        tile_size: Vec2d { x: f(1.0), y: f(1.0) },
        atlas_cols: 2,
        atlas_rows: 2,
        chunk_dim: 32,
        chunks: vec![],
        style: Component { bytes: vec![] },
    };
    tm.set_tile(0, 0, 1);
    tm.set_tile(1, 0, 2);
    let mut ground = record(0x2001, "Ground");
    ground.mesh = Some(MeshRefV6 { primitive: 2 });
    ground.material = Some(MaterialV7::default());
    ground.tilemap = Some(tm);
    let mut sprite = record(0x2002, "Sprite");
    sprite.transform = at(1.0, 2.0, 0.0);
    sprite.sprite = blob(&[8, 12]);
    sprite.light_2d = blob(&[5]);
    let file = SceneFileV2 {
        schema_version: 2,
        title: "V2 Fixture Level".to_string(),
        entities: vec![ground, sprite],
    };
    let file = decode(&header(2), Ok(ScenePayload::V2(file)), &sky()).expect("v2 decodes");
    assert_eq!(file.schema_version, SCHEMA_VERSION);
    assert_eq!(file.title, "V2 Fixture Level");
    assert_eq!(file.entities.len(), 2);
    // v2 data preserved through the v2→v3→v4 lift.
    assert!(by_name(&file, "Ground").tilemap.is_some());
    assert!(by_name(&file, "Sprite").sprite.is_some());
    assert!(by_name(&file, "Sprite").light_2d.is_some());
    for r in &file.entities {
        assert!(r.rigid_body_2d.is_none());
        assert!(r.collider_2d.is_none());
        assert!(r.rigid_body_3d.is_none());
        assert!(r.actor.is_none());
        assert!(r.terrain.is_none());
        assert!(r.pcg_volume.is_none());
    }
    assert_eq!(file.settings, LevelSettings::default());
}

#[test]
fn v3_fixture_loads_forever_and_lifts_to_v4() {
    let record = |n: u128, name: &str| EntityRecordV3 {
        guid: g(n),
        name: name.to_string(),
        parent: None,
        transform: Transform::identity(),
        visible: true,
        mesh: None,
        material: None,
        light: None,
        camera: None,
        sprite: None,
        tilemap: None,
        nine_slice: None,
        text2d: None,
        light_2d: None,
        rigid_body_2d: None,
        collider_2d: None,
        character_controller_2d: None,
        rigid_body_3d: None,
        collider_3d: None,
        character_controller_3d: None,
        actor: None,
    };
    let mut ground = record(0x3001, "Ground");
    ground.rigid_body_2d = blob(&[0]);
    ground.collider_2d = blob(&[3]);
    let mut player = record(0x3002, "Player");
    player.transform = at(1.5, 0.8, 0.0);
    player.sprite = blob(&[8, 12]);
    player.rigid_body_2d = blob(&[2]);
    player.character_controller_2d = blob(&[]);
    player.actor = Some(g(0x3ACC));
    let file = SceneFileV3 {
        schema_version: 3,
        title: "V3 Fixture Level".to_string(),
        entities: vec![ground, player],
        settings: LevelSettingsV7 {
            gravity_2d: Vec2d { x: f(0.0), y: f(-20.0) },
            gravity_3d: Vec3d { x: f(0.0), y: f(-9.81), z: f(0.0) },
            sim_hz: f(120.0),
        },
    };
    let file = decode(&header(3), Ok(ScenePayload::V3(file)), &sky()).expect("v3 decodes");
    assert_eq!(file.schema_version, SCHEMA_VERSION);
    assert_eq!(file.title, "V3 Fixture Level");
    assert_eq!(file.entities.len(), 2);
    // v3 physics/actor data preserved through the v3→v4 lift.
    assert!(by_name(&file, "Ground").rigid_body_2d.is_some());
    assert!(by_name(&file, "Ground").collider_2d.is_some());
    assert!(by_name(&file, "Player").character_controller_2d.is_some());
    assert!(by_name(&file, "Player").actor.is_some());
    assert_eq!(file.settings.gravity_2d, Vec2d { x: f(0.0), y: f(-20.0) });
    assert_eq!(file.settings.sim_hz, f(120.0));
    for r in &file.entities {
        assert!(r.terrain.is_none());
        assert!(r.pcg_volume.is_none());
        assert!(r.skeletal_mesh.is_none());
        assert!(r.anim_player.is_none());
        assert!(r.anim_state_machine.is_none());
        assert!(r.root_motion.is_none());
        assert!(r.attached_to.is_none());
    }
}

#[test]
fn v4_fixture_loads_forever_and_lifts_to_v5() {
    let record = |n: u128, name: &str| EntityRecordV4 {
        guid: g(n),
        name: name.to_string(),
        parent: None,
        transform: Transform::identity(),
        visible: true,
        mesh: None,
        material: None,
        light: None,
        camera: None,
        sprite: None,
        tilemap: None,
        nine_slice: None,
        text2d: None,
        light_2d: None,
        rigid_body_2d: None,
        collider_2d: None,
        character_controller_2d: None,
        rigid_body_3d: None,
        collider_3d: None,
        character_controller_3d: None,
        actor: None,
        terrain: None,
        pcg_volume: None,
    };
    let mut ground = record(0x4001, "Ground");
    ground.transform = at(0.0, -0.5, 0.0);
    ground.rigid_body_3d = blob(&[0]);
    ground.collider_3d = blob(&[5]);
    let mut scatter = record(0x4002, "Scatter");
    scatter.pcg_volume = blob(&[0x4A, 0xCC]);
    let file = SceneFileV4 {
        schema_version: 4,
        title: "V4 Fixture Level".to_string(),
        entities: vec![ground, scatter],
        settings: LevelSettingsV7::default(),
    };
    let file = decode(&header(4), Ok(ScenePayload::V4(file)), &sky()).expect("v4 decodes");
    assert_eq!(file.schema_version, SCHEMA_VERSION);
    assert_eq!(file.title, "V4 Fixture Level");
    assert_eq!(file.entities.len(), 2);
    // v4 physics + pcg data preserved through the v4→v5 lift.
    assert!(by_name(&file, "Ground").rigid_body_3d.is_some());
    assert!(by_name(&file, "Ground").collider_3d.is_some());
    assert!(by_name(&file, "Scatter").pcg_volume.is_some());
    for r in &file.entities {
        assert!(r.skeletal_mesh.is_none());
        assert!(r.anim_player.is_none());
        assert!(r.anim_state_machine.is_none());
        assert!(r.root_motion.is_none());
        assert!(r.attached_to.is_none());
        assert!(r.joint_2d.is_none());
        assert!(r.joint_3d.is_none());
        assert!(r.audio_source.is_none());
        assert!(r.audio_listener.is_none());
    }
}
