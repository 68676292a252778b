//! Reading, writing and recovering levels.

use std::collections::HashMap;

use inf_editor_core::bits::{F32, F64};
use inf_editor_core::guid::Guid;
use inf_editor_core::props::PropValue;
use inf_editor_core::scene::component::{Color, Component, Transform, Vec3d};
use inf_editor_core::scene::decode::{decode, decode_layout, migrate, ScenePayload};
use inf_editor_core::scene::doc::SceneDoc;
use inf_editor_core::scene::file::{SceneFile, SceneFileV1, SceneFileV18, SCHEMA_VERSION};
use inf_editor_core::scene::ladder_early::EntityRecordV1;
use inf_editor_core::scene::ladder_late::EntityRecordV18;
use inf_editor_core::scene::record::EntityRecord;
use inf_editor_core::scene::save::{
    apply_to_doc, encode_scene, has_distinct_guids, hash_hex, load, record_of, sidecar,
    strip_streamed_terrain, to_scene_file, to_scene_file_for, xxh3, ScenePersist,
};
use inf_editor_core::scene::settings::LevelSettings;
use inf_editor_core::scene::sky::{SkyAtmosphere, SkyAtmosphereV13};
use inf_editor_core::scene::storage::{
    after_recovery, clear_recovery, recovery_path, recovery_terrain_note_path, sidecar_path,
    take_recovery, take_recovery_terrain_note, write_recovery, write_recovery_bytes,
    write_recovery_terrain_note, NoteStep, RecoveryStep,
};
use inf_editor_core::scene::terrain::{Terrain, TerrainData, TerrainTile};

fn f(x: f64) -> F64 {
    F64::from_bits(x.to_bits())
}

fn s(x: f32) -> F32 {
    F32::from_bits(x.to_bits())
}

fn g(n: u128) -> Guid {
    Guid::from_u128(n)
}

fn named(n: u128, name: &str) -> EntityRecord {
    EntityRecord::named(g(n), name.to_string(), None, Transform::identity())
}

/// An atmosphere for the levels that knew no weather.
fn sky() -> SkyAtmosphere {
    let v = SkyAtmosphereV13::default();
    SkyAtmosphere {
        enabled: v.enabled,
        sun_intensity: v.sun_intensity,
        sun_color: v.sun_color,
        moon_intensity: v.moon_intensity,
        moon_color: v.moon_color,
        zenith: v.zenith,
        horizon: v.horizon,
        ground: v.ground,
        night_darkening: v.night_darkening,
        physical: v.physical,
        sky_intensity: v.sky_intensity,
        turbidity: v.turbidity,
        mie_anisotropy: v.mie_anisotropy,
        sun_disc_deg: v.sun_disc_deg,
        moon_disc_deg: v.moon_disc_deg,
        star_intensity: v.star_intensity,
        tint_strength: v.tint_strength,
        aerial_perspective: v.aerial_perspective,
        fog_density: v.fog_density,
        fog_falloff: v.fog_falloff,
        fog_height: v.fog_height,
        fog_color: v.fog_color,
        clouds_enabled: v.clouds_enabled,
        cloud_coverage: v.cloud_coverage,
        cloud_type: v.cloud_type,
        cloud_bottom: v.cloud_bottom,
        cloud_top: v.cloud_top,
        cloud_density: v.cloud_density,
        cloud_detail: v.cloud_detail,
        cloud_seed: v.cloud_seed,
        cloud_wind_x: v.cloud_wind_x,
        cloud_wind_z: v.cloud_wind_z,
        cloud_phase_g: v.cloud_phase_g,
        cloud_shadow: v.cloud_shadow,
        cloud_ambient: v.cloud_ambient,
        cloud_color: Color { r: s(1.0), g: s(1.0), b: s(1.0), a: s(1.0) },
        weather_enabled: false,
        weather_target: 0,
        weather_blend_seconds: s(8.0),
        weather_blend_remaining: s(0.0),
        weather_coverage: s(0.1),
        weather_cloud_type: s(0.5),
        weather_wind_x: s(3.0),
        weather_wind_z: s(1.0),
        weather_fog_density: s(0.0),
        weather_precipitation: s(0.0),
        weather_snowiness: s(0.0),
    }
}

fn empty_file(version: u32) -> SceneFile {
    SceneFile {
        schema_version: version,
        title: "x".to_string(),
        entities: vec![],
        settings: LevelSettings::default(),
    }
}

/// A number in the form that leads a payload.
fn header(n: u32) -> Vec<u8> {
    bincode::serde::encode_to_vec(n, bincode::config::standard()).unwrap()
}

#[test]
fn migrate_rejects_newer_schema() {
    assert!(migrate(empty_file(SCHEMA_VERSION + 1)).is_err());
    assert!(migrate(empty_file(SCHEMA_VERSION)).is_ok());
    assert_eq!(
        migrate(empty_file(SCHEMA_VERSION + 1)).unwrap_err(),
        "scene schema v20 is newer than this editor (v19)"
    );
}

#[test]
fn migrate_upgrades_an_older_level() {
    let mut old = empty_file(3);
    old.title = "x".to_string();
    let mut new = empty_file(SCHEMA_VERSION);
    new.title = "x".to_string();
    assert_eq!(migrate(old), Ok(new));
    let stale = empty_file(SCHEMA_VERSION - 1);
    let read = decode(&header(SCHEMA_VERSION), Ok(ScenePayload::Current(stale)), &sky());
    assert_eq!(read.unwrap().schema_version, SCHEMA_VERSION);
}

#[test]
fn decode_rejects_future_schema() {
    // A payload whose leading version is newer than us must fail cleanly.
    let bytes = header(SCHEMA_VERSION + 3);
    let file = empty_file(SCHEMA_VERSION + 3);
    assert_eq!(
        decode(&bytes, Ok(ScenePayload::Current(file)), &sky()).unwrap_err(),
        "scene schema v22 is newer than this editor (v19)"
    );
}

#[test]
fn the_leading_number_chooses_the_layout() {
    for v in 1..=SCHEMA_VERSION {
        assert_eq!(decode_layout(&header(v)), Ok(v));
    }
    assert_eq!(decode_layout(&header(0)), Ok(1));
    for v in [250, 251, 252, 65535, 65536, u32::MAX] {
        assert_eq!(
            decode_layout(&header(v)).unwrap_err(),
            format!("scene schema v{v} is newer than this editor (v19)")
        );
    }
    // The two-byte and four-byte forms of a small number are read too.
    assert_eq!(decode_layout(&[251, 7, 0]), Ok(7));
    assert_eq!(decode_layout(&[252, 7, 0, 0, 0]), Ok(7));
    // Bytes that hold no number are refused under the header's name.
    for bad in [&[][..], &[251, 7][..], &[252, 1, 2, 3][..], &[253, 0, 0, 0, 0, 0, 0, 0, 0][..], &[255][..]] {
        assert!(decode_layout(bad).unwrap_err().starts_with("decode header: "));
    }
}

#[test]
fn a_payload_that_cannot_be_read_names_its_layout() {
    let err = |v: u32| decode(&header(v), Err("bad".to_string()), &sky()).unwrap_err();
    assert_eq!(err(1), "decode v1: bad");
    assert_eq!(err(18), "decode v18: bad");
    assert_eq!(err(19), "decode: bad");
}

#[test]
fn v1_payloads_load_forever() {
    let file = SceneFileV1 {
        schema_version: 1,
        title: "V1 Fixture Level".to_string(),
        entities: vec![EntityRecordV1 {
            guid: g(7),
            name: "Cube".to_string(),
            parent: None,
            transform: Transform::identity(),
            visible: true,
            mesh: None,
            material: None,
            light: None,
            camera: None,
        }],
    };
    let now = decode(&header(1), Ok(ScenePayload::V1(file)), &sky()).unwrap();
    assert_eq!(now.schema_version, SCHEMA_VERSION);
    assert_eq!(now.title, "V1 Fixture Level");
    assert_eq!(now.entities, vec![named(7, "Cube")]);
    assert_eq!(now.settings, LevelSettings::default());
}

#[test]
fn v18_payloads_load_without_a_voxel_volume() {
    let mut settings = LevelSettings::default();
    settings.sim_hz = f(90.0);
    let mut rec = named(7, "Cube");
    rec.buoyancy = Some(Component { bytes: vec![3] });
    let file = SceneFileV18 {
        schema_version: 18,
        title: "V18 Fixture Level".to_string(),
        entities: vec![EntityRecordV18::from_current(rec.clone())],
        settings,
    };
    let now = decode(&header(18), Ok(ScenePayload::V18(file)), &sky()).unwrap();
    assert_eq!(now.schema_version, SCHEMA_VERSION);
    assert_eq!(now.settings, settings);
    assert_eq!(now.entities, vec![rec]);
}

fn doc_of(records: Vec<EntityRecord>) -> SceneDoc {
    let mut doc = SceneDoc::new();
    for r in records {
        assert!(doc.edit_create(r));
    }
    doc
}

/// Save, load into a new document, and check that it saves the same.
fn round_trip(doc: &SceneDoc) -> SceneDoc {
    let file = to_scene_file(doc);
    assert_eq!(file.schema_version, SCHEMA_VERSION);
    assert!(has_distinct_guids(&file));
    let loaded = load(Ok(to_scene_file(doc))).ok().unwrap();
    assert_eq!(to_scene_file(&loaded), file, "save→load→save must be identical");
    loaded
}

fn parent_guid(doc: &SceneDoc, guid: Guid) -> Option<Guid> {
    record_of(doc, guid).unwrap().parent
}

#[test]
fn reparent_under_later_created_node_survives_round_trip() {
    let (a, b) = (g(1), g(2));
    let mut doc = doc_of(vec![named(1, "A"), named(2, "B")]); // B created AFTER A
    assert!(doc.edit_reparent(a, Some(b)), "A reparented under B");

    // The child A precedes its parent B in the file's entity sequence.
    let file1 = to_scene_file(&doc);
    let a_at = file1.entities.iter().position(|r| r.guid == a).unwrap();
    let b_at = file1.entities.iter().position(|r| r.guid == b).unwrap();
    assert!(a_at < b_at, "child A is written before its parent B");

    // Hierarchy intact: A is still parented under B (not silently a root).
    let loaded = round_trip(&doc);
    assert_eq!(parent_guid(&loaded, a), Some(b), "A stays under B across save→load");
}

#[test]
fn deep_reparent_chain_survives_round_trip() {
    // Create so every child precedes its parent in creation order.
    let (c, b, a) = (g(3), g(2), g(1));
    let mut doc = doc_of(vec![named(3, "C"), named(2, "B"), named(1, "A")]);
    assert!(doc.edit_reparent(b, Some(a)));
    assert!(doc.edit_reparent(c, Some(b)));

    let loaded = round_trip(&doc);
    assert_eq!(parent_guid(&loaded, c), Some(b), "C under B");
    assert_eq!(parent_guid(&loaded, b), Some(a), "B under A");
    assert_eq!(parent_guid(&loaded, a), None, "A is a root");
}

#[test]
fn a_document_saves_what_it_loaded() {
    let mut rec = named(5, "Cone");
    rec.transform.translation = Vec3d { x: f(1.0), y: f(2.0), z: f(3.0) };
    rec.visible = false;
    rec.camera = Some(Component { bytes: vec![1, 2] });
    rec.actor = Some(g(0xAC));
    rec.buoyancy = Some(Component { bytes: vec![] });
    let mut doc = doc_of(vec![named(4, "Root"), rec]);
    doc.set_title("Level");
    let mut settings = LevelSettings::default();
    settings.partition.enabled = true;
    doc.edit_settings(settings);
    let loaded = round_trip(&doc);
    assert_eq!(loaded.title, "Level");
    assert_eq!(loaded.settings, settings);
    assert!(!loaded.is_dirty(), "a freshly loaded doc is clean");
}

#[test]
fn a_level_that_cannot_be_decoded_is_not_opened() {
    assert_eq!(load(Err("decode: bad".to_string())).err().unwrap(), "decode: bad");
}

#[test]
fn two_entities_of_one_identity_are_noticed() {
    let mut file = empty_file(SCHEMA_VERSION);
    file.entities = vec![named(1, "A"), named(2, "B")];
    assert!(has_distinct_guids(&file));
    file.entities.push(named(1, "C"));
    assert!(!has_distinct_guids(&file));
    // It loads all the same: the first of the identity stands for it.
    file.entities[2].parent = Some(g(2));
    let doc = load(Ok(file)).ok().unwrap();
    assert_eq!(doc.entities.len(), 3);
    assert_eq!(doc.entities[0].parent, Some(g(2)));
    assert_eq!(to_scene_file(&doc).entities[2].name, "C");
}

fn terrain_record(n: u128, asset: Option<Guid>) -> EntityRecord {
    let mut rec = named(n, "Terrain");
    rec.terrain = Some(Terrain {
        meters_per_sample: f(1.0),
        tile_resolution: 8,
        data: TerrainData {
            tile_resolution: 8,
            meters_per_sample: f(1.0),
            tiles: vec![TerrainTile {
                coord: (0, 0),
                base: Component { bytes: vec![1] },
                data_maps: Component { bytes: vec![] },
                biome_ids: Component { bytes: vec![] },
            }],
        },
        layers: Component { bytes: vec![2] },
        macro_variation: f(0.4),
        asset,
        biome_set: None,
        biome_population: vec![],
    });
    rec
}

#[test]
fn streamed_tiles_stay_out_of_the_file_and_in_memory() {
    let inline = terrain_record(1, None);
    assert_eq!(strip_streamed_terrain(inline.clone()), inline);
    let streamed = terrain_record(2, Some(g(0xA55)));
    let stripped = strip_streamed_terrain(streamed.clone());
    let t = stripped.terrain.as_ref().unwrap();
    assert!(t.data.is_empty());
    assert_eq!((t.data.tile_resolution, t.macro_variation, t.asset), (8, f(0.4), Some(g(0xA55))));

    let doc = doc_of(vec![inline.clone(), streamed.clone()]);
    assert_eq!(to_scene_file(&doc).entities, vec![inline.clone(), stripped]);
    let memory = to_scene_file_for(&doc, ScenePersist::Memory);
    assert_eq!(memory.entities, vec![inline, streamed]);
    let mut back = SceneDoc::new();
    apply_to_doc(&mut back, &memory);
    assert_eq!(to_scene_file_for(&back, ScenePersist::Memory), memory);
}

#[test]
fn hashes() {
    assert_eq!(xxh3(&[]), 0xcbf2_9ce4_8422_2325);
    assert_eq!(xxh3(b"a"), 0xaf63_dc4c_8601_ec8c);
    assert_eq!(xxh3(b"foobar"), 0x8594_4171_f739_67e8);
    assert_eq!(hash_hex(b"a"), "af63dc4c8601ec8c");
    assert_eq!(hash_hex(&[0, 0]).len(), 16);
    let payload = vec![7u8; 64];
    for at in 0..payload.len() {
        let mut other = payload.clone();
        other[at] ^= 0x80;
        assert_ne!(hash_hex(&other), hash_hex(&payload));
        assert_eq!(u64::from_str_radix(&hash_hex(&other), 16), Ok(xxh3(&other)));
    }
}

#[test]
fn sidecars_tell_of_the_payload() {
    let mut doc = doc_of(vec![named(1, "A"), named(2, "B")]);
    doc.set_title("Level");
    let c = sidecar(&doc, g(9), b"a");
    assert_eq!((c.schema_version, c.guid, c.entity_count), (SCHEMA_VERSION, g(9), 2));
    assert_eq!((c.title.as_str(), c.content_hash.as_str()), ("Level", "af63dc4c8601ec8c"));

    let scene = encode_scene(&doc, Ok(vec![b'a']), Some(g(9))).ok().unwrap();
    assert_eq!((scene.guid, scene.payload), (g(9), vec![b'a']));
    assert_eq!(scene.sidecar, c);
    let fresh = encode_scene(&doc, Ok(vec![]), None).ok().unwrap();
    assert_eq!(uuid::Uuid::from_u128(fresh.guid.value).get_version_num(), 4);
    assert_eq!(fresh.sidecar.guid, fresh.guid);
    assert_eq!(encode_scene(&doc, Err("full".to_string()), None).err().unwrap(), "encode: full");
}

#[test]
fn paths_of_a_level() {
    assert_eq!(sidecar_path("/l/Level.inf_lvl"), "/l/Level.inf_lvl.toml");
    assert_eq!(recovery_path("/d"), "/d/crash-recovery.inf_lvl");
    assert_eq!(recovery_terrain_note_path("/d"), "/d/crash-recovery.terrain-edits.txt");
    assert_eq!(recovery_path("/d/"), "/d/crash-recovery.inf_lvl");
}

#[test]
fn recovery_steps() {
    let w = write_recovery(Ok(vec![1, 2]), "/d").unwrap();
    assert_eq!((w.dir.as_str(), w.path.as_str()), ("/d", "/d/crash-recovery.inf_lvl"));
    assert_eq!(w.bytes, vec![1, 2]);
    assert_eq!(write_recovery_bytes(vec![1, 2], "/d"), w);
    assert_eq!(write_recovery(Err("full".to_string()), "/d"), Err("encode: full".to_string()));
    assert_eq!(
        after_recovery("/d", true),
        RecoveryStep::Remove { path: "/d/crash-recovery.inf_lvl".to_string() }
    );
    assert_eq!(
        after_recovery("/d", false),
        RecoveryStep::SetAside {
            path: "/d/crash-recovery.inf_lvl".to_string(),
            aside: "/d/crash-recovery.inf_lvl.corrupt".to_string(),
        }
    );
    let note = "/d/crash-recovery.terrain-edits.txt".to_string();
    assert_eq!(
        write_recovery_terrain_note("/d", Some("x".to_string())),
        NoteStep::Write { dir: "/d".to_string(), path: note.clone(), text: "x".to_string() }
    );
    assert_eq!(write_recovery_terrain_note("/d", None), NoteStep::Remove { path: note.clone() });
    let blank = take_recovery_terrain_note("/d", Some(" \n".to_string()));
    assert_eq!(blank.note, None);
    assert_eq!(blank.step, Some(NoteStep::Remove { path: note }));
    let said = take_recovery_terrain_note("/d", Some("42 unsaved terrain tile(s)".to_string()));
    assert_eq!(said.note.as_deref(), Some("42 unsaved terrain tile(s)"));
    let unread = take_recovery_terrain_note("/d", None);
    assert_eq!((unread.note, unread.step), (None, None));
    let nothing = take_recovery("/d", None);
    assert!(nothing.doc.is_none() && nothing.step.is_none());
}

/// Files in memory, and the levels that were encoded: a payload is today's
/// version and the place of the level among them.
struct Machine {
    files: HashMap<String, Vec<u8>>,
    encoded: Vec<SceneFile>,
}

const DIR: &str = "/d";

impl Machine {
    fn new() -> Machine {
        Machine { files: HashMap::new(), encoded: vec![] }
    }

    fn write(&mut self, doc: &SceneDoc) {
        let mut payload = header(SCHEMA_VERSION);
        payload.push(self.encoded.len() as u8);
        self.encoded.push(to_scene_file(doc));
        let w = write_recovery(Ok(payload), DIR).unwrap();
        self.files.insert(w.path, w.bytes);
    }

    fn note_step(&mut self, step: NoteStep) {
        match step {
            NoteStep::Write { path, text, .. } => self.files.insert(path, text.into_bytes()),
            NoteStep::Remove { path } => self.files.remove(&path),
        };
    }

    fn write_note(&mut self, note: Option<&str>) {
        self.note_step(write_recovery_terrain_note(DIR, note.map(str::to_string)));
    }

    fn take_note(&mut self) -> Option<String> {
        let bytes = self.files.get(&recovery_terrain_note_path(DIR)).cloned();
        let taken = take_recovery_terrain_note(DIR, bytes.and_then(|b| String::from_utf8(b).ok()));
        if let Some(step) = taken.step {
            self.note_step(step);
        }
        taken.note
    }

    fn step(&mut self, step: RecoveryStep) {
        match step {
            RecoveryStep::Remove { path } => {
                self.files.remove(&path);
            }
            RecoveryStep::SetAside { path, aside } => {
                if let Some(bytes) = self.files.remove(&path) {
                    self.files.insert(aside, bytes);
                }
            }
        }
    }

    fn read(&self, bytes: &[u8]) -> Result<SceneFile, String> {
        if decode_layout(bytes)? != SCHEMA_VERSION {
            return Err("another layout".to_string());
        }
        let level = bytes.get(1).and_then(|i| self.encoded.get(*i as usize));
        let payload = level.cloned().map(ScenePayload::Current).ok_or("short".to_string());
        decode(bytes, payload, &sky())
    }

    fn take(&mut self) -> Option<SceneDoc> {
        let bytes = self.files.get(&recovery_path(DIR)).cloned();
        if bytes.is_some() {
            self.take_note();
        }
        let taken = take_recovery(DIR, bytes.map(|b| self.read(&b)));
        if let Some(step) = taken.step {
            self.step(step);
        }
        taken.doc
    }

    fn clear(&mut self) {
        let (payload, note) = clear_recovery(DIR);
        self.step(payload);
        self.note_step(note);
    }

    fn has_recovery(&self) -> bool {
        self.files.contains_key(&recovery_path(DIR))
    }

    fn has_note(&self) -> bool {
        self.files.contains_key(&recovery_terrain_note_path(DIR))
    }
}

#[test]
fn recovery_round_trips_then_clears() {
    let mut m = Machine::new();
    m.write(&doc_of(vec![named(1, "A"), named(2, "B")]));
    assert!(m.has_recovery());
    assert!(m.take().is_some());
    assert!(!m.has_recovery(), "consumed on recovery");
}

#[test]
fn autosave_only_persists_a_dirty_doc() {
    let mut m = Machine::new();
    let mut clean = doc_of(vec![named(1, "A")]);
    clean.mark_saved();
    assert!(!clean.is_dirty(), "a saved doc is clean");
    if clean.is_dirty() {
        m.write(&clean);
    }
    assert!(!m.has_recovery(), "a clean doc must not autosave");

    let mut doc = doc_of(vec![named(1, "A")]);
    doc.mark_saved();
    assert!(doc.edit_create(named(2, "Cube")));
    assert!(doc.is_dirty(), "an edit dirties the doc");
    if doc.is_dirty() {
        m.write(&doc);
    }
    assert!(m.has_recovery(), "a dirty doc autosaves a recovery file");
}

#[test]
fn recovery_restores_the_pre_crash_document() {
    let mut m = Machine::new();
    m.files.insert("/d/other".to_string(), vec![7]);
    let mut doc = doc_of(vec![named(1, "A")]);
    assert!(doc.edit_create(named(2, "Recovered Cone")));
    let v = Vec3d { x: f(7.0), y: f(8.0), z: f(9.0) };
    let own = "inf_ecs::components::Transform";
    doc.raw_write_prop(g(2), own, "translation", &PropValue::Vec3(v));
    m.write(&doc);
    m.write_note(Some("3 unsaved terrain tile(s)"));
    let pre_crash = to_scene_file(&doc);

    drop(doc);
    let recovered = m.take().expect("recovered a doc");
    assert_eq!(to_scene_file(&recovered), pre_crash);
    assert_eq!(record_of(&recovered, g(2)).unwrap().transform.translation, v);
    assert!(!recovered.is_dirty());
    assert!(!m.has_recovery(), "the recovery file is consumed on successful recovery");
    assert!(!m.has_note());
    assert!(m.take().is_none(), "a recovery is used once");
    assert_eq!(m.files.len(), 1, "no other file is touched");
}

#[test]
fn the_terrain_note_rides_beside_recovery_and_is_consumed_once() {
    let mut m = Machine::new();
    let doc = doc_of(vec![named(1, "A")]);
    assert!(m.take_note().is_none(), "no note");

    m.write(&doc);
    m.write_note(Some("42 unsaved terrain tile(s)"));
    assert!(m.has_note());
    assert!(m.take().is_some());
    assert!(!m.has_note(), "the note must be consumed with the recovery");
    assert!(m.take_note().is_none());

    m.write(&doc);
    m.write_note(Some("still unsaved"));
    m.clear();
    assert!(!m.has_recovery());
    assert!(!m.has_note());

    m.write_note(Some("x"));
    m.write_note(None);
    assert!(m.take_note().is_none());
}

#[test]
fn corrupt_recovery_file_is_handled_gracefully() {
    let mut m = Machine::new();
    m.write(&doc_of(vec![named(1, "A")]));
    let path = recovery_path(DIR);
    let garbage = b"\x00\x01\x02 not a valid inf_lvl payload".to_vec();
    m.files.insert(path.clone(), garbage.clone());
    assert!(m.take().is_none(), "a corrupt file recovers nothing");
    assert!(!m.files.contains_key(&path), "the corrupt file is moved aside");
    assert_eq!(m.files.get("/d/crash-recovery.inf_lvl.corrupt"), Some(&garbage));
    assert!(m.take().is_none());
}
