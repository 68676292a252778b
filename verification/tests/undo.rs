//! The history and the edits it undoes.

use inf_editor_core::bits::{F32, F64};
use inf_editor_core::guid::Guid;
use inf_editor_core::props::PropValue;
use inf_editor_core::scene::command::{EditCommand, HostWork, LayerDelta, TerrainLayer, RECORD_ESTIMATE};
use inf_editor_core::scene::component::{Component, MaterialV7, Transform, Vec3d};
use inf_editor_core::scene::doc::SceneDoc;
use inf_editor_core::scene::foliage::Foliage;
use inf_editor_core::scene::history::{EditHistory, HISTORY_BYTE_LIMIT, HISTORY_LIMIT};
use inf_editor_core::scene::record::EntityRecord;
use inf_editor_core::scene::save::{record_of, to_scene_file_for, ScenePersist};
use inf_editor_core::scene::settings::LevelSettings;
use inf_editor_core::scene::terrain::{Terrain, TerrainData, TerrainTile};

fn f(x: f64) -> F64 {
    F64::from_bits(x.to_bits())
}

fn f32b(x: f32) -> F32 {
    F32::from_bits(x.to_bits())
}

fn named(n: u128, name: &str, parent: Option<Guid>) -> EntityRecord {
    EntityRecord::named(Guid::from_u128(n), name.to_string(), parent, Transform::identity())
}

fn create(doc: &mut SceneDoc, n: u128, name: &str, parent: Option<Guid>) -> Guid {
    let rec = named(n, name, parent);
    let g = rec.guid;
    assert!(doc.edit_create(rec));
    g
}

/// What a document holds, entity by entity.
fn fingerprint(doc: &SceneDoc) -> Vec<EntityRecord> {
    to_scene_file_for(doc, ScenePersist::Memory).entities
}

fn at(x: f64) -> Transform {
    let mut t = Transform::identity();
    t.translation = Vec3d { x: f(x), y: f(0.0), z: f(0.0) };
    t
}

fn translation_x(doc: &SceneDoc, guid: Guid) -> f64 {
    f64::from_bits(record_of(doc, guid).unwrap().transform.translation.x.bits)
}

fn parent_of(doc: &SceneDoc, guid: Guid) -> Option<Guid> {
    record_of(doc, guid).unwrap().parent
}

#[test]
fn undo_redo_restores_each_mutation() {
    let mut doc = SceneDoc::new();
    let a = create(&mut doc, 1, "A", None);
    let before = fingerprint(&doc);

    // A rename, a child create, a reparent, a visibility toggle.
    doc.edit_rename(a, "Renamed");
    let b = create(&mut doc, 2, "B", Some(a));
    doc.edit_reparent(b, None);
    doc.edit_set_visible(a, false);
    let after = fingerprint(&doc);

    // Four independent edits → four undo steps back to `before`.
    for _ in 0..4 {
        assert!(doc.undo());
    }
    assert_eq!(fingerprint(&doc), before, "undo did not restore state");

    // Redo them all forward again.
    for _ in 0..4 {
        assert!(doc.redo());
    }
    assert!(!doc.history.can_redo());
    assert_eq!(fingerprint(&doc), after);
}

#[test]
fn fifty_step_undo_redo_is_clean() {
    let mut doc = SceneDoc::new();
    let base = fingerprint(&doc);
    for i in 0..50 {
        create(&mut doc, 100 + i, &format!("C{i}"), None);
    }
    let full = fingerprint(&doc);

    for _ in 0..50 {
        assert!(doc.undo());
    }
    assert_eq!(fingerprint(&doc), base, "50 undos must reach the start");
    assert!(!doc.history.can_undo());

    for _ in 0..50 {
        assert!(doc.redo());
    }
    assert_eq!(fingerprint(&doc), full, "50 redos must restore everything");
}

#[test]
fn transaction_groups_into_one_step() {
    let mut doc = SceneDoc::new();
    let a = create(&mut doc, 1, "A", None);

    // A gizmo drag: many transform edits stream into one transaction.
    doc.begin_transaction("drag");
    for i in 1..=10 {
        doc.edit_set_transform(a, at(i as f64));
    }
    doc.commit_transaction();
    assert_eq!(translation_x(&doc, a), 10.0);
    assert_eq!(doc.history.undo_label(), Some("drag"));

    // A single undo reverts the whole drag back to the origin (not just the
    // last of the ten edits).
    assert!(doc.undo());
    assert_eq!(translation_x(&doc, a), 0.0, "the drag is one undo step");
    // The remaining undo entry is the create.
    assert!(doc.undo());
    assert!(!doc.history.can_undo());
}

#[test]
fn delete_undo_restores_subtree() {
    let mut doc = SceneDoc::new();
    let a = create(&mut doc, 1, "A", None);
    create(&mut doc, 2, "B", Some(a));
    create(&mut doc, 3, "C", Some(a));
    let full = fingerprint(&doc);

    doc.edit_delete(vec![a]);
    assert!(doc.entities.is_empty());

    assert!(doc.undo());
    assert_eq!(fingerprint(&doc), full, "deleted subtree must round-trip");
}

#[test]
fn delete_undo_restores_reparent_under_later_node() {
    let mut doc = SceneDoc::new();
    let a = create(&mut doc, 1, "A", None);
    let b = create(&mut doc, 2, "B", None); // later order slot
    assert!(doc.edit_reparent(a, Some(b)));

    doc.edit_delete(vec![a, b]);
    assert!(doc.entities.is_empty(), "both deleted");
    assert!(doc.undo());

    // A is restored UNDER B (not as a root).
    assert!(doc.contains(a), "A restored by undo");
    assert_eq!(parent_of(&doc, a), Some(b), "A stays under B after delete→undo");
    assert!(doc.contains(b), "B restored by undo");
}

#[test]
fn level_settings_edit_undo_redo_round_trips() {
    let mut doc = SceneDoc::new();
    let base = doc.settings;
    let v0 = doc.version;
    assert!(!doc.is_dirty());

    let mut edited = base;
    edited.render.exposure = f32b(2.5);
    edited.render.bloom_enabled = true;
    edited.sim_hz = f(120.0);
    doc.edit_settings(edited);

    assert!(doc.is_dirty(), "a settings edit dirties the document");
    assert!(doc.version > v0, "a settings edit bumps the version");
    assert_eq!(doc.settings, edited);

    // Undo restores the original settings exactly …
    assert!(doc.undo());
    assert_eq!(doc.settings, base);
    // … and redo re-applies the edited block.
    assert!(doc.redo());
    assert_eq!(doc.settings, edited);

    // An idempotent edit (same value) records nothing.
    let before_len = doc.history.undo_len();
    doc.edit_settings(edited);
    assert_eq!(doc.history.undo_len(), before_len, "no-op edit records nothing");
    assert_eq!(doc.settings, LevelSettings { ..edited });
}

#[test]
fn nested_transactions_close_on_outermost_commit() {
    let mut doc = SceneDoc::new();
    let a = create(&mut doc, 1, "A", None);

    doc.begin_transaction("outer");
    doc.edit_set_transform(a, at(1.0));
    doc.begin_transaction("inner");
    doc.edit_set_transform(a, at(2.0));
    doc.commit_transaction(); // inner: must NOT close the transaction
    doc.edit_set_transform(a, at(3.0));
    doc.commit_transaction(); // outer: closes now
    assert_eq!(translation_x(&doc, a), 3.0);

    // One undo reverts all three edits (a single grouped step), not just the
    // last.
    assert!(doc.undo());
    assert_eq!(translation_x(&doc, a), 0.0, "nested begins collapse into one undo step");
    // The remaining entry is the create.
    assert!(doc.undo());
    assert!(!doc.history.can_undo());
}

#[test]
fn delete_undo_restores_terrain_and_pcg_v4() {
    let mut doc = SceneDoc::new();
    let mut rec = named(1, "World", None);
    rec.terrain = Some(Terrain {
        meters_per_sample: f(1.0),
        tile_resolution: 8,
        data: TerrainData {
            tile_resolution: 8,
            meters_per_sample: f(1.0),
            tiles: vec![TerrainTile {
                coord: (0, 0),
                base: Component { bytes: vec![1] },
                data_maps: Component { bytes: vec![] },
                biome_ids: Component { bytes: vec![] },
            }],
        },
        layers: Component { bytes: vec![] },
        macro_variation: f(0.0),
        asset: None,
        biome_set: None,
        biome_population: vec![],
    });
    rec.pcg_volume = Some(Component { bytes: vec![0xAB, 0xCD] });
    let g = rec.guid;
    assert!(doc.edit_create(rec));

    doc.edit_delete(vec![g]);
    assert!(!doc.contains(g), "deleted");
    doc.undo();

    let back = record_of(&doc, g).expect("entity restored by undo");
    let t = back.terrain.expect("terrain restored by delete→undo (v4)");
    assert_eq!(t.data.tiles.len(), 1);
    let v = back.pcg_volume.expect("pcg volume restored by delete→undo (v4)");
    assert_eq!(v.bytes, vec![0xAB, 0xCD]);
}

#[test]
fn an_undo_without_an_entry_does_nothing() {
    let mut doc = SceneDoc::new();
    assert!(!doc.undo());
    assert!(!doc.redo());
    assert_eq!(doc.version, 0);
    assert_eq!(doc.history.undo_label(), None);
}

#[test]
fn a_new_edit_forgets_what_could_be_redone() {
    let mut doc = SceneDoc::new();
    let a = create(&mut doc, 1, "A", None);
    doc.edit_rename(a, "B");
    assert!(doc.undo());
    assert_eq!(doc.history.redo_len(), 1);
    assert_eq!(doc.history.redo_label(), Some("Rename"));
    doc.edit_set_visible(a, false);
    assert_eq!(doc.history.redo_len(), 0);
    assert!(!doc.redo());
}

#[test]
fn an_empty_transaction_leaves_no_entry() {
    let mut doc = SceneDoc::new();
    doc.begin_transaction("nothing");
    doc.commit_transaction();
    assert!(!doc.history.can_undo());
    // A commit with nothing open is nothing too.
    doc.commit_transaction();
    assert!(!doc.history.can_undo());
}

#[test]
fn a_transaction_left_open_is_settled() {
    let mut doc = SceneDoc::new();
    let a = create(&mut doc, 1, "A", None);
    doc.begin_transaction("drag");
    doc.begin_transaction("deeper");
    doc.edit_rename(a, "B");
    assert!(doc.history.has_open());
    assert!(doc.history.settle_open());
    assert!(!doc.history.has_open());
    assert_eq!(doc.history.undo_len(), 2);
    assert!(!doc.history.settle_open());
    // The next transaction starts afresh.
    doc.begin_transaction("next");
    doc.edit_rename(a, "C");
    doc.commit_transaction();
    assert_eq!(doc.history.undo_len(), 3);
}

#[test]
fn an_edit_of_what_is_not_there_records_nothing() {
    let mut doc = SceneDoc::new();
    let ghost = Guid::from_u128(99);
    assert!(!doc.edit_rename(ghost, "X"));
    assert!(!doc.edit_set_visible(ghost, false));
    assert!(!doc.edit_set_transform(ghost, at(1.0)));
    assert!(!doc.edit_reparent(ghost, None));
    assert!(!doc.edit_delete(vec![ghost]));
    let a = create(&mut doc, 1, "A", None);
    let b = create(&mut doc, 2, "B", Some(a));
    assert!(!doc.edit_create(named(1, "again", None)));
    assert!(!doc.edit_reparent(a, Some(b)), "a parent cannot go below its child");
    assert!(!doc.edit_reparent(a, Some(ghost)));
    assert_eq!(doc.history.undo_len(), 2);
}

#[test]
fn the_history_keeps_the_newest_entries() {
    let mut doc = SceneDoc::new();
    let a = create(&mut doc, 1, "A", None);
    for i in 0..HISTORY_LIMIT + 20 {
        doc.edit_rename(a, &format!("n{i}"));
    }
    assert_eq!(doc.history.undo_len(), HISTORY_LIMIT);
    assert!(doc.undo());
    assert_eq!(record_of(&doc, a).unwrap().name, format!("n{}", HISTORY_LIMIT + 18));
    assert_eq!(doc.history.undo_len() + doc.history.redo_len(), HISTORY_LIMIT);
    doc.history.clear();
    assert!(!doc.history.can_undo() && !doc.history.can_redo());
}

fn sculpt(bytes: usize) -> EditCommand {
    EditCommand::SculptTerrain {
        guid: Guid::from_u128(1),
        delta: Box::new(LayerDelta { data: Component { bytes: vec![] }, memory_bytes: bytes }),
    }
}

#[test]
fn a_large_history_drops_its_oldest_entries() {
    let mut h = EditHistory::default();
    let third = HISTORY_BYTE_LIMIT / 3;
    for _ in 0..5 {
        h.record("Sculpt", sculpt(third));
    }
    assert_eq!(h.undo_len(), 2);
    assert!(h.memory_bytes() <= HISTORY_BYTE_LIMIT);
    // One entry that is over the bound alone is kept.
    h.record("Sculpt", sculpt(HISTORY_BYTE_LIMIT * 2));
    assert_eq!(h.undo_len(), 1);
    assert!(h.memory_bytes() > HISTORY_BYTE_LIMIT);
}

#[test]
fn footprints() {
    let base = std::mem::size_of::<EditCommand>();
    assert_eq!(sculpt(1000).memory_bytes(), base + 1000);
    assert_eq!(sculpt(usize::MAX).memory_bytes(), usize::MAX);
    let rename = EditCommand::Rename {
        guid: Guid::from_u128(1),
        before: "a".to_string(),
        after: "b".to_string(),
    };
    assert_eq!(rename.memory_bytes(), base);
    let delete = EditCommand::Delete {
        items: vec![(0, named(1, "A", None)), (1, named(2, "B", None))],
        tops: vec![],
    };
    assert_eq!(delete.memory_bytes(), base + 2 * RECORD_ESTIMATE);
    let tiles = EditCommand::SetTiles { guid: Guid::from_u128(1), cells: vec![(0, 0, 0, 1); 3] };
    assert_eq!(tiles.memory_bytes(), base + 3 * 16);
    let mut h = EditHistory::default();
    h.record("Sculpt", sculpt(1000));
    assert_eq!(h.memory_bytes(), base + 1000 + "Sculpt".len());
}

#[test]
fn what_the_document_does_not_hold_is_asked_of_the_host() {
    let mut doc = SceneDoc::new();
    let cmd = sculpt(10);
    {
        let work = cmd.apply(&mut doc);
        assert!(matches!(
            work,
            Some(HostWork::Terrain { layer: TerrainLayer::Heights, revert: false, .. })
        ));
    }
    {
        let work = cmd.revert(&mut doc);
        assert!(matches!(
            work,
            Some(HostWork::Terrain { layer: TerrainLayer::Heights, revert: true, .. })
        ));
    }
    assert_eq!(doc.version, 0);
    let spin = EditCommand::SetProp {
        guid: Guid::from_u128(1),
        type_path: "game::Body".to_string(),
        field: "spin".to_string(),
        before: PropValue::Number(f(1.0)),
        after: PropValue::Number(f(2.0)),
    };
    assert!(spin.needs_host());
    assert!(matches!(
        spin.host_work(true),
        Some(HostWork::WriteProp { value: PropValue::Number(v), .. }) if *v == f(1.0)
    ));
}

/// Apply a command, record it, and go back and forth: the record after it.
fn there_and_back(doc: &mut SceneDoc, guid: Guid, cmd: EditCommand) -> EntityRecord {
    let before = record_of(doc, guid).unwrap();
    assert!(cmd.apply(doc).is_none());
    doc.record_edit("Edit", cmd);
    let after = record_of(doc, guid).unwrap();
    assert_ne!(after, before);
    assert!(doc.undo());
    assert_eq!(record_of(doc, guid).unwrap(), before);
    assert!(doc.redo());
    assert_eq!(record_of(doc, guid).unwrap(), after);
    after
}

#[test]
fn a_property_of_the_transform_comes_back() {
    let mut doc = SceneDoc::new();
    let a = create(&mut doc, 1, "A", None);
    let v = |x: f64| Vec3d { x: f(x), y: f(x), z: f(x) };
    let cmd = EditCommand::SetProp {
        guid: a,
        type_path: "inf_ecs::components::Transform".to_string(),
        field: "scale".to_string(),
        before: PropValue::Vec3(v(1.0)),
        after: PropValue::Vec3(v(3.0)),
    };
    assert!(cmd.host_work(false).is_none());
    assert_eq!(there_and_back(&mut doc, a, cmd).transform.scale, v(3.0));
}

#[test]
fn a_material_binding_comes_back() {
    let mut doc = SceneDoc::new();
    let mut rec = named(1, "A", None);
    rec.material = Some(MaterialV7::default().into_current());
    assert!(doc.edit_create(rec));
    let (a, mat) = (Guid::from_u128(1), Guid::from_u128(0xAA));
    let cmd = EditCommand::SetMaterialAsset { guid: a, before: None, after: Some(mat) };
    assert_eq!(there_and_back(&mut doc, a, cmd).material.unwrap().asset, Some(mat));
    // Without a material there is nothing to bind.
    let b = create(&mut doc, 2, "B", None);
    let bind = EditCommand::SetMaterialAsset { guid: b, before: None, after: Some(mat) };
    bind.apply(&mut doc);
    assert!(record_of(&doc, b).unwrap().material.is_none());
}

#[test]
fn foliage_strokes_come_back() {
    let part = |b: u8| Component { bytes: vec![b] };
    let list = |bytes: &[u8]| bytes.iter().map(|b| part(*b)).collect::<Vec<_>>();
    let mut doc = SceneDoc::new();
    let mut rec = named(1, "Grass", None);
    rec.foliage = Some(Foliage { palette: part(0), instances: list(&[1, 2, 3, 4]) });
    assert!(doc.edit_create(rec));
    let a = Guid::from_u128(1);
    let scatter = EditCommand::PaintFoliage {
        guid: a,
        added: list(&[5, 6]),
        removed: vec![],
        instance_bytes: 56,
    };
    assert_eq!(scatter.memory_bytes(), std::mem::size_of::<EditCommand>() + 2 * 56);
    let after = there_and_back(&mut doc, a, scatter);
    assert_eq!(after.foliage.unwrap().instances, list(&[1, 2, 3, 4, 5, 6]));
    let erase = EditCommand::PaintFoliage {
        guid: a,
        added: vec![],
        removed: vec![(0, part(1)), (2, part(3)), (5, part(6))],
        instance_bytes: 56,
    };
    let after = there_and_back(&mut doc, a, erase);
    assert_eq!(after.foliage.unwrap().instances, list(&[2, 4, 5]));
}

#[test]
fn an_entry_is_replayed_command_by_command() {
    let mut doc = SceneDoc::new();
    let a = create(&mut doc, 1, "A", None);
    doc.begin_transaction("Bake");
    let height = sculpt(10);
    assert!(height.apply(&mut doc).is_some());
    doc.record_edit("Bake", height);
    doc.edit_rename(a, "B");
    doc.commit_transaction();

    assert!(doc.history.undo_needs_host() && !doc.history.redo_needs_host());
    let replay = doc.begin_undo().unwrap();
    assert_eq!((replay.len(), doc.history.redo_len()), (2, 0));
    assert!(replay.step(&mut doc, 0).is_none(), "the rename is the document's");
    assert_eq!(record_of(&doc, a).unwrap().name, "A");
    assert!(matches!(
        replay.step(&mut doc, 1),
        Some(HostWork::Terrain { layer: TerrainLayer::Heights, revert: true, .. })
    ));
    doc.finish_replay(replay);
    assert_eq!(doc.history.redo_label(), Some("Bake"));
    assert!(doc.history.redo_needs_host() && !doc.history.undo_needs_host());

    let replay = doc.begin_redo().unwrap();
    assert!(matches!(replay.step(&mut doc, 0), Some(HostWork::Terrain { revert: false, .. })));
    assert!(replay.step(&mut doc, 1).is_none());
    doc.finish_replay(replay);
    assert_eq!(record_of(&doc, a).unwrap().name, "B");
    assert_eq!(doc.history.undo_label(), Some("Bake"));
    assert!(doc.begin_redo().is_none());
}

#[test]
fn recording_forks_the_history_inside_a_transaction_too() {
    let mut doc = SceneDoc::new();
    let a = create(&mut doc, 1, "A", None);
    doc.edit_rename(a, "B");
    assert!(doc.undo());
    assert_eq!(doc.history.redo_len(), 1);
    doc.begin_transaction("drag");
    assert_eq!(doc.history.redo_len(), 1);
    let undoable = doc.history.undo_len();
    doc.edit_rename(a, "C");
    assert!(doc.history.has_open() && doc.history.is_wf());
    assert_eq!(doc.history.redo_len(), 0);
    assert_eq!(doc.history.undo_len(), undoable);
    doc.commit_transaction();
    assert_eq!(doc.history.undo_len(), undoable + 1);
}

#[test]
fn swapped_components_come_back() {
    let mut doc = SceneDoc::new();
    let a = create(&mut doc, 1, "A", None);
    let before = record_of(&doc, a).unwrap();
    let mut after = record_of(&doc, a).unwrap();
    after.camera = Some(Component { bytes: vec![1, 2, 3] });
    let cmd = EditCommand::SwapComponents {
        guid: a,
        before: Box::new(before),
        after: Box::new(after),
    };
    cmd.apply(&mut doc);
    doc.record_edit("Add Component", cmd);
    assert_eq!(record_of(&doc, a).unwrap().camera.unwrap().bytes, vec![1, 2, 3]);
    assert!(doc.undo());
    assert!(record_of(&doc, a).unwrap().camera.is_none());
    assert!(doc.redo());
    assert!(record_of(&doc, a).unwrap().camera.is_some());
}
