//! Previewing a sequence in the scene.

use inf_editor_core::bits::F64;
use inf_editor_core::guid::Guid;
use inf_editor_core::props::{PropRow, PropTable, PropValue};
use inf_editor_core::scene::component::{Component, Transform, Vec3d};
use inf_editor_core::scene::doc::SceneDoc;
use inf_editor_core::scene::record::EntityRecord;
use inf_editor_core::scene::save::record_of;
use inf_editor_core::sequencer::scrub::{
    apply_sequence_at, capture_snapshot, read_prop, read_scalar, restore_snapshot,
    write_scalar_preview,
};
use inf_editor_core::sequencer::sequence::Sequence;
use inf_editor_core::sequencer::track::Interp;

fn f(x: f64) -> F64 {
    F64::from_bits(x.to_bits())
}

fn row(guid: Guid, field: &str, value: PropValue) -> PropRow {
    PropRow {
        guid,
        type_path: "game::Body".to_string(),
        field: field.to_string(),
        value,
    }
}

/// A document with one cube, and the properties that the engine holds of it.
fn cube_scene() -> (SceneDoc, PropTable, Guid) {
    let cube = Guid::from_u128(0xC0BE);
    let mut doc = SceneDoc::new();
    assert!(doc.edit_create(EntityRecord::named(
        cube,
        "Cube".to_string(),
        None,
        Transform::identity()
    )));
    let table = PropTable {
        types: vec![
            ("Transform".to_string(), "inf_ecs::components::Transform".to_string()),
            ("Body".to_string(), "game::Body".to_string()),
        ],
        rows: vec![
            row(cube, "spin", PropValue::Vec3(Vec3d { x: f(1.0), y: f(2.0), z: f(3.0) })),
            row(cube, "weight", PropValue::Number(f(1.5))),
            row(cube, "tag", PropValue::Other(Component { bytes: vec![1, 2] })),
        ],
    };
    (doc, table, cube)
}

#[test]
fn read_and_write_scalar_addresses_vector_component() {
    let (mut doc, mut table, cube) = cube_scene();
    // Default translation is (0,0,0).
    assert_eq!(read_scalar(&doc, &table, cube, "Transform.translation.x"), Some(f(0.0)));

    assert!(write_scalar_preview(&mut doc, &mut table, cube, "Transform.translation.y", f(3.5)));
    assert_eq!(read_scalar(&doc, &table, cube, "Transform.translation.y"), Some(f(3.5)));
    // Only y changed; x and z stay 0.
    assert_eq!(read_scalar(&doc, &table, cube, "Transform.translation.x"), Some(f(0.0)));
    assert_eq!(read_scalar(&doc, &table, cube, "Transform.translation.z"), Some(f(0.0)));
}

#[test]
fn scrub_preview_never_dirties_the_document() {
    let (mut doc, mut table, cube) = cube_scene();
    doc.mark_saved(); // pretend the scene was just saved (clean)
    assert!(!doc.is_dirty());
    let v0 = doc.version;

    let mut seq = Sequence::new("s".to_string());
    seq.set_key(cube, "Transform.translation.x", f(0.0), f(0.0), Interp::Linear);
    seq.set_key(cube, "Transform.translation.x", f(2.0), f(10.0), Interp::Linear);

    let snap = capture_snapshot(&doc, &table, &seq);
    // Half way between 0 and 10.
    apply_sequence_at(&mut doc, &mut table, &seq, f(1.0), &vec![f(5.0)]);
    assert_eq!(read_scalar(&doc, &table, cube, "Transform.translation.x"), Some(f(5.0)));
    assert!(!doc.is_dirty(), "scrub preview must not dirty the scene");
    assert!(doc.version > v0, "but the version bumps so the viewport re-syncs");

    // Stop restores the captured original exactly, still clean.
    restore_snapshot(&mut doc, &mut table, &snap);
    assert_eq!(read_scalar(&doc, &table, cube, "Transform.translation.x"), Some(f(0.0)));
    assert!(!doc.is_dirty());
}

#[test]
fn capture_snapshot_dedupes_and_reads_current() {
    let (mut doc, mut table, cube) = cube_scene();
    write_scalar_preview(&mut doc, &mut table, cube, "Transform.translation.x", f(7.0));

    let mut seq = Sequence::new("s".to_string());
    // Two tracks on the same (target,path) — snapshot must dedupe.
    seq.set_key(cube, "Transform.translation.x", f(0.0), f(1.0), Interp::Linear);
    let twin = seq.tracks[0].clone();
    seq.tracks.push(twin);
    let snap = capture_snapshot(&doc, &table, &seq);
    assert_eq!(snap.saved.len(), 1);
    assert_eq!(snap.saved[0].2, f(7.0));
}

#[test]
fn a_preview_of_the_transform_is_in_the_document() {
    let (mut doc, mut table, cube) = cube_scene();
    doc.mark_saved();
    assert!(write_scalar_preview(&mut doc, &mut table, cube, "Transform.translation.y", f(3.5)));
    assert!(write_scalar_preview(&mut doc, &mut table, cube, "Transform.scale.z", f(2.0)));
    let t = record_of(&doc, cube).unwrap().transform;
    assert_eq!(t.translation, Vec3d { x: f(0.0), y: f(3.5), z: f(0.0) });
    assert_eq!(t.scale, Vec3d { x: f(1.0), y: f(1.0), z: f(2.0) });
    assert_eq!(table, cube_scene().1);
    assert!(!doc.is_dirty());
}

#[test]
fn properties_are_written_by_their_kind() {
    let (mut doc, mut table, cube) = cube_scene();
    let v = Vec3d { x: f(7.0), y: f(8.0), z: f(9.0) };
    let own = "inf_ecs::components::Transform";
    assert!(doc.write_prop_preview(&mut table, cube, own, "rotation", PropValue::Vec3(v)));
    assert_eq!(read_prop(&doc, &table, cube, own, "rotation"), Some(PropValue::Vec3(v)));
    assert!(!doc.write_prop_preview(&mut table, cube, own, "rotation", PropValue::Number(f(1.0))));
    assert!(!doc.write_prop_preview(&mut table, cube, own, "skew", PropValue::Vec3(v)));
    for other in ["Transform", "game::Transform", "inf_ecs::components::GlobalTransform"] {
        assert_eq!(read_prop(&doc, &table, cube, other, "rotation"), None);
    }
    assert!(doc.write_prop_preview(&mut table, cube, "game::Body", "spin", PropValue::Vec3(v)));
    assert_eq!(table.rows[0].value, PropValue::Vec3(v));
    assert!(!doc.write_prop_preview(&mut table, cube, "game::Body", "weight", PropValue::Vec3(v)));
}

#[test]
fn what_is_no_scalar_is_not_read_or_written() {
    let (mut doc, mut table, cube) = cube_scene();
    let v0 = doc.version;
    for path in [
        "Transform.translation",   // a vector without a swizzle
        "Transform.translation.w", // no fourth component
        "Transform.missing",
        "Body.spin",
        "Body.weight.x", // a number with a swizzle
        "Body.tag",      // another kind
        "Body.missing",
        "Light.weight",
        "nonsense",
    ] {
        assert_eq!(read_scalar(&doc, &table, cube, path), None, "{path}");
        assert!(!write_scalar_preview(&mut doc, &mut table, cube, path, f(9.0)), "{path}");
    }
    let nobody = Guid::from_u128(1);
    assert!(!write_scalar_preview(&mut doc, &mut table, nobody, "Body.weight", f(9.0)));
    assert!(!write_scalar_preview(&mut doc, &mut table, nobody, "Transform.scale.x", f(9.0)));
    assert_eq!(doc.version, v0);
    assert_eq!(table, cube_scene().1);
    assert!(write_scalar_preview(&mut doc, &mut table, cube, "Body.weight", f(9.0)));
    assert_eq!(read_scalar(&doc, &table, cube, "Body.weight"), Some(f(9.0)));
    assert_eq!(doc.version, v0 + 1);
}

#[test]
fn restoring_gives_the_scene_back() {
    let (mut doc, mut table, cube) = cube_scene();
    let mut seq = Sequence::new("s".to_string());
    for path in [
        "Transform.translation.x",
        "Transform.translation.r",
        "Body.spin.z",
        "Body.weight",
        "A.b",
    ] {
        seq.set_key(cube, path, f(0.0), f(4.0), Interp::Step);
    }
    let snap = capture_snapshot(&doc, &table, &seq);
    assert_eq!(snap.saved.len(), 4);
    apply_sequence_at(&mut doc, &mut table, &seq, f(0.0), &vec![f(0.0); 5]);
    assert_ne!(table, cube_scene().1);
    assert_ne!(record_of(&doc, cube), record_of(&cube_scene().0, cube));
    restore_snapshot(&mut doc, &mut table, &snap);
    assert_eq!(table, cube_scene().1);
    assert_eq!(record_of(&doc, cube), record_of(&cube_scene().0, cube));
}
