//! Scrubbing: previewing a sequence in the scene and taking the preview back.

use crate::bits::F64;
use crate::guid::Guid;
use crate::props;
use crate::props::{scalar_of, PropModel, PropTable, PropValue, RowModel, TableModel};
use crate::scene::component::Vec3d;
use crate::scene::doc;
use crate::scene::doc::{DocModel, SceneDoc};
use crate::scene::entity::EntityModel;
use crate::scene::reflect;
use crate::scene::reflect::{is_transform, read_field, transform_field, TransformField};
use crate::sequencer::path;
use crate::sequencer::path::split_path;
use crate::sequencer::sequence;
use crate::sequencer::sequence::{Sequence, TrackSampleModel};
use crate::sequencer::track::{Sample, TrackModel};
use crate::text::same_text;
use vstd::prelude::*;

verus! {

// ---------------------------------------------------------------- addresses

/// What can be previewed: the entities with the components that the document
/// spells out, and a table of the properties of all others.
pub struct StageModel {
    pub entities: Seq<EntityModel>,
    pub table: TableModel,
}

/// The stage of a document and a table.
pub open spec fn stage(d: DocModel, t: TableModel) -> StageModel {
    StageModel { entities: d.entities, table: t }
}

/// Where a property is: a field of an entity's transform, or a row of the table.
pub enum Spot {
    Own(int, TransformField),
    Row(int),
}

/// Where a scalar is: a property and the swizzle within it.
pub type Address = (Spot, Option<usize>);

/// Whether there is such a property.
pub open spec fn is_there(s: StageModel, spot: Spot) -> bool {
    match spot {
        Spot::Own(i, _) => 0 <= i < s.entities.len() && s.entities[i].transform is Some,
        Spot::Row(r) => 0 <= r < s.table.rows.len(),
    }
}

/// Where a field of a component of an entity is. The transform is the
/// document's own; every other component is in the table.
pub open spec fn spot_of(s: StageModel, target: Guid, type_path: Seq<char>, field: Seq<char>) -> Option<
    Spot,
> {
    if reflect::names_transform(type_path) {
        match reflect::field_named(field) {
            Some(f) => {
                let spot = Spot::Own(doc::find(s.entities, target) as int, f);
                if is_there(s, spot) {
                    Some(spot)
                } else {
                    None
                }
            },
            None => None,
        }
    } else {
        let spot = Spot::Row(props::row_at(s.table.rows, target, type_path, field) as int);
        if is_there(s, spot) {
            Some(spot)
        } else {
            None
        }
    }
}

/// What a property holds.
pub open spec fn value_at(s: StageModel, spot: Spot) -> PropModel {
    match spot {
        Spot::Own(i, f) => PropModel::Vec3(reflect::field_of(s.entities[i].transform->0, f)),
        Spot::Row(r) => s.table.rows[r].value,
    }
}

/// The stage with a property replaced by one of its kind.
pub open spec fn with_value(s: StageModel, spot: Spot, v: PropModel) -> StageModel {
    match spot {
        Spot::Own(i, f) => StageModel {
            entities: s.entities.update(
                i,
                EntityModel {
                    transform: Some(
                        reflect::with_field(s.entities[i].transform->0, f, v->Vec3_0),
                    ),
                    ..s.entities[i]
                },
            ),
            ..s
        },
        Spot::Row(r) => StageModel {
            table: TableModel {
                rows: s.table.rows.update(r, RowModel { value: v, ..s.table.rows[r] }),
                ..s.table
            },
            ..s
        },
    }
}

/// Where a scalar path leads in an entity.
pub open spec fn address(s: StageModel, target: Guid, path: Seq<char>) -> Option<Address> {
    match path::scalar_path(path) {
        Some((comp, field, swizzle)) => match props::type_of(s.table.types, comp) {
            Some(type_path) => match spot_of(s, target, type_path, field) {
                Some(spot) => Some((spot, swizzle)),
                None => None,
            },
            None => None,
        },
        None => None,
    }
}

/// The scalar at an address.
pub open spec fn at(s: StageModel, a: Address) -> Option<F64> {
    value_at(s, a.0).scalar(a.1)
}

/// The scalar a path leads to.
pub open spec fn scalar_at(s: StageModel, target: Guid, path: Seq<char>) -> Option<F64> {
    match address(s, target, path) {
        Some(a) => at(s, a),
        None => None,
    }
}

/// The stage with the scalar at an address replaced, where there is one.
pub open spec fn put_at(s: StageModel, a: Address, value: F64) -> Option<StageModel> {
    match value_at(s, a.0).with_scalar(a.1, value) {
        Some(v) => Some(with_value(s, a.0, v)),
        None => None,
    }
}

/// The stage with the scalar a path leads to replaced, where there is one.
pub open spec fn written(s: StageModel, target: Guid, path: Seq<char>, value: F64) -> Option<
    StageModel,
> {
    match address(s, target, path) {
        Some(a) => put_at(s, a, value),
        None => None,
    }
}

/// The stage with a property written, where it is there and the value is of its
/// kind.
pub open spec fn prop_written(
    s: StageModel,
    target: Guid,
    type_path: Seq<char>,
    field: Seq<char>,
    value: PropModel,
) -> Option<StageModel> {
    match spot_of(s, target, type_path, field) {
        Some(spot) => if value_at(s, spot).like(value) {
            Some(with_value(s, spot, value))
        } else {
            None
        },
        None => None,
    }
}

/// The version after a preview.
pub open spec fn next_version(version: u64) -> u64 {
    if version == u64::MAX {
        0
    } else {
        (version + 1) as u64
    }
}

/// The property of an entity, where it is there.
pub fn read_prop(doc: &SceneDoc, table: &PropTable, target: Guid, type_path: &str, field: &str) -> (r:
    Option<PropValue>)
    ensures
        match spot_of(stage(doc@, table@), target, type_path@, field@) {
            Some(spot) => r matches Some(v) && v@ == value_at(stage(doc@, table@), spot),
            None => r is None,
        },
{
    if is_transform(type_path) {
        let f = match transform_field(field) {
            Some(f) => f,
            None => {
                return None;
            },
        };
        let i = doc.index_of(target);
        if i >= doc.entities.len() {
            return None;
        }
        assert(doc@.entities[i as int] == doc.entities@[i as int]@);
        match &doc.entities[i].transform {
            Some(t) => Some(PropValue::Vec3(read_field(t, f))),
            None => None,
        }
    } else {
        let row = table.row_of(target, type_path, field);
        if row >= table.rows.len() {
            return None;
        }
        assert(table@.rows[row as int] == table.rows@[row as int]@);
        Some(table.rows[row].value.clone())
    }
}

/// The scalar that a path leads to now. Nothing where the path does not parse,
/// the component or the field is not there, or it is no scalar.
pub fn read_scalar(doc: &SceneDoc, table: &PropTable, target: Guid, path: &str) -> (r: Option<F64>)
    ensures
        r == scalar_at(stage(doc@, table@), target, path@),
{
    let (comp, field, swizzle) = match split_path(path) {
        Some(parts) => parts,
        None => {
            return None;
        },
    };
    let type_path = match table.type_path_for(comp) {
        Some(t) => t,
        None => {
            return None;
        },
    };
    match read_prop(doc, table, target, type_path.as_str(), field) {
        Some(value) => scalar_of(&value, swizzle),
        None => None,
    }
}

/// The value with one scalar replaced, where it has it.
fn with_scalar(value: &PropValue, swizzle: Option<usize>, scalar: F64) -> (r: Option<PropValue>)
    ensures
        match value@.with_scalar(swizzle, scalar) {
            Some(v) => r matches Some(w) && w@ == v,
            None => r is None,
        },
{
    match (value, swizzle) {
        (PropValue::Number(_), None) => Some(PropValue::Number(scalar)),
        (PropValue::Vec3(v), Some(i)) => if i == 0 {
            Some(PropValue::Vec3(Vec3d { x: scalar, y: v.y, z: v.z }))
        } else if i == 1 {
            Some(PropValue::Vec3(Vec3d { x: v.x, y: scalar, z: v.z }))
        } else if i == 2 {
            Some(PropValue::Vec3(Vec3d { x: v.x, y: v.y, z: scalar }))
        } else {
            None
        },
        _ => None,
    }
}

impl SceneDoc {
    /// Write a property as a preview: the version moves on, and the document is
    /// no more unsaved than it was. Whether the property is there and the value
    /// is of its kind is told.
    pub fn write_prop_preview(
        &mut self,
        table: &mut PropTable,
        target: Guid,
        type_path: &str,
        field: &str,
        value: PropValue,
    ) -> (r: bool)
        ensures
            final(self).history == old(self).history,
            match prop_written(
                stage(old(self)@, old(table)@),
                target,
                type_path@,
                field@,
                value@,
            ) {
                Some(s) => {
                    &&& r
                    &&& final(table)@ == s.table
                    &&& final(self)@ == (DocModel {
                        entities: s.entities,
                        version: next_version(old(self)@.version),
                        ..old(self)@
                    })
                },
                None => !r && final(table)@ == old(table)@ && final(self)@ == old(self)@,
            },
    {
        let ghost before = stage(self@, table@);
        let now = match read_prop(self, table, target, type_path, field) {
            Some(now) => now,
            None => {
                return false;
            },
        };
        if !now.same_variant(&value) {
            return false;
        }
        if is_transform(type_path) {
            match (transform_field(field), &value) {
                (Some(f), PropValue::Vec3(v)) => {
                    self.raw_set_transform_field(target, f, *v);
                },
                _ => {},
            }
        } else {
            let row = table.row_of(target, type_path, field);
            table.put(row, value);
        }
        proof {
            let spot = spot_of(before, target, type_path@, field@)->0;
            assert(self@.entities =~= with_value(before, spot, value@).entities);
        }
        self.version = self.version.wrapping_add(1);
        true
    }
}

/// Write a scalar into the scene as a preview; the other components of a vector
/// stay as they are. Whether there was such a scalar is told.
pub fn write_scalar_preview(
    doc: &mut SceneDoc,
    table: &mut PropTable,
    target: Guid,
    path: &str,
    value: F64,
) -> (r: bool)
    ensures
        final(doc).history == old(doc).history,
        match written(stage(old(doc)@, old(table)@), target, path@, value) {
            Some(s) => {
                &&& r
                &&& final(table)@ == s.table
                &&& final(doc)@ == (DocModel {
                    entities: s.entities,
                    version: next_version(old(doc)@.version),
                    ..old(doc)@
                })
            },
            None => !r && final(table)@ == old(table)@ && final(doc)@ == old(doc)@,
        },
{
    let (comp, field, swizzle) = match split_path(path) {
        Some(parts) => parts,
        None => {
            return false;
        },
    };
    let type_path: String = match table.type_path_for(comp) {
        Some(t) => t.clone(),
        None => {
            return false;
        },
    };
    let now = match read_prop(doc, table, target, type_path.as_str(), field) {
        Some(now) => now,
        None => {
            return false;
        },
    };
    match with_scalar(&now, swizzle, value) {
        Some(v) => doc.write_prop_preview(table, target, type_path.as_str(), field, v),
        None => false,
    }
}

// ---------------------------------------------------------------- session

/// A scalar to write: its entity, its path and its value.
pub open spec fn scalars(list: Seq<(Guid, String, F64)>) -> Seq<(Guid, Seq<char>, F64)> {
    list.map_values(|s: (Guid, String, F64)| (s.0, s.1@, s.2))
}

/// What was in the scene before scrubbing.
#[derive(Debug, PartialEq, Eq)]
pub struct ScrubSnapshot {
    /// The entity, the path and the scalar of every distinct track that led to
    /// one.
    pub saved: Vec<(Guid, String, F64)>,
}

/// Whether a scalar of that entity and path was saved.
pub open spec fn is_saved(saved: Seq<(Guid, Seq<char>, F64)>, target: Guid, path: Seq<char>) -> bool {
    exists|i: int|
        0 <= i < saved.len() && (#[trigger] saved[i]).0 == target && saved[i].1 == path
}

/// The snapshot of the first `n` tracks.
pub open spec fn captured(s: StageModel, tracks: Seq<TrackModel>, n: int) -> Seq<
    (Guid, Seq<char>, F64),
>
    decreases n,
{
    if n <= 0 {
        Seq::empty()
    } else {
        let before = captured(s, tracks, n - 1);
        let tr = tracks[n - 1];
        match scalar_at(s, tr.target, tr.path) {
            Some(v) => if is_saved(before, tr.target, tr.path) {
                before
            } else {
                before.push((tr.target, tr.path, v))
            },
            None => before,
        }
    }
}

fn has_saved(saved: &Vec<(Guid, String, F64)>, target: Guid, path: &str) -> (r: bool)
    ensures
        r == is_saved(scalars(saved@), target, path@),
{
    let mut i: usize = 0;
    while i < saved.len()
        invariant
            i <= saved.len(),
            forall|j: int|
                0 <= j < i ==> !((#[trigger] scalars(saved@)[j]).0 == target && scalars(
                    saved@,
                )[j].1 == path@),
        decreases saved.len() - i,
    {
        proof {
            let s = saved@[i as int];
            assert(scalars(saved@)[i as int] == (s.0, s.1@, s.2));
        }
        if saved[i].0 == target && same_text(saved[i].1.as_str(), path) {
            return true;
        }
        i = i + 1;
    }
    false
}

/// Take down what every distinct track of a sequence leads to now.
pub fn capture_snapshot(doc: &SceneDoc, table: &PropTable, seq: &Sequence) -> (r: ScrubSnapshot)
    ensures
        scalars(r.saved@) == captured(
            stage(doc@, table@),
            seq@.tracks,
            seq@.tracks.len() as int,
        ),
{
    let mut saved: Vec<(Guid, String, F64)> = Vec::new();
    let mut n: usize = 0;
    proof {
        assert(scalars(saved@) =~= Seq::<(Guid, Seq<char>, F64)>::empty());
    }
    while n < seq.tracks.len()
        invariant
            n <= seq.tracks.len(),
            scalars(saved@) == captured(stage(doc@, table@), seq@.tracks, n as int),
        decreases seq.tracks.len() - n,
    {
        let tr = &seq.tracks[n];
        proof {
            assert(seq@.tracks[n as int] == tr@);
        }
        if !has_saved(&saved, tr.target, tr.path.as_str()) {
            match read_scalar(doc, table, tr.target, tr.path.as_str()) {
                Some(v) => {
                    let s = (tr.target, tr.path.clone(), v);
                    proof {
                        assert(scalars(saved@.push(s)) =~= scalars(saved@).push((s.0, s.1@, s.2)));
                    }
                    saved.push(s);
                },
                None => {},
            }
        }
        n = n + 1;
    }
    ScrubSnapshot { saved }
}

/// The stage after the first `n` scalars were written, those that lead nowhere
/// left out.
pub open spec fn put_all(s: StageModel, list: Seq<(Guid, Seq<char>, F64)>, n: int) -> StageModel
    decreases n,
{
    if n <= 0 {
        s
    } else {
        let before = put_all(s, list, n - 1);
        match written(before, list[n - 1].0, list[n - 1].1, list[n - 1].2) {
            Some(after) => after,
            None => before,
        }
    }
}

/// The version after the first `n` scalars were written: each that led somewhere
/// moved it on.
pub open spec fn version_after(
    s: StageModel,
    version: u64,
    list: Seq<(Guid, Seq<char>, F64)>,
    n: int,
) -> u64
    decreases n,
{
    if n <= 0 {
        version
    } else {
        let before = version_after(s, version, list, n - 1);
        let w = list[n - 1];
        if written(put_all(s, list, n - 1), w.0, w.1, w.2) is Some {
            next_version(before)
        } else {
            before
        }
    }
}

/// The document after the first `n` scalars were written.
pub open spec fn doc_after(
    d: DocModel,
    t: TableModel,
    list: Seq<(Guid, Seq<char>, F64)>,
    n: int,
) -> DocModel {
    DocModel {
        entities: put_all(stage(d, t), list, n).entities,
        version: version_after(stage(d, t), d.version, list, n),
        ..d
    }
}

/// Write scalars as a preview, one after the other.
pub fn write_all(doc: &mut SceneDoc, table: &mut PropTable, list: &Vec<(Guid, String, F64)>)
    ensures
        final(table)@ == put_all(
            stage(old(doc)@, old(table)@),
            scalars(list@),
            list@.len() as int,
        ).table,
        final(doc)@ == doc_after(old(doc)@, old(table)@, scalars(list@), list@.len() as int),
        final(doc).history == old(doc).history,
{
    let mut n: usize = 0;
    while n < list.len()
        invariant
            n <= list.len(),
            table@ == put_all(stage(old(doc)@, old(table)@), scalars(list@), n as int).table,
            doc@ == doc_after(old(doc)@, old(table)@, scalars(list@), n as int),
            doc.history == old(doc).history,
        decreases list.len() - n,
    {
        proof {
            let s = list@[n as int];
            assert(scalars(list@)[n as int] == (s.0, s.1@, s.2));
            assert(stage(doc@, table@) == put_all(
                stage(old(doc)@, old(table)@),
                scalars(list@),
                n as int,
            ));
        }
        write_scalar_preview(doc, table, list[n].0, list[n].1.as_str(), list[n].2);
        n = n + 1;
    }
}

/// What a sample comes to: the value it holds, or the blend that was worked out
/// for it.
pub open spec fn value_of(sample: Sample, blend: F64) -> F64 {
    match sample {
        Sample::Hold(v) => v,
        Sample::Blend(_, _) => blend,
    }
}

/// The scalars that samples come to.
pub open spec fn valued(samples: Seq<TrackSampleModel>, blends: Seq<F64>) -> Seq<
    (Guid, Seq<char>, F64),
> {
    Seq::new(
        samples.len(),
        |i: int| (samples[i].target, samples[i].path, value_of(samples[i].sample, blends[i])),
    )
}

/// Preview a sequence at the time `t`. `blends` holds, for each sample of the
/// sequence at that time, what its blend comes to.
pub fn apply_sequence_at(
    doc: &mut SceneDoc,
    table: &mut PropTable,
    seq: &Sequence,
    t: F64,
    blends: &Vec<F64>,
)
    requires
        blends.len() == sequence::samples_of(seq@.tracks, t, seq@.tracks.len() as int).len(),
    ensures
        ({
            let samples = sequence::samples_of(seq@.tracks, t, seq@.tracks.len() as int);
            let list = valued(samples, blends@);
            &&& final(table)@ == put_all(
                stage(old(doc)@, old(table)@),
                list,
                list.len() as int,
            ).table
            &&& final(doc)@ == doc_after(old(doc)@, old(table)@, list, list.len() as int)
        }),
        final(doc).history == old(doc).history,
{
    let samples = sequence::sample(seq, t);
    let ghost models = sequence::samples_of(seq@.tracks, t, seq@.tracks.len() as int);
    let mut list: Vec<(Guid, String, F64)> = Vec::new();
    let mut n: usize = 0;
    while n < samples.len()
        invariant
            n <= samples.len(),
            samples@.map_values(|s: sequence::TrackSample| s@) == models,
            blends.len() == samples.len(),
            list.len() == n,
            forall|i: int|
                0 <= i < n ==> #[trigger] scalars(list@)[i] == valued(models, blends@)[i],
        decreases samples.len() - n,
    {
        let s = &samples[n];
        proof {
            assert(models[n as int] == s@);
        }
        let value = match s.sample {
            Sample::Hold(v) => v,
            Sample::Blend(_, _) => blends[n],
        };
        let row = (s.target, s.path.clone(), value);
        proof {
            assert(scalars(list@.push(row)) =~= scalars(list@).push((row.0, row.1@, row.2)));
        }
        list.push(row);
        n = n + 1;
    }
    proof {
        assert(samples@.map_values(|s: sequence::TrackSample| s@).len() == samples@.len());
        assert(scalars(list@) =~= valued(models, blends@));
    }
    write_all(doc, table, &list);
}

/// Put back what was in the scene before scrubbing.
pub fn restore_snapshot(doc: &mut SceneDoc, table: &mut PropTable, snapshot: &ScrubSnapshot)
    ensures
        final(table)@ == put_all(
            stage(old(doc)@, old(table)@),
            scalars(snapshot.saved@),
            snapshot.saved@.len() as int,
        ).table,
        final(doc)@ == doc_after(
            old(doc)@,
            old(table)@,
            scalars(snapshot.saved@),
            snapshot.saved@.len() as int,
        ),
        final(doc).history == old(doc).history,
{
    write_all(doc, table, &snapshot.saved);
}

// ---------------------------------------------------------------- laws

/// What was written is what is read.
pub proof fn law_written_scalar_is_read(t: StageModel, target: Guid, path: Seq<char>, value: F64)
    ensures
        written(t, target, path, value) is Some <==> scalar_at(t, target, path) is Some,
        written(t, target, path, value) matches Some(u) ==> scalar_at(u, target, path) == Some(value),
{
    if written(t, target, path, value) is Some {
        let a = address(t, target, path)->0;
        let u = written(t, target, path, value)->0;
        lemma_put_at(t, a, value);
        lemma_address_of_shape(t, u, target, path);
    }
}

/// A write changes the one scalar it is addressed to: every scalar at another
/// address, the other components of the same vector among them, stays.
pub proof fn law_write_changes_one_scalar(
    t: StageModel,
    target: Guid,
    path: Seq<char>,
    value: F64,
    other: Guid,
    other_path: Seq<char>,
)
    requires
        address(t, other, other_path) != address(t, target, path),
    ensures
        written(t, target, path, value) matches Some(u) ==> scalar_at(u, other, other_path)
            == scalar_at(t, other, other_path),
{
    if written(t, target, path, value) is Some {
        let a = address(t, target, path)->0;
        let u = written(t, target, path, value)->0;
        lemma_put_at(t, a, value);
        lemma_address_of_shape(t, u, other, other_path);
        if let Some(b) = address(t, other, other_path) {
            lemma_address_bounds(t, other, other_path);
            assert(at(u, b) == at(t, b));
        }
    }
}

/// Scrubbing leaves no trace: whatever was previewed on the tracks of a
/// sequence, putting the snapshot back gives the scene as it was.
pub proof fn law_restore_gives_back_the_scene(
    t: StageModel,
    tracks: Seq<TrackModel>,
    previews: Seq<(Guid, Seq<char>, F64)>,
)
    requires
        forall|i: int|
            0 <= i < previews.len() ==> on_a_track(tracks, (#[trigger] previews[i]).0, previews[i].1),
    ensures
        ({
            let saved = captured(t, tracks, tracks.len() as int);
            put_all(put_all(t, previews, previews.len() as int), saved, saved.len() as int) == t
        }),
{
    let saved = captured(t, tracks, tracks.len() as int);
    let shown = put_all(t, previews, previews.len() as int);
    lemma_previews(t, tracks, previews, previews.len() as int);
    lemma_captured(t, tracks, tracks.len() as int);
    lemma_restores(t, tracks, shown, saved, saved.len() as int);
    let back = put_all(shown, saved, saved.len() as int);
    assert forall|a: Address| is_there(t, a.0) implies #[trigger] at(back, a)
        == at(t, a) by {
        if at(back, a) != at(t, a) {
            let j = choose|j: int|
                0 <= j < tracks.len() && #[trigger] address(t, tracks[j].target, tracks[j].path)
                    == Some(a);
            lemma_scalar_of_kind(t, back, a);
            assert(scalar_at(t, tracks[j].target, tracks[j].path) is Some);
            assert(is_saved(saved, tracks[j].target, tracks[j].path));
            let i = choose|i: int|
                0 <= i < saved.len() && (#[trigger] saved[i]).0 == tracks[j].target && saved[i].1
                    == tracks[j].path;
            assert(address(t, saved[i].0, saved[i].1) == Some(a));
        }
    }
    lemma_same_scalars(t, back);
}

/// A preview never makes a document unsaved: it changes nothing of it but its
/// version and the transforms of its entities.
pub proof fn law_preview_never_dirties(
    d: DocModel,
    t: TableModel,
    list: Seq<(Guid, Seq<char>, F64)>,
    n: int,
)
    ensures
        ({
            let after = doc_after(d, t, list, n);
            &&& after == (DocModel { version: after.version, entities: after.entities, ..d })
            &&& after.entities.len() == d.entities.len()
            &&& forall|i: int|
                0 <= i < d.entities.len() ==> (#[trigger] after.entities[i]) == (EntityModel {
                    transform: after.entities[i].transform,
                    ..d.entities[i]
                })
        }),
{
    lemma_shape_after(stage(d, t), list, n);
}

proof fn lemma_shape_after(s: StageModel, list: Seq<(Guid, Seq<char>, F64)>, n: int)
    ensures
        same_shape(s, put_all(s, list, n)),
    decreases n,
{
    if n > 0 {
        lemma_shape_after(s, list, n - 1);
        let before = put_all(s, list, n - 1);
        let (target, path, value) = list[n - 1];
        if written(before, target, path, value) is Some {
            lemma_put_at(before, address(before, target, path)->0, value);
        }
    }
}

/// A preview of a sequence writes on its tracks alone.
pub proof fn law_preview_stays_on_the_tracks(tracks: Seq<TrackModel>, t: F64, blends: Seq<F64>)
    ensures
        ({
            let list = valued(sequence::samples_of(tracks, t, tracks.len() as int), blends);
            forall|i: int|
                0 <= i < list.len() ==> on_a_track(tracks, (#[trigger] list[i]).0, list[i].1)
        }),
{
    lemma_samples_on_tracks(tracks, t, tracks.len() as int);
}

/// Whether a track is that of an entity and a path.
pub open spec fn on_a_track(tracks: Seq<TrackModel>, target: Guid, path: Seq<char>) -> bool {
    exists|j: int|
        0 <= j < tracks.len() && (#[trigger] tracks[j]).target == target && tracks[j].path == path
}

proof fn lemma_samples_on_tracks(tracks: Seq<TrackModel>, t: F64, n: int)
    requires
        n <= tracks.len(),
    ensures
        forall|i: int|
            #![trigger sequence::samples_of(tracks, t, n)[i]]
            0 <= i < sequence::samples_of(tracks, t, n).len() ==> on_a_track(
                tracks,
                sequence::samples_of(tracks, t, n)[i].target,
                sequence::samples_of(tracks, t, n)[i].path,
            ),
    decreases n,
{
    if n > 0 {
        lemma_samples_on_tracks(tracks, t, n - 1);
        let before = sequence::samples_of(tracks, t, n - 1);
        let now = sequence::samples_of(tracks, t, n);
        assert forall|i: int| #![trigger now[i]] 0 <= i < now.len() implies on_a_track(
            tracks,
            now[i].target,
            now[i].path,
        ) by {
            if i < before.len() {
                assert(now[i] == before[i]);
            } else {
                assert(now[i].target == tracks[n - 1].target);
            }
        }
    }
}

/// Whether two stages have the same properties, but for the scalars in them.
spec fn same_shape(t: StageModel, u: StageModel) -> bool {
    &&& t.table.types == u.table.types
    &&& t.table.rows.len() == u.table.rows.len()
    &&& forall|i: int|
        #![trigger t.table.rows[i]]
        #![trigger u.table.rows[i]]
        0 <= i < t.table.rows.len() ==> {
            &&& t.table.rows[i].guid == u.table.rows[i].guid
            &&& t.table.rows[i].type_path == u.table.rows[i].type_path
            &&& t.table.rows[i].field == u.table.rows[i].field
            &&& t.table.rows[i].value.same_kind(u.table.rows[i].value)
        }
    &&& t.entities.len() == u.entities.len()
    &&& forall|i: int|
        #![trigger t.entities[i]]
        #![trigger u.entities[i]]
        0 <= i < t.entities.len() ==> {
            &&& u.entities[i] == (EntityModel {
                transform: u.entities[i].transform,
                ..t.entities[i]
            })
            &&& t.entities[i].transform is Some <==> u.entities[i].transform is Some
        }
}

proof fn lemma_find_of_shape(a: Seq<EntityModel>, b: Seq<EntityModel>, guid: Guid)
    requires
        a.len() == b.len(),
        forall|i: int|
            #![trigger a[i]]
            #![trigger b[i]]
            0 <= i < a.len() ==> a[i].guid == b[i].guid,
    ensures
        doc::find(a, guid) == doc::find(b, guid),
    decreases a.len(),
{
    if a.len() > 0 {
        assert(a[0].guid == b[0].guid);
        let c = a.drop_first();
        let d = b.drop_first();
        assert forall|i: int| #![trigger c[i]] #![trigger d[i]] 0 <= i < c.len() implies c[i].guid
            == d[i].guid by {
            assert(c[i] == a[i + 1]);
            assert(d[i] == b[i + 1]);
        }
        lemma_find_of_shape(c, d, guid);
    }
}

proof fn lemma_row_of_shape(
    a: Seq<RowModel>,
    b: Seq<RowModel>,
    guid: Guid,
    type_path: Seq<char>,
    field: Seq<char>,
)
    requires
        a.len() == b.len(),
        forall|i: int|
            #![trigger a[i]]
            #![trigger b[i]]
            0 <= i < a.len() ==> a[i].guid == b[i].guid && a[i].type_path == b[i].type_path
                && a[i].field == b[i].field,
    ensures
        props::row_at(a, guid, type_path, field) == props::row_at(b, guid, type_path, field),
    decreases a.len(),
{
    if a.len() > 0 {
        assert(a[0].guid == b[0].guid);
        let c = a.drop_first();
        let d = b.drop_first();
        assert forall|i: int| #![trigger c[i]] #![trigger d[i]] 0 <= i < c.len() implies c[i].guid
            == d[i].guid && c[i].type_path == d[i].type_path && c[i].field == d[i].field by {
            assert(c[i] == a[i + 1]);
            assert(d[i] == b[i + 1]);
        }
        lemma_row_of_shape(c, d, guid, type_path, field);
    }
}

proof fn lemma_address_of_shape(t: StageModel, u: StageModel, target: Guid, path: Seq<char>)
    requires
        same_shape(t, u),
    ensures
        address(t, target, path) == address(u, target, path),
{
    if let Some((comp, field, swizzle)) = path::scalar_path(path) {
        if let Some(type_path) = props::type_of(t.table.types, comp) {
            lemma_row_of_shape(t.table.rows, u.table.rows, target, type_path, field);
            lemma_find_of_shape(t.entities, u.entities, target);
            let i = doc::find(t.entities, target) as int;
            if i < t.entities.len() {
                assert(t.entities[i].transform is Some <==> u.entities[i].transform is Some);
            }
        }
    }
}

proof fn lemma_address_bounds(t: StageModel, target: Guid, path: Seq<char>)
    ensures
        address(t, target, path) matches Some(a) ==> is_there(t, a.0),
{
}

proof fn lemma_put_at(t: StageModel, a: Address, value: F64)
    requires
        is_there(t, a.0),
        put_at(t, a, value) is Some,
    ensures
        same_shape(t, put_at(t, a, value)->0),
        at(put_at(t, a, value)->0, a) == Some(value),
        forall|b: Address|
            b != a && is_there(t, b.0) ==> #[trigger] at(put_at(t, a, value)->0, b) == at(
                t,
                b,
            ),
{
    let u = put_at(t, a, value)->0;
    assert forall|b: Address| b != a && is_there(t, b.0) implies #[trigger] at(
        u,
        b,
    ) == at(t, b) by {
        if b.0 == a.0 {
            assert(b.1 != a.1);
        }
    }
}

/// Where two stages of one shape differ in a scalar, both have it.
proof fn lemma_scalar_of_kind(t: StageModel, u: StageModel, a: Address)
    requires
        same_shape(t, u),
        is_there(t, a.0),
    ensures
        at(t, a) is Some <==> at(u, a) is Some,
{
    match a.0 {
        Spot::Own(i, _) => {
            assert(t.entities[i].transform is Some <==> u.entities[i].transform is Some);
        },
        Spot::Row(r) => {
            assert(t.table.rows[r].value.same_kind(u.table.rows[r].value));
        },
    }
}

/// Two stages of one shape that agree in every scalar are the same.
proof fn lemma_same_scalars(t: StageModel, u: StageModel)
    requires
        same_shape(t, u),
        forall|a: Address|
            is_there(t, a.0) ==> #[trigger] at(u, a) == at(t, a),
    ensures
        t == u,
{
    assert forall|i: int| 0 <= i < t.table.rows.len() implies #[trigger] t.table.rows[i]
        == u.table.rows[i] by {
        let spot = Spot::Row(i);
        assert(t.table.rows[i].value.same_kind(u.table.rows[i].value));
        assert(at(u, (spot, None)) == at(t, (spot, None)));
        assert(at(u, (spot, Some(0usize))) == at(t, (spot, Some(0usize))));
        assert(at(u, (spot, Some(1usize))) == at(t, (spot, Some(1usize))));
        assert(at(u, (spot, Some(2usize))) == at(t, (spot, Some(2usize))));
    }
    assert(t.table.rows =~= u.table.rows);
    assert forall|i: int| 0 <= i < t.entities.len() implies #[trigger] t.entities[i]
        == u.entities[i] by {
        if t.entities[i].transform is Some {
            lemma_same_field(t, u, i, TransformField::Translation);
            lemma_same_field(t, u, i, TransformField::Rotation);
            lemma_same_field(t, u, i, TransformField::Scale);
        }
    }
    assert(t.entities =~= u.entities);
}

proof fn lemma_same_field(t: StageModel, u: StageModel, i: int, f: TransformField)
    requires
        same_shape(t, u),
        0 <= i < t.entities.len(),
        t.entities[i].transform is Some,
        forall|a: Address| is_there(t, a.0) ==> #[trigger] at(u, a) == at(t, a),
    ensures
        reflect::field_of(t.entities[i].transform->0, f) == reflect::field_of(
            u.entities[i].transform->0,
            f,
        ),
{
    let spot = Spot::Own(i, f);
    assert(at(u, (spot, Some(0usize))) == at(t, (spot, Some(0usize))));
    assert(at(u, (spot, Some(1usize))) == at(t, (spot, Some(1usize))));
    assert(at(u, (spot, Some(2usize))) == at(t, (spot, Some(2usize))));
}

/// Two stages of one shape differ only in scalars that the tracks lead to.
spec fn differ_on_tracks(t: StageModel, u: StageModel, tracks: Seq<TrackModel>) -> bool {
    &&& same_shape(t, u)
    &&& forall|a: Address|
        is_there(t, a.0) && #[trigger] at(u, a) != at(t, a) ==> exists|j: int|
            0 <= j < tracks.len() && #[trigger] address(t, tracks[j].target, tracks[j].path)
                == Some(a)
}

proof fn lemma_previews(
    t: StageModel,
    tracks: Seq<TrackModel>,
    previews: Seq<(Guid, Seq<char>, F64)>,
    n: int,
)
    requires
        n <= previews.len(),
        forall|i: int|
            0 <= i < previews.len() ==> on_a_track(tracks, (#[trigger] previews[i]).0, previews[i].1),
    ensures
        differ_on_tracks(t, put_all(t, previews, n), tracks),
    decreases n,
{
    if n > 0 {
        lemma_previews(t, tracks, previews, n - 1);
        let before = put_all(t, previews, n - 1);
        let (target, path, value) = previews[n - 1];
        if written(before, target, path, value) is Some {
            let a = address(before, target, path)->0;
            let after = written(before, target, path, value)->0;
            lemma_put_at(before, a, value);
            lemma_address_of_shape(t, before, target, path);
            assert(on_a_track(tracks, previews[n - 1].0, previews[n - 1].1));
            let j = choose|j: int|
                0 <= j < tracks.len() && (#[trigger] tracks[j]).target == target && tracks[j].path
                    == path;
            assert(address(t, tracks[j].target, tracks[j].path) == Some(a));
            assert(same_shape(t, after));
            assert forall|b: Address|
                is_there(t, b.0) && #[trigger] at(after, b) != at(t, b) implies exists|j: int|

                0 <= j < tracks.len() && #[trigger] address(t, tracks[j].target, tracks[j].path)
                    == Some(b) by {
                if b != a {
                    assert(at(after, b) == at(before, b));
                }
            }
        }
    }
}

/// Every track that led to a scalar was saved with it, and nothing else was.
proof fn lemma_captured(t: StageModel, tracks: Seq<TrackModel>, n: int)
    requires
        n <= tracks.len(),
    ensures
        ({
            let saved = captured(t, tracks, n);
            &&& forall|i: int|
                0 <= i < saved.len() ==> scalar_at(t, (#[trigger] saved[i]).0, saved[i].1) == Some(
                    saved[i].2,
                )
            &&& forall|j: int|
                #![trigger tracks[j]]
                0 <= j < n && scalar_at(t, tracks[j].target, tracks[j].path) is Some ==> is_saved(
                    saved,
                    tracks[j].target,
                    tracks[j].path,
                )
        }),
    decreases n,
{
    if n > 0 {
        lemma_captured(t, tracks, n - 1);
        let before = captured(t, tracks, n - 1);
        let now = captured(t, tracks, n);
        assert forall|j: int|
            #![trigger tracks[j]]
            0 <= j < n && scalar_at(t, tracks[j].target, tracks[j].path) is Some implies is_saved(
            now,
            tracks[j].target,
            tracks[j].path,
        ) by {
            let tr = tracks[j];
            if is_saved(before, tr.target, tr.path) {
                let i = choose|i: int|
                    0 <= i < before.len() && (#[trigger] before[i]).0 == tr.target && before[i].1
                        == tr.path;
                assert(now[i] == before[i]);
            } else {
                assert(j == n - 1);
                assert(now[before.len() as int].0 == tr.target);
            }
        }
    }
}

/// What was put back agrees with the scene; the rest differs on tracks alone.
proof fn lemma_restores(
    t: StageModel,
    tracks: Seq<TrackModel>,
    shown: StageModel,
    saved: Seq<(Guid, Seq<char>, F64)>,
    n: int,
)
    requires
        n <= saved.len(),
        differ_on_tracks(t, shown, tracks),
        forall|i: int|
            0 <= i < saved.len() ==> scalar_at(t, (#[trigger] saved[i]).0, saved[i].1) == Some(
                saved[i].2,
            ),
    ensures
        differ_on_tracks(t, put_all(shown, saved, n), tracks),
        forall|i: int, a: Address|
            0 <= i < n && #[trigger] address(t, saved[i].0, saved[i].1) == Some(a) ==> #[trigger] at(
                put_all(shown, saved, n),
                a,
            ) == at(t, a),
    decreases n,
{
    if n > 0 {
        lemma_restores(t, tracks, shown, saved, n - 1);
        let before = put_all(shown, saved, n - 1);
        let after = put_all(shown, saved, n);
        let (target, path, value) = saved[n - 1];
        lemma_address_of_shape(t, before, target, path);
        assert(scalar_at(t, saved[n - 1].0, saved[n - 1].1) == Some(value));
        let a = address(t, target, path)->0;
        lemma_scalar_of_kind(t, before, a);
        assert(written(before, target, path, value) == Some(after));
        lemma_put_at(before, a, value);
        assert(same_shape(t, after));
        assert forall|b: Address|
            is_there(t, b.0) && #[trigger] at(after, b) != at(t, b) implies exists|j: int|

            0 <= j < tracks.len() && #[trigger] address(t, tracks[j].target, tracks[j].path)
                == Some(b) by {
            if b != a {
                assert(at(after, b) == at(before, b));
            }
        }
        assert forall|i: int, b: Address|
            0 <= i < n && #[trigger] address(t, saved[i].0, saved[i].1) == Some(
                b,
            ) implies #[trigger] at(after, b) == at(t, b) by {
            if b != a {
                assert(at(after, b) == at(before, b));
                assert(i < n - 1);
            }
        }
    }
}

/// What a path reads of an entity's transform: the component stands for the
/// transform, and the letter picks one of the three numbers of the field.
pub proof fn law_a_path_reads_the_transform(
    doc: SceneDoc,
    table: PropTable,
    path: Seq<char>,
    n: int,
    i: int,
)
    requires
        0 <= n < table.types@.len(),
        table.types@[n].1@ == "inf_ecs::components::Transform"@,
        forall|m: int| 0 <= m < n ==> (#[trigger] table.types@[m]).0@ != table.types@[n].0@,
        0 <= i < doc.entities@.len(),
        forall|j: int| 0 <= j < i ==> (#[trigger] doc.entities@[j]).guid != doc.entities@[i].guid,
        path::scalar_path(path) is Some,
        (path::scalar_path(path)->0).0 == table.types@[n].0@,
    ensures
        ({
            let (_, field, letter) = path::scalar_path(path)->0;
            let r = scalar_at(stage(doc@, table@), doc.entities@[i].guid, path);
            match (doc.entities@[i].transform, letter) {
                (Some(t), Some(k)) => if k < 3 && field == "translation"@ {
                    r == Some(
                        if k == 0 {
                            t.translation.x
                        } else if k == 1 {
                            t.translation.y
                        } else {
                            t.translation.z
                        },
                    )
                } else if k < 3 && field == "rotation"@ {
                    r == Some(
                        if k == 0 {
                            t.rotation.x
                        } else if k == 1 {
                            t.rotation.y
                        } else {
                            t.rotation.z
                        },
                    )
                } else if k < 3 && field == "scale"@ {
                    r == Some(
                        if k == 0 {
                            t.scale.x
                        } else if k == 1 {
                            t.scale.y
                        } else {
                            t.scale.z
                        },
                    )
                } else {
                    r is None
                },
                _ => r is None,
            }
        }),
{
    let all = doc@.entities;
    lemma_type_of(table@.types, n);
    let g = doc.entities@[i].guid;
    assert(all[i] == doc.entities@[i]@);
    assert forall|j: int| 0 <= j < i implies (#[trigger] all[j]).guid != g by {
        assert(all[j] == doc.entities@[j]@);
    }
    doc::lemma_find(all, g);
    assert(doc::has(all, g));
    let k = doc::find(all, g) as int;
    if k > i {
        assert(all[i].guid != g);
    }
    reveal_strlit("translation");
    reveal_strlit("rotation");
    reveal_strlit("scale");
    assert("translation"@.len() == 11);
    assert("rotation"@.len() == 8);
    assert("scale"@.len() == 5);
    assert(table@.types[n] == (table.types@[n].0@, table.types@[n].1@));
}

proof fn lemma_type_of(types: Seq<(Seq<char>, Seq<char>)>, n: int)
    requires
        0 <= n < types.len(),
        forall|m: int| 0 <= m < n ==> (#[trigger] types[m]).0 != types[n].0,
    ensures
        props::type_of(types, types[n].0) == Some(types[n].1),
    decreases n,
{
    if n > 0 {
        let rest = types.drop_first();
        assert(types[0].0 != types[n].0);
        assert forall|m: int| 0 <= m < n - 1 implies (#[trigger] rest[m]).0 != rest[n - 1].0 by {
            assert(rest[m] == types[m + 1]);
        }
        lemma_type_of(rest, n - 1);
    }
}

proof fn lemma_row_at(rows: Seq<RowModel>, n: int)
    requires
        0 <= n < rows.len(),
        forall|m: int|
            0 <= m < n ==> !((#[trigger] rows[m]).guid == rows[n].guid && rows[m].type_path
                == rows[n].type_path && rows[m].field == rows[n].field),
    ensures
        props::row_at(rows, rows[n].guid, rows[n].type_path, rows[n].field) == n,
    decreases n,
{
    if n > 0 {
        let rest = rows.drop_first();
        assert(!(rows[0].guid == rows[n].guid && rows[0].type_path == rows[n].type_path
            && rows[0].field == rows[n].field));
        assert forall|m: int| 0 <= m < n - 1 implies !((#[trigger] rest[m]).guid == rest[n - 1].guid
            && rest[m].type_path == rest[n - 1].type_path && rest[m].field == rest[n - 1].field) by {
            assert(rest[m] == rows[m + 1]);
        }
        lemma_row_at(rest, n - 1);
    }
}

/// What a path reads of any other component: the row of the entity, the type and
/// the field. A number is read whole and without a letter, a vector by one of
/// three letters, and nothing else is a scalar.
pub proof fn law_a_path_reads_its_row(
    doc: SceneDoc,
    table: PropTable,
    path: Seq<char>,
    n: int,
    r: int,
)
    requires
        0 <= n < table.types@.len(),
        table.types@[n].1@ != "inf_ecs::components::Transform"@,
        forall|m: int| 0 <= m < n ==> (#[trigger] table.types@[m]).0@ != table.types@[n].0@,
        0 <= r < table.rows@.len(),
        forall|m: int|
            0 <= m < r ==> !((#[trigger] table.rows@[m]).guid == table.rows@[r].guid
                && table.rows@[m].type_path@ == table.rows@[r].type_path@ && table.rows@[m].field@
                == table.rows@[r].field@),
        path::scalar_path(path) is Some,
        (path::scalar_path(path)->0).0 == table.types@[n].0@,
        (path::scalar_path(path)->0).1 == table.rows@[r].field@,
        table.rows@[r].type_path@ == table.types@[n].1@,
    ensures
        ({
            let letter = (path::scalar_path(path)->0).2;
            let got = scalar_at(stage(doc@, table@), table.rows@[r].guid, path);
            match (table.rows@[r].value, letter) {
                (PropValue::Number(x), None) => got == Some(x),
                (PropValue::Vec3(v), Some(k)) => if k == 0 {
                    got == Some(v.x)
                } else if k == 1 {
                    got == Some(v.y)
                } else if k == 2 {
                    got == Some(v.z)
                } else {
                    got is None
                },
                _ => got is None,
            }
        }),
{
    let rows = table@.rows;
    lemma_type_of(table@.types, n);
    assert(table@.types[n] == (table.types@[n].0@, table.types@[n].1@));
    assert(rows[r] == table.rows@[r]@);
    assert forall|m: int| 0 <= m < r implies !((#[trigger] rows[m]).guid == rows[r].guid
        && rows[m].type_path == rows[r].type_path && rows[m].field == rows[r].field) by {
        assert(rows[m] == table.rows@[m]@);
    }
    lemma_row_at(rows, r);
}

/// Of scalars that are written one after the other, each that leads somewhere is
/// read back, unless a later one leads to the same place.
pub proof fn law_the_last_write_is_read(
    s: StageModel,
    list: Seq<(Guid, Seq<char>, F64)>,
    n: int,
    i: int,
)
    requires
        0 <= i < n <= list.len(),
        scalar_at(s, list[i].0, list[i].1) is Some,
        forall|j: int|
            i < j < n ==> address(s, (#[trigger] list[j]).0, list[j].1) != address(
                s,
                list[i].0,
                list[i].1,
            ),
    ensures
        scalar_at(put_all(s, list, n), list[i].0, list[i].1) == Some(list[i].2),
    decreases n,
{
    let before = put_all(s, list, n - 1);
    lemma_shape_after(s, list, n - 1);
    lemma_address_of_shape(s, before, list[n - 1].0, list[n - 1].1);
    lemma_address_of_shape(s, before, list[i].0, list[i].1);
    lemma_address_bounds(s, list[i].0, list[i].1);
    lemma_scalar_of_kind(s, before, address(s, list[i].0, list[i].1)->0);
    if i == n - 1 {
        law_written_scalar_is_read(before, list[i].0, list[i].1, list[i].2);
    } else {
        law_the_last_write_is_read(s, list, n - 1, i);
        law_write_changes_one_scalar(
            before,
            list[n - 1].0,
            list[n - 1].1,
            list[n - 1].2,
            list[i].0,
            list[i].1,
        );
    }
}

/// A preview writes what was sampled: where a sample holds a value, that value, and
/// where it blends, the blend that was worked out for it.
pub proof fn law_a_preview_writes_its_samples(samples: Seq<TrackSampleModel>, blends: Seq<F64>, i: int)
    requires
        0 <= i < samples.len(),
    ensures
        valued(samples, blends).len() == samples.len(),
        valued(samples, blends)[i].0 == samples[i].target,
        valued(samples, blends)[i].1 == samples[i].path,
        match samples[i].sample {
            Sample::Hold(v) => valued(samples, blends)[i].2 == v,
            Sample::Blend(_, _) => valued(samples, blends)[i].2 == blends[i],
        },
{
}

} // verus!
