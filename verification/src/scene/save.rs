//! Projecting the document into a level file and back.

use crate::guid;
use crate::guid::Guid;
use crate::scene::doc;
use crate::scene::doc::{DocModel, SceneDoc};
use crate::scene::entity;
use crate::scene::entity::{write_record_components, EntityModel};
use crate::scene::file::{SceneFile, SceneFileModel, SCHEMA_VERSION};
use crate::scene::record::{EntityRecord, PartsModel, RecordModel};
use crate::scene::terrain::{TerrainData, TerrainDataModel, TerrainModel};
use crate::text;
use crate::text::hexadecimal;
use vstd::arithmetic::power;
use vstd::prelude::*;

verus! {

/// The record of one entity, where it is there.
pub fn record_of(doc: &SceneDoc, guid: Guid) -> (r: Option<EntityRecord>)
    ensures
        r is Some <==> doc::has(doc@.entities, guid),
        r matches Some(rec) ==> rec@ == doc@.entities[doc::find(
            doc@.entities,
            guid,
        ) as int].record(),
{
    let i = doc.index_of(guid);
    proof {
        doc::lemma_find(doc@.entities, guid);
    }
    if i < doc.entities.len() {
        proof {
            assert(doc@.entities[i as int] == doc.entities@[i as int]@);
        }
        Some(doc.entities[i].record())
    } else {
        None
    }
}

/// Where a projection of the document goes.
#[derive(Clone, Copy, Debug, PartialEq, Eq, Structural)]
pub enum ScenePersist {
    /// Into bytes. The tiles that were paged in from a terrain asset stay
    /// behind: the asset is their authority.
    File,
    /// Back onto the same document. Nothing stays behind.
    Memory,
}

/// A terrain as it goes into a file: one that refers to an asset leaves its
/// tiles behind.
pub open spec fn stripped_terrain(t: TerrainModel) -> TerrainModel {
    if t.asset is Some && t.data.tiles.len() > 0 {
        TerrainModel {
            data: TerrainDataModel::bare(t.tile_resolution, t.meters_per_sample),
            ..t
        }
    } else {
        t
    }
}

/// A record as it goes into a file.
pub open spec fn stripped(rec: RecordModel) -> RecordModel {
    RecordModel {
        parts: PartsModel {
            terrain: match rec.parts.terrain {
                Some(t) => Some(stripped_terrain(t)),
                None => None,
            },
            ..rec.parts
        },
        ..rec
    }
}

/// Drop the tiles of a terrain that refers to an asset.
pub fn strip_streamed_terrain(rec: EntityRecord) -> (r: EntityRecord)
    ensures
        r@ == stripped(rec@),
{
    let mut rec = rec;
    let ghost before = rec@;
    let t = rec.terrain;
    rec.terrain = match t {
        Some(mut t) => {
            if t.asset.is_some() && !t.data.is_empty() {
                t.data = TerrainData::new(t.tile_resolution, t.meters_per_sample);
            }
            Some(t)
        },
        None => None,
    };
    rec
}

/// The record an entity goes out as.
pub open spec fn outgoing(e: EntityModel, persist: ScenePersist) -> RecordModel {
    match persist {
        ScenePersist::File => stripped(e.record()),
        ScenePersist::Memory => e.record(),
    }
}

/// The records the document goes out as, in creation order.
pub open spec fn outgoing_all(entities: Seq<EntityModel>, persist: ScenePersist) -> Seq<RecordModel> {
    entities.map_values(|e: EntityModel| outgoing(e, persist))
}

/// The document as a level file.
pub open spec fn projected(d: DocModel, persist: ScenePersist) -> SceneFileModel {
    SceneFileModel {
        schema_version: SCHEMA_VERSION,
        title: d.title,
        entities: outgoing_all(d.entities, persist),
        settings: d.settings,
    }
}

/// Project the document into a level file for a file on disk.
pub fn to_scene_file(doc: &SceneDoc) -> (r: SceneFile)
    ensures
        r@ == projected(doc@, ScenePersist::File),
{
    to_scene_file_for(doc, ScenePersist::File)
}

/// Project the document into a level file.
pub fn to_scene_file_for(doc: &SceneDoc, persist: ScenePersist) -> (r: SceneFile)
    ensures
        r@ == projected(doc@, persist),
{
    let mut entities: Vec<EntityRecord> = Vec::new();
    let mut i: usize = 0;
    while i < doc.entities.len()
        invariant
            i <= doc.entities.len(),
            entities.len() == i,
            forall|j: int|
                0 <= j < i ==> (#[trigger] entities@[j])@ == outgoing(doc@.entities[j], persist),
        decreases doc.entities.len() - i,
    {
        proof {
            assert(doc@.entities[i as int] == doc.entities@[i as int]@);
        }
        let rec = doc.entities[i].record();
        let rec = match persist {
            ScenePersist::File => strip_streamed_terrain(rec),
            ScenePersist::Memory => rec,
        };
        entities.push(rec);
        i = i + 1;
    }
    let r = SceneFile {
        schema_version: SCHEMA_VERSION,
        title: doc.title.clone(),
        entities,
        settings: doc.settings,
    };
    proof {
        assert(r@.entities =~= projected(doc@, persist).entities);
    }
    r
}

// ---------------------------------------------------------------- loading

/// Whether a record of that identity is in the file.
pub open spec fn recorded(records: Seq<RecordModel>, guid: Guid) -> bool {
    exists|i: int| 0 <= i < records.len() && (#[trigger] records[i]).guid == guid
}

/// No identity occurs twice in the file.
pub open spec fn distinct_records(records: Seq<RecordModel>) -> bool {
    forall|i: int, j: int|
        #![trigger records[i], records[j]]
        0 <= i < j < records.len() ==> records[i].guid != records[j].guid
}

/// The parent a record ends up below: the one it names, wherever in the file it
/// is, and none where it is not in the file.
pub open spec fn link(records: Seq<RecordModel>, parent: Option<Guid>) -> Option<Guid> {
    match parent {
        Some(p) => if recorded(records, p) {
            Some(p)
        } else {
            None
        },
        None => None,
    }
}

/// The entities after the first `n` records were spawned, each below its parent
/// where that was spawned before it.
pub open spec fn spawned(records: Seq<RecordModel>, n: int) -> Seq<EntityModel>
    decreases n,
{
    if n <= 0 {
        Seq::empty()
    } else {
        let before = spawned(records, n - 1);
        let rec = records[n - 1];
        before.push(EntityModel::of_record(rec, doc::resolved(before, rec.parent)))
    }
}

/// The entities after the first `n` records were put below their parents.
pub open spec fn fixed_up(records: Seq<RecordModel>, entities: Seq<EntityModel>, n: int) -> Seq<
    EntityModel,
>
    decreases n,
{
    if n <= 0 {
        entities
    } else {
        doc::reattached(
            fixed_up(records, entities, n - 1),
            records[n - 1].guid,
            records[n - 1].parent,
        )
    }
}

/// The entities that come of any file: every record is spawned, and then every
/// record is put below its parent, the first entity of an identity standing for
/// it.
pub open spec fn rebuilt(records: Seq<RecordModel>) -> Seq<EntityModel> {
    fixed_up(records, spawned(records, records.len() as int), records.len() as int)
}

/// The entities that the records of a file describe, in the order of the file.
pub open spec fn loaded(records: Seq<RecordModel>) -> Seq<EntityModel> {
    records.map_values(|r: RecordModel| EntityModel::of_record(r, link(records, r.parent)))
}

/// Whether the records of a file have distinct identities.
pub fn has_distinct_guids(file: &SceneFile) -> (r: bool)
    ensures
        r == distinct_records(file@.entities),
{
    let n = file.entities.len();
    let mut i: usize = 0;
    while i < n
        invariant
            n == file.entities.len(),
            i <= n,
            forall|a: int, b: int|
                #![trigger file@.entities[a], file@.entities[b]]
                0 <= a < b < n && a < i ==> file@.entities[a].guid != file@.entities[b].guid,
        decreases n - i,
    {
        let mut j: usize = i + 1;
        while j < n
            invariant
                n == file.entities.len(),
                i < j <= n,
                forall|b: int|
                    i < b < j ==> file@.entities[i as int].guid != (#[trigger] file@.entities[b]).guid,
            decreases n - j,
        {
            proof {
                assert(file@.entities[i as int] == file.entities@[i as int]@);
                assert(file@.entities[j as int] == file.entities@[j as int]@);
            }
            if file.entities[i].guid == file.entities[j].guid {
                return false;
            }
            j = j + 1;
        }
        i = i + 1;
    }
    true
}

/// What the first pass has built after `n` records.
spec fn first_pass(records: Seq<RecordModel>, entities: Seq<EntityModel>, n: int) -> bool {
    &&& entities.len() == n
    &&& forall|i: int|
        0 <= i < n ==> (#[trigger] entities[i]) == EntityModel::of_record(
            records[i],
            link(records.take(i), records[i].parent),
        )
}

/// What the second pass has built after `n` of them.
spec fn second_pass(records: Seq<RecordModel>, entities: Seq<EntityModel>, n: int) -> bool {
    &&& entities.len() == records.len()
    &&& forall|i: int|
        0 <= i < records.len() ==> (#[trigger] entities[i]) == EntityModel::of_record(
            records[i],
            if i < n {
                link(records, records[i].parent)
            } else {
                link(records.take(i), records[i].parent)
            },
        )
}

proof fn lemma_has_is_recorded(records: Seq<RecordModel>, entities: Seq<EntityModel>, guid: Guid)
    requires
        entities.len() == records.len(),
        forall|i: int| 0 <= i < records.len() ==> (#[trigger] entities[i]).guid == records[i].guid,
    ensures
        doc::has(entities, guid) == recorded(records, guid),
{
    if doc::has(entities, guid) {
        let i = choose|i: int| 0 <= i < entities.len() && (#[trigger] entities[i]).guid == guid;
        assert(records[i].guid == guid);
    }
    if recorded(records, guid) {
        let i = choose|i: int| 0 <= i < records.len() && (#[trigger] records[i]).guid == guid;
        assert(entities[i].guid == guid);
    }
}

proof fn lemma_second_pass_step(records: Seq<RecordModel>, entities: Seq<EntityModel>, n: int)
    requires
        distinct_records(records),
        second_pass(records, entities, n),
        0 <= n < records.len(),
    ensures
        second_pass(
            records,
            doc::reattached(entities, records[n].guid, records[n].parent),
            n + 1,
        ),
{
    let rec = records[n];
    assert forall|i: int| 0 <= i < records.len() implies (#[trigger] entities[i]).guid
        == records[i].guid by {}
    assert forall|i: int, j: int|
        #![trigger entities[i], entities[j]]
        0 <= i < j < entities.len() implies entities[i].guid != entities[j].guid by {
        assert(records[i].guid != records[j].guid);
    }
    doc::lemma_find_in_distinct(entities, n);
    assert(entities[n].guid == rec.guid);
    let out = doc::reattached(entities, rec.guid, rec.parent);
    match rec.parent {
        Some(p) => {
            lemma_has_is_recorded(records, entities, p);
            if recorded(records, p) {
                assert(out[n] == EntityModel { parent: Some(p), ..entities[n] });
            } else {
                if recorded(records.take(n), p) {
                    let i = choose|i: int|
                        0 <= i < n && (#[trigger] records.take(n)[i]).guid == p;
                    assert(records[i].guid == p);
                }
            }
        },
        None => {},
    }
    assert forall|i: int| 0 <= i < records.len() implies (#[trigger] out[i])
        == EntityModel::of_record(
        records[i],
        if i < n + 1 {
            link(records, records[i].parent)
        } else {
            link(records.take(i), records[i].parent)
        },
    ) by {
        assert(entities[i] == EntityModel::of_record(
            records[i],
            if i < n {
                link(records, records[i].parent)
            } else {
                link(records.take(i), records[i].parent)
            },
        ));
    }
}

proof fn lemma_spawned(records: Seq<RecordModel>, n: int)
    requires
        0 <= n <= records.len(),
    ensures
        first_pass(records, spawned(records, n), n),
    decreases n,
{
    if n > 0 {
        lemma_spawned(records, n - 1);
        let before = spawned(records, n - 1);
        let seen = records.take(n - 1);
        assert forall|i: int| 0 <= i < n - 1 implies (#[trigger] before[i]).guid == seen[i].guid by {
            assert(seen[i] == records[i]);
        }
        match records[n - 1].parent {
            Some(p) => {
                lemma_has_is_recorded(seen, before, p);
            },
            None => {},
        }
    }
}

proof fn lemma_fixed_up(records: Seq<RecordModel>, n: int)
    requires
        distinct_records(records),
        0 <= n <= records.len(),
    ensures
        second_pass(records, fixed_up(records, spawned(records, records.len() as int), n), n),
    decreases n,
{
    if n > 0 {
        lemma_fixed_up(records, n - 1);
        lemma_second_pass_step(
            records,
            fixed_up(records, spawned(records, records.len() as int), n - 1),
            n - 1,
        );
    } else {
        lemma_spawned(records, records.len() as int);
    }
}

/// Where no identity occurs twice in a file, its entities are those that its
/// records describe, no identity occurs twice in the document, and every parent
/// is there.
pub proof fn law_distinct_records_load_as_described(records: Seq<RecordModel>)
    requires
        distinct_records(records),
    ensures
        rebuilt(records) == loaded(records),
        doc::distinct(rebuilt(records)),
        doc::attached(rebuilt(records)),
{
    lemma_fixed_up(records, records.len() as int);
    assert(rebuilt(records) =~= loaded(records));
    lemma_loaded_is_well_formed(records);
}

proof fn lemma_loaded_is_well_formed(records: Seq<RecordModel>)
    requires
        distinct_records(records),
    ensures
        doc::distinct(loaded(records)),
        doc::attached(loaded(records)),
{
    let out = loaded(records);
    assert forall|i: int, j: int| #![trigger out[i], out[j]] 0 <= i < j < out.len() implies out[i].guid
        != out[j].guid by {
        assert(records[i].guid != records[j].guid);
    }
    assert forall|i: int| 0 <= i < out.len() implies match (#[trigger] out[i]).parent {
        Some(p) => doc::has(out, p),
        None => true,
    } by {
        match out[i].parent {
            Some(p) => {
                lemma_has_is_recorded(records, out, p);
            },
            None => {},
        }
    }
}

/// Spawn the entity a record describes and write its components.
fn spawn_written(doc: &mut SceneDoc, rec: &EntityRecord)
    ensures
        final(doc)@ == (DocModel {
            entities: old(doc)@.entities.push(
                EntityModel::of_record(rec@, doc::resolved(old(doc)@.entities, rec@.parent)),
            ),
            ..old(doc)@
        }),
        final(doc).history == old(doc).history,
{
    let ghost before = doc@.entities;
    doc.spawn_bare(rec.guid, rec.name.as_str(), rec.parent);
    let ghost spawned = doc.entities@;
    proof {
        assert(doc@.entities.len() == before.len() + 1);
        assert(doc::models(spawned) == doc@.entities);
    }
    let last: usize = doc.entities.len() - 1;
    let ghost bare = EntityModel::bare(rec.guid, rec.name@, doc::resolved(before, rec@.parent));
    proof {
        assert(doc::models(spawned)[last as int] == spawned[last as int]@);
        assert(spawned[last as int]@ == bare);
        entity::law_written_record_reads_back(bare, rec@, false);
    }
    write_record_components(&mut doc.entities[last], rec, false);
    proof {
        let whole = EntityModel::of_record(rec@, doc::resolved(before, rec@.parent));
        assert(doc.entities@[last as int]@ == bare.written(rec@, false));
        assert(bare.written(rec@, false) == whole);
        assert forall|i: int| 0 <= i < last implies #[trigger] doc@.entities[i] == before[i] by {
            assert(doc.entities@[i] == spawned[i]);
            assert(doc::models(spawned)[i] == before[i]);
        }
        assert(doc@.entities[last as int] == whole);
        assert(doc@.entities =~= before.push(
            EntityModel::of_record(rec@, doc::resolved(before, rec@.parent)),
        ));
    }
}

/// Rebuild the document from a level file, in two passes: the first spawns every
/// entity, the second puts every child below its parent, so that the hierarchy
/// survives whatever the order of the file.
pub fn apply_to_doc(doc: &mut SceneDoc, file: &SceneFile)
    ensures
        final(doc)@ == (DocModel {
            entities: rebuilt(file@.entities),
            title: file@.title,
            settings: file@.settings,
            ..old(doc)@
        }).touched(),
        distinct_records(file@.entities) ==> final(doc).wf() && final(doc)@.entities == loaded(
            file@.entities,
        ),
        final(doc).history == old(doc).history,
{
    let ghost records = file@.entities;
    let ghost history = doc.history;
    let ghost start = doc@;
    doc.reset();
    let mut n: usize = 0;
    while n < file.entities.len()
        invariant
            records == file@.entities,
            n <= file.entities.len(),
            doc@ == (DocModel { entities: spawned(records, n as int), ..start }),
            doc.history == history,
        decreases file.entities.len() - n,
    {
        let rec = &file.entities[n];
        proof {
            assert(records[n as int] == rec@);
        }
        spawn_written(doc, rec);
        n = n + 1;
    }
    let ghost all = doc@.entities;
    let mut n: usize = 0;
    while n < file.entities.len()
        invariant
            records == file@.entities,
            n <= file.entities.len(),
            doc@ == (DocModel { entities: fixed_up(records, all, n as int), ..start }),
            doc.history == history,
        decreases file.entities.len() - n,
    {
        let rec = &file.entities[n];
        proof {
            assert(records[n as int] == rec@);
        }
        doc.raw_fixup_parent(rec.guid, rec.parent);
        n = n + 1;
    }
    proof {
        if distinct_records(records) {
            law_distinct_records_load_as_described(records);
        }
    }
    doc.set_title(file.title.as_str());
    doc.raw_set_settings(file.settings);
    doc.touch();
}

// ---------------------------------------------------------------- laws

/// A record that goes into a file has settled: stripping it again changes
/// nothing. An inline terrain and one that was never paged in are left alone,
/// and the reference to the asset always stays.
pub proof fn law_stripping(rec: RecordModel)
    ensures
        stripped(stripped(rec)) == stripped(rec),
        rec.parts.terrain is None ==> stripped(rec) == rec,
        rec.parts.terrain matches Some(t) && (t.asset is None || t.data.tiles.len() == 0)
            ==> stripped(rec) == rec,
        rec.parts.terrain matches Some(t) ==> (stripped(rec).parts.terrain matches Some(s) && s.asset
            == t.asset && (t.asset is Some ==> s.data.tiles.len() == 0)),
{
    if rec.parts.terrain is Some {
        let t = rec.parts.terrain->0;
        assert(stripped_terrain(stripped_terrain(t)) == stripped_terrain(t));
        if t.asset is None || t.data.tiles.len() == 0 {
            assert(stripped(rec).parts == rec.parts);
        }
    } else {
        assert(stripped(rec).parts == rec.parts);
    }
    assert(stripped(stripped(rec)).parts == stripped(rec).parts);
}

proof fn lemma_outgoing_links(entities: Seq<EntityModel>, persist: ScenePersist)
    requires
        doc::distinct(entities),
        doc::attached(entities),
    ensures
        distinct_records(outgoing_all(entities, persist)),
        forall|i: int|
            0 <= i < entities.len() ==> link(
                outgoing_all(entities, persist),
                (#[trigger] entities[i]).parent,
            ) == entities[i].parent,
{
    let records = outgoing_all(entities, persist);
    assert forall|i: int| 0 <= i < records.len() implies (#[trigger] records[i]).guid
        == entities[i].guid by {}
    assert forall|i: int, j: int|
        #![trigger records[i], records[j]]
        0 <= i < j < records.len() implies records[i].guid != records[j].guid by {
        assert(entities[i].guid != entities[j].guid);
    }
    assert forall|i: int| 0 <= i < entities.len() implies link(
        records,
        (#[trigger] entities[i]).parent,
    ) == entities[i].parent by {
        match entities[i].parent {
            Some(p) => {
                let h = choose|h: int| 0 <= h < entities.len() && (#[trigger] entities[h]).guid == p;
                assert(records[h].guid == p);
            },
            None => {},
        }
    }
}

/// Save, load, save gives the same file again, wherever it goes: every entity
/// in its place, every component, every parent.
pub proof fn law_save_load_save(d: DocModel, persist: ScenePersist)
    requires
        doc::distinct(d.entities),
        doc::attached(d.entities),
    ensures
        projected(
            DocModel { entities: rebuilt(projected(d, persist).entities), ..d },
            persist,
        ) == projected(d, persist),
{
    let records = outgoing_all(d.entities, persist);
    lemma_outgoing_links(d.entities, persist);
    law_distinct_records_load_as_described(records);
    let back = loaded(records);
    assert(outgoing_all(back, persist) =~= records) by {
        assert forall|i: int| 0 <= i < records.len() implies outgoing_all(back, persist)[i]
            == #[trigger] records[i] by {
            let e = d.entities[i];
            assert(records[i] == outgoing(e, persist));
            assert(records[i].parent == e.parent);
            assert(link(records, e.parent) == e.parent);
            assert(back[i] == EntityModel::of_record(records[i], e.parent));
            assert(back[i].record() == records[i]);
            law_stripping(e.record());
            assert(outgoing(back[i], persist) == records[i]);
        }
    }
}

/// A snapshot kept in memory restores the entities exactly as they were, tiles
/// of streamed terrain included.
pub proof fn law_memory_snapshot_restores(d: DocModel)
    requires
        doc::distinct(d.entities),
        doc::attached(d.entities),
        forall|i: int| 0 <= i < d.entities.len() ==> (#[trigger] d.entities[i]).complete(),
    ensures
        rebuilt(projected(d, ScenePersist::Memory).entities) == d.entities,
{
    let records = outgoing_all(d.entities, ScenePersist::Memory);
    lemma_outgoing_links(d.entities, ScenePersist::Memory);
    law_distinct_records_load_as_described(records);
    let back = loaded(records);
    assert(back =~= d.entities) by {
        assert forall|i: int| 0 <= i < d.entities.len() implies back[i] == #[trigger] d.entities[i] by {
            let e = d.entities[i];
            assert(records[i] == e.record());
            assert(link(records, e.parent) == e.parent);
            assert(e.complete());
        }
    }
}

/// The hierarchy survives whatever the order of the file: a child ends up below
/// its parent also where the parent comes later.
pub proof fn law_hierarchy_survives_any_order(records: Seq<RecordModel>, child: int, parent: int)
    requires
        0 <= child < records.len(),
        0 <= parent < records.len(),
        records[child].parent == Some(records[parent].guid),
        forall|i: int|
            0 <= i < records.len() && i != child ==> (#[trigger] records[i]).guid
                != records[child].guid,
    ensures
        rebuilt(records)[child].parent == Some(records[parent].guid),
{
    lemma_spawned(records, records.len() as int);
    lemma_child_is_attached(records, child, parent, records.len() as int);
}

proof fn lemma_child_is_attached(records: Seq<RecordModel>, child: int, parent: int, n: int)
    requires
        0 <= child < records.len(),
        0 <= parent < records.len(),
        0 <= n <= records.len(),
        records[child].parent == Some(records[parent].guid),
        forall|i: int|
            0 <= i < records.len() && i != child ==> (#[trigger] records[i]).guid
                != records[child].guid,
    ensures
        ({
            let out = fixed_up(records, spawned(records, records.len() as int), n);
            &&& out.len() == records.len()
            &&& forall|i: int|
                0 <= i < records.len() ==> (#[trigger] out[i]).guid == records[i].guid
            &&& n > child ==> out[child].parent == Some(records[parent].guid)
        }),
    decreases n,
{
    let all = spawned(records, records.len() as int);
    lemma_spawned(records, records.len() as int);
    if n > 0 {
        lemma_child_is_attached(records, child, parent, n - 1);
        let before = fixed_up(records, all, n - 1);
        let rec = records[n - 1];
        doc::lemma_find(before, rec.guid);
        assert(before[n - 1].guid == rec.guid);
        assert(doc::has(before, rec.guid));
        let at = doc::find(before, rec.guid) as int;
        assert(before[at].guid == records[at].guid);
        if n - 1 == child {
            assert(before[parent].guid == records[parent].guid);
            assert(doc::has(before, records[parent].guid));
            assert(at == child);
        } else {
            assert(at != child);
        }
    }
}

// ---------------------------------------------------------------- load

/// Whether a document holds a level as it was opened: all of it, and nothing
/// unsaved.
pub open spec fn opened(f: SceneFileModel, d: DocModel) -> bool {
    &&& d.entities == rebuilt(f.entities)
    &&& d.title == f.title
    &&& d.settings == f.settings
    &&& !d.dirty
}

/// Open a level that was read and decoded: a fresh document that holds it and
/// has nothing unsaved.
pub fn load(file: Result<SceneFile, String>) -> (r: Result<SceneDoc, String>)
    ensures
        match file {
            Ok(f) => r matches Ok(d) && {
                &&& opened(f@, d@)
                &&& distinct_records(f@.entities) ==> d.wf() && d@.entities == loaded(f@.entities)
                &&& d.history.is_fresh()
            },
            Err(e) => r is Err && r->Err_0 == e,
        },
{
    match file {
        Ok(f) => {
            let mut doc = SceneDoc::new();
            apply_to_doc(&mut doc, &f);
            doc.mark_saved();
            Ok(doc)
        },
        Err(e) => Err(e),
    }
}

/// A document that was saved and opened again is saved as the same file, byte
/// for byte where the encoding of a file depends on the file alone. It is well
/// formed, and nothing in it is unsaved.
pub proof fn law_opening_what_was_saved(d: DocModel, back: DocModel)
    requires
        doc::distinct(d.entities),
        doc::attached(d.entities),
        opened(projected(d, ScenePersist::File), back),
    ensures
        projected(back, ScenePersist::File) == projected(d, ScenePersist::File),
        !back.dirty,
        doc::distinct(back.entities),
        doc::attached(back.entities),
{
    law_save_load_save(d, ScenePersist::File);
    lemma_outgoing_links(d.entities, ScenePersist::File);
    law_distinct_records_load_as_described(outgoing_all(d.entities, ScenePersist::File));
}

// ---------------------------------------------------------------- sidecar

/// The 64-bit FNV-1a hash of the bytes.
pub open spec fn fnv(bytes: Seq<u8>) -> u64
    decreases bytes.len(),
{
    if bytes.len() == 0 {
        0xcbf2_9ce4_8422_2325
    } else {
        (fnv(bytes.drop_last()) ^ (bytes.last() as u64)).wrapping_mul(0x0000_0100_0000_01b3)
    }
}

/// A stable signal of the content, which moves when the payload does.
pub fn xxh3(bytes: &[u8]) -> (r: u64)
    ensures
        r == fnv(bytes@),
{
    let mut h: u64 = 0xcbf2_9ce4_8422_2325;
    let mut i: usize = 0;
    while i < bytes.len()
        invariant
            i <= bytes.len(),
            h == fnv(bytes@.take(i as int)),
        decreases bytes.len() - i,
    {
        proof {
            assert(bytes@.take(i + 1).drop_last() =~= bytes@.take(i as int));
        }
        h = (h ^ (bytes[i] as u64)).wrapping_mul(0x0000_0100_0000_01b3);
        i = i + 1;
    }
    proof {
        assert(bytes@.take(i as int) =~= bytes@);
    }
    h
}

/// A step of the hash loses nothing: states that differ lead to states that
/// differ.
proof fn lemma_step_is_injective(a: u64, b: u64)
    requires
        a.wrapping_mul(0x0000_0100_0000_01b3) == b.wrapping_mul(0x0000_0100_0000_01b3),
    ensures
        a == b,
{
    let p: int = 0x0000_0100_0000_01b3;
    let inverse: int = 0xce96_5057_aff6_957b;
    let k: int = 887285111055;
    let m: int = 0x1_0000_0000_0000_0000;
    let d = a - b;
    let x = (a * p) / m;
    let y = (b * p) / m;
    assert(a * p == m * x + (a * p) % m);
    assert(b * p == m * y + (b * p) % m);
    assert((a * p) % m == (b * p) % m);
    assert(d * p == m * (x - y)) by (nonlinear_arith)
        requires
            d == a - b,
            a * p == m * x + (a * p) % m,
            b * p == m * y + (b * p) % m,
            (a * p) % m == (b * p) % m,
    ;
    assert(p * inverse == 1 + k * m) by (nonlinear_arith)
        requires
            p == 0x0000_0100_0000_01b3,
            inverse == 0xce96_5057_aff6_957b,
            k == 887285111055,
            m == 0x1_0000_0000_0000_0000,
    ;
    assert(d == m * ((x - y) * inverse - d * k)) by (nonlinear_arith)
        requires
            d * p == m * (x - y),
            p * inverse == 1 + k * m,
    ;
    let q = (x - y) * inverse - d * k;
    assert(-m < d < m);
    assert(q == 0) by (nonlinear_arith)
        requires
            d == m * q,
            -m < d < m,
            m > 0,
    ;
}

proof fn lemma_one_byte(a: Seq<u8>, b: Seq<u8>, at: int)
    requires
        a.len() == b.len(),
        0 <= at < a.len(),
        a[at] != b[at],
        forall|i: int| 0 <= i < a.len() && i != at ==> (#[trigger] a[i]) == b[i],
    ensures
        fnv(a) != fnv(b),
    decreases a.len(),
{
    let h = fnv(a.drop_last());
    let g = fnv(b.drop_last());
    let x = a.last() as u64;
    let y = b.last() as u64;
    if at == a.len() - 1 {
        assert(a.drop_last() =~= b.drop_last());
        assert(h ^ x != h ^ y) by (bit_vector)
            requires
                x != y,
        ;
    } else {
        lemma_one_byte(a.drop_last(), b.drop_last(), at);
        assert(h ^ x != g ^ x) by (bit_vector)
            requires
                h != g,
        ;
    }
    if fnv(a) == fnv(b) {
        lemma_step_is_injective(h ^ x, g ^ y);
    }
}

/// The hash takes the bytes in one after the other, from the first: each is mixed
/// into the low byte, and the whole is multiplied by the prime and cut to 64 bits.
pub proof fn law_the_hash_takes_the_bytes_in_turn(bytes: Seq<u8>)
    ensures
        fnv(bytes) == bytes.fold_left(
            0xcbf2_9ce4_8422_2325u64,
            |h: u64, b: u8| (h ^ (b as u64)).wrapping_mul(0x0000_0100_0000_01b3),
        ),
    decreases bytes.len(),
{
    if bytes.len() > 0 {
        law_the_hash_takes_the_bytes_in_turn(bytes.drop_last());
    }
}

/// The hash in its text has sixteen lower-case hexadecimal digits, which read
/// back as the hash.
pub proof fn law_hash_text_reads_back(bytes: Seq<u8>)
    ensures
        ({
            let digits = text::hex_of(fnv(bytes) as nat, 16);
            &&& digits.len() == 16
            &&& forall|i: int| 0 <= i < 16 ==> text::is_hex(#[trigger] digits[i])
            &&& text::hex_read(digits) == fnv(bytes)
        }),
{
    text::law_hexadecimal_reads_back(fnv(bytes) as nat, 16);
    assert(power::pow(16, 16) == 0x1_0000_0000_0000_0000) by {
        reveal_with_fuel(power::pow, 17);
    }
}

/// The signal moves when the payload does: payloads of one length that differ
/// in one byte have different hashes, and different texts of them.
pub proof fn law_one_byte_moves_the_hash(a: Seq<u8>, b: Seq<u8>, at: int)
    requires
        a.len() == b.len(),
        0 <= at < a.len(),
        a[at] != b[at],
        forall|i: int| 0 <= i < a.len() && i != at ==> (#[trigger] a[i]) == b[i],
    ensures
        fnv(a) != fnv(b),
        text::hex_of(fnv(a) as nat, 16) != text::hex_of(fnv(b) as nat, 16),
{
    lemma_one_byte(a, b, at);
    law_hash_text_reads_back(a);
    law_hash_text_reads_back(b);
}

/// The hash as sixteen hexadecimal digits.
pub fn hash_hex(bytes: &[u8]) -> (r: String)
    ensures
        r@ == text::hex_of(fnv(bytes@) as nat, 16),
{
    hexadecimal(xxh3(bytes), 16)
}

/// The readable metadata beside a payload.
#[derive(Debug, PartialEq, Eq)]
pub struct Sidecar {
    pub schema_version: u32,
    pub guid: Guid,
    pub title: String,
    pub entity_count: u32,
    pub content_hash: String,
}

/// What a sidecar says.
pub struct SidecarModel {
    pub schema_version: u32,
    pub guid: Guid,
    pub title: Seq<char>,
    pub entity_count: u32,
    pub content_hash: Seq<char>,
}

impl View for Sidecar {
    type V = SidecarModel;

    open spec fn view(&self) -> SidecarModel {
        SidecarModel {
            schema_version: self.schema_version,
            guid: self.guid,
            title: self.title@,
            entity_count: self.entity_count,
            content_hash: self.content_hash@,
        }
    }
}

/// The sidecar of a document and its payload.
pub open spec fn sidecar_of(d: DocModel, guid: Guid, payload: Seq<u8>) -> SidecarModel {
    SidecarModel {
        schema_version: SCHEMA_VERSION,
        guid,
        title: d.title,
        entity_count: d.entities.len() as u32,
        content_hash: text::hex_of(fnv(payload) as nat, 16),
    }
}

/// What a sidecar tells: the version of the file, the identity, the title, how many
/// entities there are, and a hash of the payload in sixteen digits that reads back.
pub proof fn law_a_sidecar_tells_of_its_level(
    doc: SceneDoc,
    guid: Guid,
    payload: Seq<u8>,
    side: Sidecar,
)
    requires
        side@ == sidecar_of(doc@, guid, payload),
        doc.entities@.len() <= u32::MAX,
    ensures
        side.schema_version == 19,
        side.guid == guid,
        side.title@ == doc.title@,
        side.entity_count == doc.entities@.len(),
        side.content_hash@.len() == 16,
        text::hex_read(side.content_hash@) == fnv(payload),
{
    law_hash_text_reads_back(payload);
}

pub fn sidecar(doc: &SceneDoc, guid: Guid, payload: &[u8]) -> (r: Sidecar)
    ensures
        r@ == sidecar_of(doc@, guid, payload@),
{
    Sidecar {
        schema_version: SCHEMA_VERSION,
        guid,
        title: doc.title.clone(),
        entity_count: doc.entities.len() as u32,
        content_hash: hash_hex(payload),
    }
}

/// A scene ready to be written: its identity, its payload and its sidecar.
pub struct EncodedScene {
    pub guid: Guid,
    pub payload: Vec<u8>,
    pub sidecar: Sidecar,
}

/// Put a scene together for writing. `encoded` is what encoding the projected
/// document gave; the level keeps its identity where it has one and is given a
/// fresh one otherwise.
pub fn encode_scene(doc: &SceneDoc, encoded: Result<Vec<u8>, String>, guid: Option<Guid>) -> (r:
    Result<EncodedScene, String>)
    ensures
        match encoded {
            Ok(payload) => r matches Ok(scene) && {
                &&& scene.payload == payload
                &&& guid matches Some(g) ==> scene.guid == g
                &&& guid is None ==> guid::is_version_4(scene.guid.value)
                &&& scene.sidecar@ == sidecar_of(doc@, scene.guid, payload@)
            },
            Err(e) => r is Err && r->Err_0@ == "encode: "@ + e@,
        },
{
    match encoded {
        Ok(payload) => {
            let guid = match guid {
                Some(g) => g,
                None => Guid::mint(),
            };
            let sidecar = sidecar(doc, guid, payload.as_slice());
            Ok(EncodedScene { guid, payload, sidecar })
        },
        Err(e) => {
            let mut s = "encode: ".to_owned();
            s.append(e.as_str());
            Err(s)
        },
    }
}

} // verus!
