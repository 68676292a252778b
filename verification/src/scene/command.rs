//! Edit commands: the undoable changes of a document.
//!
//! A command records what was there before it and what is there after it. It
//! goes forward and back through the document's raw changes, which record
//! nothing themselves.

use crate::guid::Guid;
use crate::props::PropValue;
use crate::scene::component::{blob, blobs, Component, Transform};
use crate::scene::doc;
use crate::scene::doc::{DocModel, SceneDoc};
use crate::scene::entity::EntityModel;
use crate::scene::foliage;
use crate::scene::paint;
use crate::scene::record::{EntityRecord, RecordModel};
use crate::scene::reflect;
use crate::scene::reflect::is_transform;
use crate::scene::settings::LevelSettings;
use vstd::layout;
use vstd::prelude::*;

verus! {

/// What one record is charged in a command's footprint.
pub const RECORD_ESTIMATE: usize = 4096;

/// The sparse record of one stroke on a terrain layer, by its encoded form and
/// its footprint.
#[derive(Debug, PartialEq, Eq)]
pub struct LayerDelta {
    pub data: Component,
    pub memory_bytes: usize,
}

/// The sparse record of a cut in a voxel volume.
#[derive(Debug, PartialEq, Eq)]
pub struct VoxelDelta {
    pub data: Component,
    pub memory_bytes: usize,
    /// The number of sample patches; none where the cut moved no sample.
    pub patches: usize,
}

/// The sparse record of the holes that a cut opened in a terrain.
#[derive(Debug, PartialEq, Eq)]
pub struct HoleDelta {
    pub data: Component,
    pub memory_bytes: usize,
    pub patches: usize,
}

/// One undoable change.
#[allow(inconsistent_fields)]
pub enum EditCommand {
    /// A created entity and its place in creation order.
    Create { at: usize, record: Box<EntityRecord> },
    /// A deleted subtree: the records with the places they had, and the
    /// entities that were deleted by name.
    Delete { items: Vec<(usize, EntityRecord)>, tops: Vec<Guid> },
    Rename { guid: Guid, before: String, after: String },
    Reparent { guid: Guid, before: Option<Guid>, after: Option<Guid> },
    SetVisible { guid: Guid, before: bool, after: bool },
    SetTransform { guid: Guid, before: Transform, after: Transform },
    SetProp { guid: Guid, type_path: String, field: String, before: PropValue, after: PropValue },
    /// The whole sprite component; nothing where there is none.
    SetSprite { guid: Guid, before: Option<Component>, after: Option<Component> },
    /// One tile-painting stroke: the touched cells as `(x, y, before, after)`.
    SetTiles { guid: Guid, cells: Vec<(i32, i32, u32, u32)> },
    /// The actor class an entity is bound to.
    SetActor { guid: Guid, before: Option<Guid>, after: Option<Guid> },
    /// The material asset an entity's material is bound to.
    SetMaterialAsset { guid: Guid, before: Option<Guid>, after: Option<Guid> },
    /// One sculpting stroke.
    SculptTerrain { guid: Guid, delta: Box<LayerDelta> },
    SetLevelSettings { old: LevelSettings, new: LevelSettings },
    /// One splat-painting stroke.
    PaintSplat { guid: Guid, delta: Box<LayerDelta> },
    /// One biome-painting stroke.
    PaintBiome { guid: Guid, delta: Box<LayerDelta> },
    /// The data-map half of one erosion bake.
    WriteDataMaps { guid: Guid, delta: Box<LayerDelta> },
    /// A component added or removed: the whole component set before and after.
    SwapComponents { guid: Guid, before: Box<EntityRecord>, after: Box<EntityRecord> },
    /// One foliage stroke: the instances added, and those removed with the
    /// places they had, in ascending order. `instance_bytes` is what one
    /// instance takes in memory.
    PaintFoliage {
        guid: Guid,
        added: Vec<Component>,
        removed: Vec<(usize, Component)>,
        instance_bytes: usize,
    },
    /// One cut in a voxel volume and the holes it opened in the ground above,
    /// terrain by terrain.
    CarveVoxels { volume: Guid, delta: Box<VoxelDelta>, holes: Vec<(Guid, HoleDelta)> },
}

/// A layer of a terrain that strokes are recorded of.
#[derive(Clone, Copy, Debug, PartialEq, Eq, Structural)]
pub enum TerrainLayer {
    Heights,
    Splat,
    Biomes,
    DataMaps,
}

/// The part of a command that the host carries out, in components the document
/// does not look into.
#[allow(inconsistent_fields)]
pub enum HostWork<'a> {
    WriteProp { guid: Guid, type_path: &'a String, field: &'a String, value: &'a PropValue },
    Terrain { guid: Guid, layer: TerrainLayer, delta: &'a LayerDelta, revert: bool },
    Carve {
        volume: Guid,
        delta: &'a VoxelDelta,
        holes: &'a Vec<(Guid, HoleDelta)>,
        revert: bool,
    },
}

// ---------------------------------------------------------------- footprint

/// The largest footprint that can be told.
pub open spec fn capped(n: int) -> int {
    if n <= usize::MAX {
        n
    } else {
        usize::MAX as int
    }
}

pub fn times(a: usize, b: usize) -> (r: usize)
    ensures
        r == capped(a * b),
{
    match a.checked_mul(b) {
        Some(x) => x,
        None => usize::MAX,
    }
}

/// The footprints of the first `n` hole records together.
pub open spec fn holes_bytes(holes: Seq<(Guid, HoleDelta)>, n: int) -> int
    decreases n,
{
    if n <= 0 {
        0
    } else {
        holes_bytes(holes, n - 1) + holes[n - 1].1.memory_bytes
    }
}

impl EditCommand {
    /// What the command holds beyond its own size.
    pub open spec fn payload_bytes(self) -> int {
        match self {
            EditCommand::Create { .. } => RECORD_ESTIMATE as int,
            EditCommand::Delete { items, .. } => items@.len() * RECORD_ESTIMATE,
            EditCommand::SwapComponents { .. } => 2 * RECORD_ESTIMATE,
            EditCommand::SculptTerrain { delta, .. } => delta.memory_bytes as int,
            EditCommand::PaintSplat { delta, .. } => delta.memory_bytes as int,
            EditCommand::PaintBiome { delta, .. } => delta.memory_bytes as int,
            EditCommand::WriteDataMaps { delta, .. } => delta.memory_bytes as int,
            EditCommand::SetTiles { cells, .. } => (cells@.len() * layout::size_of::<
                (i32, i32, u32, u32),
            >()) as int,
            EditCommand::PaintFoliage { added, removed, instance_bytes, .. } => capped(
                (added@.len() + removed@.len()) as int,
            ) * instance_bytes,
            EditCommand::CarveVoxels { delta, holes, .. } => delta.memory_bytes + holes_bytes(
                holes@,
                holes@.len() as int,
            ),
            _ => 0,
        }
    }

    /// The approximate footprint of the command.
    pub open spec fn cost(self) -> int {
        capped(layout::size_of::<EditCommand>() + capped(self.payload_bytes()))
    }

    pub fn memory_bytes(&self) -> (r: usize)
        ensures
            r == self.cost(),
    {
        let base = std::mem::size_of::<EditCommand>();
        let payload = match self {
            EditCommand::Create { .. } => RECORD_ESTIMATE,
            EditCommand::Delete { items, .. } => times(items.len(), RECORD_ESTIMATE),
            EditCommand::SwapComponents { .. } => 2 * RECORD_ESTIMATE,
            EditCommand::SculptTerrain { delta, .. } => delta.memory_bytes,
            EditCommand::PaintSplat { delta, .. } => delta.memory_bytes,
            EditCommand::PaintBiome { delta, .. } => delta.memory_bytes,
            EditCommand::WriteDataMaps { delta, .. } => delta.memory_bytes,
            EditCommand::SetTiles { cells, .. } => times(
                cells.len(),
                std::mem::size_of::<(i32, i32, u32, u32)>(),
            ),
            EditCommand::PaintFoliage { added, removed, instance_bytes, .. } => times(
                added.len().saturating_add(removed.len()),
                *instance_bytes,
            ),
            EditCommand::CarveVoxels { delta, holes, .. } => {
                let mut total = delta.memory_bytes;
                let mut i: usize = 0;
                while i < holes.len()
                    invariant
                        i <= holes.len(),
                        total == capped(delta.memory_bytes + holes_bytes(holes@, i as int)),
                    decreases holes.len() - i,
                {
                    total = total.saturating_add(holes[i].1.memory_bytes);
                    i = i + 1;
                }
                total
            },
            EditCommand::Rename { .. }
            | EditCommand::Reparent { .. }
            | EditCommand::SetVisible { .. }
            | EditCommand::SetTransform { .. }
            | EditCommand::SetProp { .. }
            | EditCommand::SetSprite { .. }
            | EditCommand::SetActor { .. }
            | EditCommand::SetMaterialAsset { .. }
            | EditCommand::SetLevelSettings { .. } => 0,
        };
        base.saturating_add(payload)
    }
}

// ---------------------------------------------------------------- order

/// A record with the place it had.
pub type Item = (int, RecordModel);

/// What the items of a deletion hold.
pub open spec fn items_of(items: Seq<(usize, EntityRecord)>) -> Seq<Item> {
    items.map_values(|p: (usize, EntityRecord)| (p.0 as int, p.1@))
}

/// The number of leading items whose place is not after `at`.
pub open spec fn count_not_after(items: Seq<Item>, at: int) -> nat
    decreases items.len(),
{
    if items.len() == 0 || items[0].0 > at {
        0
    } else {
        1 + count_not_after(items.drop_first(), at)
    }
}

/// The items in the order of their places; items of one place stay in the order
/// they had.
pub open spec fn by_place(items: Seq<Item>) -> Seq<Item>
    decreases items.len(),
{
    if items.len() == 0 {
        items
    } else {
        let rest = by_place(items.drop_last());
        let x = items.last();
        rest.insert(count_not_after(rest, x.0) as int, x)
    }
}

proof fn lemma_count_not_after(items: Seq<Item>, at: int)
    ensures
        count_not_after(items, at) <= items.len(),
        forall|i: int| 0 <= i < count_not_after(items, at) ==> (#[trigger] items[i]).0 <= at,
        count_not_after(items, at) < items.len() ==> items[count_not_after(items, at) as int].0 > at,
    decreases items.len(),
{
    if items.len() > 0 && items[0].0 <= at {
        let rest = items.drop_first();
        lemma_count_not_after(rest, at);
        assert forall|i: int| 0 <= i < count_not_after(items, at) implies (#[trigger] items[i]).0
            <= at by {
            if i > 0 {
                assert(items[i] == rest[i - 1]);
            }
        }
        let n = count_not_after(items, at) as int;
        if n < items.len() {
            assert(items[n] == rest[n - 1]);
        }
    }
}

/// Items in the order of their places.
pub open spec fn places_ascend(items: Seq<Item>) -> bool {
    forall|i: int, j: int|
        #![trigger items[i], items[j]]
        0 <= i < j < items.len() ==> items[i].0 <= items[j].0
}

/// Ordering items by place puts them in order and keeps each of them.
pub proof fn law_by_place_orders(items: Seq<Item>, x: Item)
    ensures
        places_ascend(by_place(items)),
        by_place(items).len() == items.len(),
        by_place(items).contains(x) <==> items.contains(x),
    decreases items.len(),
{
    if items.len() > 0 {
        let rest = by_place(items.drop_last());
        let last = items.last();
        law_by_place_orders(items.drop_last(), x);
        lemma_count_not_after(rest, last.0);
        let p = count_not_after(rest, last.0) as int;
        let out = by_place(items);
        assert forall|i: int, j: int| #![trigger out[i], out[j]] 0 <= i < j < out.len() implies out[i].0
            <= out[j].0 by {
            if j < p {
                assert(out[i] == rest[i] && out[j] == rest[j]);
            } else if j == p {
                assert(out[i] == rest[i]);
            } else if i == p {
                assert(out[j] == rest[j - 1]);
                if j - 1 > p {
                    assert(rest[p].0 <= rest[j - 1].0);
                }
            } else if i < p {
                assert(out[i] == rest[i] && out[j] == rest[j - 1]);
            } else {
                assert(out[i] == rest[i - 1] && out[j] == rest[j - 1]);
            }
        }
        if items.contains(x) {
            let i = choose|i: int| 0 <= i < items.len() && items[i] == x;
            if i == items.len() - 1 {
                assert(out[p] == x);
            } else {
                assert(items.drop_last()[i] == x);
                let j = choose|j: int| 0 <= j < rest.len() && rest[j] == x;
                if j < p {
                    assert(out[j] == x);
                } else {
                    assert(out[j + 1] == x);
                }
            }
        }
        if out.contains(x) {
            let j = choose|j: int| 0 <= j < out.len() && out[j] == x;
            if j == p {
                assert(items[items.len() - 1] == x);
            } else {
                if j < p {
                    assert(rest[j] == x);
                } else {
                    assert(rest[j - 1] == x);
                }
                let i = choose|i: int|
                    0 <= i < items.drop_last().len() && items.drop_last()[i] == x;
                assert(items[i] == x);
            }
        }
    }
}

/// Items that are in order already stay as they are.
pub proof fn lemma_by_place_of_ascending(items: Seq<Item>)
    requires
        places_ascend(items),
    ensures
        by_place(items) == items,
    decreases items.len(),
{
    if items.len() > 0 {
        let rest = items.drop_last();
        assert forall|i: int, j: int| #![trigger rest[i], rest[j]] 0 <= i < j < rest.len() implies
            rest[i].0 <= rest[j].0 by {
            assert(rest[i] == items[i] && rest[j] == items[j]);
        }
        lemma_by_place_of_ascending(rest);
        let at = items.last().0;
        lemma_count_not_after(rest, at);
        let n = count_not_after(rest, at) as int;
        if n < rest.len() {
            assert(items[n].0 <= items[items.len() - 1].0);
        }
        assert(rest.insert(n, items.last()) =~= items);
    }
}

/// The items at the given places of a list.
spec fn picked(items: Seq<Item>, order: Seq<usize>) -> Seq<Item> {
    order.map_values(|i: usize| items[i as int])
}

/// The order in which the items come back: by place.
fn place_order(items: &Vec<(usize, EntityRecord)>) -> (order: Vec<usize>)
    ensures
        order.len() == items.len(),
        forall|i: int| 0 <= i < order.len() ==> (#[trigger] order@[i]) < items.len(),
        picked(items_of(items@), order@) == by_place(items_of(items@)),
{
    let ghost all = items_of(items@);
    let mut order: Vec<usize> = Vec::new();
    let mut n: usize = 0;
    proof {
        assert(all.take(0) =~= Seq::<Item>::empty());
        assert(picked(all, order@) =~= by_place(all.take(0)));
    }
    while n < items.len()
        invariant
            all == items_of(items@),
            n <= items.len(),
            order.len() == n,
            forall|i: int| 0 <= i < order.len() ==> (#[trigger] order@[i]) < items.len(),
            picked(all, order@) == by_place(all.take(n as int)),
        decreases items.len() - n,
    {
        let ghost rest = by_place(all.take(n as int));
        let at = items[n].0;
        let mut p: usize = 0;
        proof {
            assert(rest.skip(0) =~= rest);
        }
        while p < order.len() && items[order[p]].0 <= at
            invariant
                all == items_of(items@),
                n < items.len(),
                at == items@[n as int].0,
                order.len() == n,
                forall|i: int| 0 <= i < order.len() ==> (#[trigger] order@[i]) < items.len(),
                rest == picked(all, order@),
                p <= order.len(),
                count_not_after(rest, at as int) == p + count_not_after(rest.skip(p as int), at as int),
            decreases order.len() - p,
        {
            proof {
                assert(rest.skip(p as int).drop_first() =~= rest.skip(p + 1));
                assert(rest.skip(p as int)[0] == all[order@[p as int] as int]);
            }
            p = p + 1;
        }
        proof {
            if p < order.len() {
                assert(rest.skip(p as int)[0] == all[order@[p as int] as int]);
            }
            assert(all.take(n + 1).drop_last() =~= all.take(n as int));
            assert(all.take(n + 1).last() == all[n as int]);
            assert(picked(all, order@.insert(p as int, n)) =~= rest.insert(p as int, all[n as int]));
        }
        order.insert(p, n);
        n = n + 1;
    }
    proof {
        assert(all.take(n as int) =~= all);
    }
    order
}

/// The entities with every item brought back to its place, one after another.
pub open spec fn respawned_all(entities: Seq<EntityModel>, items: Seq<Item>) -> Seq<EntityModel>
    decreases items.len(),
{
    if items.len() == 0 {
        entities
    } else {
        doc::respawned(respawned_all(entities, items.drop_last()), items.last().1, items.last().0)
    }
}

/// The entities with every item put below its parent.
pub open spec fn reattached_all(entities: Seq<EntityModel>, items: Seq<Item>) -> Seq<EntityModel>
    decreases items.len(),
{
    if items.len() == 0 {
        entities
    } else {
        doc::reattached(
            reattached_all(entities, items.drop_last()),
            items.last().1.guid,
            items.last().1.parent,
        )
    }
}

/// The entities with a deleted subtree back: every record at its place, the
/// earlier places first, and then every child below its parent.
pub open spec fn restored(entities: Seq<EntityModel>, items: Seq<Item>) -> Seq<EntityModel> {
    reattached_all(respawned_all(entities, by_place(items)), by_place(items))
}

// ---------------------------------------------------------------- effects

impl EditCommand {
    /// The document's entities after the command went forward.
    pub open spec fn forward_entities(self, entities: Seq<EntityModel>) -> Seq<EntityModel> {
        match self {
            EditCommand::Create { at, record } => doc::respawned(entities, record@, at as int),
            EditCommand::Delete { tops, .. } => doc::without(entities, tops@),
            EditCommand::Rename { guid, after, .. } => doc::renamed(entities, guid, after@),
            EditCommand::Reparent { guid, after, .. } => doc::relinked(entities, guid, after),
            EditCommand::SetVisible { guid, after, .. } => doc::shown(entities, guid, after),
            EditCommand::SetTransform { guid, after, .. } => doc::placed(entities, guid, after),
            EditCommand::SetSprite { guid, after, .. } => doc::with_sprite(
                entities,
                guid,
                blob(after),
            ),
            EditCommand::SetActor { guid, after, .. } => doc::with_actor(entities, guid, after),
            EditCommand::SetMaterialAsset { guid, after, .. } => doc::with_material_asset(
                entities,
                guid,
                after,
            ),
            EditCommand::SetProp { guid, type_path, field, after, .. } => reflect::with_prop(
                entities,
                guid,
                type_path@,
                field@,
                after@,
            ),
            EditCommand::PaintFoliage { guid, added, removed, .. } => foliage::with_stroke(
                entities,
                guid,
                blobs(added@),
                foliage::uprooted(removed@),
                false,
            ),
            EditCommand::SetTiles { guid, cells } => paint::with_tiles(
                entities,
                guid,
                paint::stroke_cells(cells@, false),
            ),
            EditCommand::SwapComponents { guid, after, .. } => doc::with_components(
                entities,
                guid,
                after@,
            ),
            _ => entities,
        }
    }

    /// The document's entities after the command went back.
    pub open spec fn backward_entities(self, entities: Seq<EntityModel>) -> Seq<EntityModel> {
        match self {
            EditCommand::Create { record, .. } => doc::without(entities, seq![record.guid]),
            EditCommand::Delete { items, .. } => restored(entities, items_of(items@)),
            EditCommand::Rename { guid, before, .. } => doc::renamed(entities, guid, before@),
            EditCommand::Reparent { guid, before, .. } => doc::relinked(entities, guid, before),
            EditCommand::SetVisible { guid, before, .. } => doc::shown(entities, guid, before),
            EditCommand::SetTransform { guid, before, .. } => doc::placed(entities, guid, before),
            EditCommand::SetSprite { guid, before, .. } => doc::with_sprite(
                entities,
                guid,
                blob(before),
            ),
            EditCommand::SetActor { guid, before, .. } => doc::with_actor(entities, guid, before),
            EditCommand::SetMaterialAsset { guid, before, .. } => doc::with_material_asset(
                entities,
                guid,
                before,
            ),
            EditCommand::SetProp { guid, type_path, field, before, .. } => reflect::with_prop(
                entities,
                guid,
                type_path@,
                field@,
                before@,
            ),
            EditCommand::PaintFoliage { guid, added, removed, .. } => foliage::with_stroke(
                entities,
                guid,
                blobs(added@),
                foliage::uprooted(removed@),
                true,
            ),
            EditCommand::SetTiles { guid, cells } => paint::with_tiles(
                entities,
                guid,
                paint::stroke_cells(cells@, true),
            ),
            EditCommand::SwapComponents { guid, before, .. } => doc::with_components(
                entities,
                guid,
                before@,
            ),
            _ => entities,
        }
    }

    /// Whether the document itself carries the command out; the host does
    /// otherwise.
    pub open spec fn is_own(self) -> bool {
        match self {
            EditCommand::SetProp { type_path, .. } => reflect::names_transform(type_path@),
            EditCommand::SculptTerrain { .. }
            | EditCommand::PaintSplat { .. }
            | EditCommand::PaintBiome { .. }
            | EditCommand::WriteDataMaps { .. }
            | EditCommand::CarveVoxels { .. } => false,
            _ => true,
        }
    }

    /// Whether the host has a part in the command.
    pub fn needs_host(&self) -> (r: bool)
        ensures
            r == !self.is_own(),
    {
        self.host_work(false).is_some()
    }

    /// The document after the command went forward, or back.
    pub open spec fn effect(self, d: DocModel, revert: bool) -> DocModel {
        if !self.is_own() {
            d
        } else {
            DocModel {
                entities: if revert {
                    self.backward_entities(d.entities)
                } else {
                    self.forward_entities(d.entities)
                },
                settings: match self {
                    EditCommand::SetLevelSettings { old, new } => if revert {
                        old
                    } else {
                        new
                    },
                    _ => d.settings,
                },
                ..d
            }.touched()
        }
    }

    /// Do, or redo, the command. What the document does not carry out itself is
    /// handed back.
    pub fn apply(&self, doc: &mut SceneDoc) -> (r: Option<HostWork<'_>>)
        ensures
            final(doc)@ == self.effect(old(doc)@, false),
            final(doc).history == old(doc).history,
            self.asks(r, false),
    {
        match self {
            EditCommand::Create { at, record } => {
                doc.raw_spawn_record(record, *at);
            },
            EditCommand::Delete { tops, .. } => {
                doc.raw_delete(tops);
            },
            EditCommand::Rename { guid, after, .. } => {
                doc.raw_rename(*guid, after.as_str());
            },
            EditCommand::Reparent { guid, after, .. } => {
                doc.raw_reparent(*guid, *after);
            },
            EditCommand::SetVisible { guid, after, .. } => {
                doc.raw_set_visible(*guid, *after);
            },
            EditCommand::SetTransform { guid, after, .. } => {
                doc.raw_set_transform(*guid, *after);
            },
            EditCommand::SetSprite { guid, after, .. } => {
                doc.raw_set_sprite(*guid, after);
            },
            EditCommand::SetActor { guid, after, .. } => {
                doc.raw_set_actor(*guid, *after);
            },
            EditCommand::SetMaterialAsset { guid, after, .. } => {
                doc.raw_set_material_asset(*guid, *after);
            },
            EditCommand::SetProp { guid, type_path, field, after, .. } => {
                if !is_transform(type_path.as_str()) {
                    return self.host_work(false);
                }
                doc.raw_write_prop(*guid, type_path.as_str(), field.as_str(), after);
            },
            EditCommand::PaintFoliage { guid, added, removed, .. } => {
                doc.raw_apply_foliage(*guid, added, removed);
            },
            EditCommand::SetLevelSettings { new, .. } => {
                doc.raw_set_settings(*new);
            },
            EditCommand::SetTiles { guid, cells } => {
                let picked = paint::pick_cells(cells, false);
                doc.raw_set_tiles(*guid, &picked);
            },
            EditCommand::SwapComponents { guid, after, .. } => {
                doc.raw_apply_record_components(*guid, after);
            },
            _ => {
                return self.host_work(false);
            },
        }
        doc.touch();
        None
    }

    /// Undo the command. What the document does not carry out itself is handed
    /// back.
    pub fn revert(&self, doc: &mut SceneDoc) -> (r: Option<HostWork<'_>>)
        ensures
            final(doc)@ == self.effect(old(doc)@, true),
            final(doc).history == old(doc).history,
            self.asks(r, true),
    {
        match self {
            EditCommand::Create { record, .. } => {
                let tops = vec![record.guid];
                proof {
                    assert(tops@ =~= seq![record.guid]);
                }
                doc.raw_delete(&tops);
            },
            EditCommand::Delete { items, .. } => {
                restore_items(doc, items);
            },
            EditCommand::Rename { guid, before, .. } => {
                doc.raw_rename(*guid, before.as_str());
            },
            EditCommand::Reparent { guid, before, .. } => {
                doc.raw_reparent(*guid, *before);
            },
            EditCommand::SetVisible { guid, before, .. } => {
                doc.raw_set_visible(*guid, *before);
            },
            EditCommand::SetTransform { guid, before, .. } => {
                doc.raw_set_transform(*guid, *before);
            },
            EditCommand::SetSprite { guid, before, .. } => {
                doc.raw_set_sprite(*guid, before);
            },
            EditCommand::SetActor { guid, before, .. } => {
                doc.raw_set_actor(*guid, *before);
            },
            EditCommand::SetMaterialAsset { guid, before, .. } => {
                doc.raw_set_material_asset(*guid, *before);
            },
            EditCommand::SetProp { guid, type_path, field, before, .. } => {
                if !is_transform(type_path.as_str()) {
                    return self.host_work(true);
                }
                doc.raw_write_prop(*guid, type_path.as_str(), field.as_str(), before);
            },
            EditCommand::PaintFoliage { guid, added, removed, .. } => {
                doc.raw_revert_foliage(*guid, added, removed);
            },
            EditCommand::SetLevelSettings { old, .. } => {
                doc.raw_set_settings(*old);
            },
            EditCommand::SetTiles { guid, cells } => {
                let picked = paint::pick_cells(cells, true);
                doc.raw_set_tiles(*guid, &picked);
            },
            EditCommand::SwapComponents { guid, before, .. } => {
                doc.raw_apply_record_components(*guid, before);
            },
            _ => {
                return self.host_work(true);
            },
        }
        doc.touch();
        None
    }

    /// What the command asks of the host, going forward or back.
    pub open spec fn asks(self, work: Option<HostWork>, revert: bool) -> bool {
        match self {
            EditCommand::SetProp { guid, type_path, field, before, after } => {
                if reflect::names_transform(type_path@) {
                    work is None
                } else {
                    work == Some(
                        HostWork::WriteProp {
                            guid,
                            type_path: &type_path,
                            field: &field,
                            value: if revert {
                                &before
                            } else {
                                &after
                            },
                        },
                    )
                }
            },
            EditCommand::SculptTerrain { guid, delta } => work == Some(
                HostWork::Terrain { guid, layer: TerrainLayer::Heights, delta: &*delta, revert },
            ),
            EditCommand::PaintSplat { guid, delta } => work == Some(
                HostWork::Terrain { guid, layer: TerrainLayer::Splat, delta: &*delta, revert },
            ),
            EditCommand::PaintBiome { guid, delta } => work == Some(
                HostWork::Terrain { guid, layer: TerrainLayer::Biomes, delta: &*delta, revert },
            ),
            EditCommand::WriteDataMaps { guid, delta } => work == Some(
                HostWork::Terrain { guid, layer: TerrainLayer::DataMaps, delta: &*delta, revert },
            ),
            EditCommand::CarveVoxels { volume, delta, holes } => work == Some(
                HostWork::Carve { volume, delta: &*delta, holes: &holes, revert },
            ),
            _ => work is None,
        }
    }

    /// What the command asks of the host, going forward or back; nothing where
    /// the document carries it out.
    pub fn host_work(&self, revert: bool) -> (r: Option<HostWork<'_>>)
        ensures
            self.asks(r, revert),
    {
        match self {
            EditCommand::SetProp { guid, type_path, field, before, after } => {
                if is_transform(type_path.as_str()) {
                    None
                } else {
                    Some(
                        HostWork::WriteProp {
                            guid: *guid,
                            type_path,
                            field,
                            value: if revert {
                                before
                            } else {
                                after
                            },
                        },
                    )
                }
            },
            EditCommand::SculptTerrain { guid, delta } => Some(
                HostWork::Terrain { guid: *guid, layer: TerrainLayer::Heights, delta, revert },
            ),
            EditCommand::PaintSplat { guid, delta } => Some(
                HostWork::Terrain { guid: *guid, layer: TerrainLayer::Splat, delta, revert },
            ),
            EditCommand::PaintBiome { guid, delta } => Some(
                HostWork::Terrain { guid: *guid, layer: TerrainLayer::Biomes, delta, revert },
            ),
            EditCommand::WriteDataMaps { guid, delta } => Some(
                HostWork::Terrain { guid: *guid, layer: TerrainLayer::DataMaps, delta, revert },
            ),
            EditCommand::CarveVoxels { volume, delta, holes } => Some(
                HostWork::Carve { volume: *volume, delta, holes, revert },
            ),
            _ => None,
        }
    }
}

/// Bring a deleted subtree back, in two passes, so that the hierarchy survives
/// whatever the order of the places: a record whose parent comes back later
/// first lands at the root and is put below it in the second pass.
fn restore_items(doc: &mut SceneDoc, items: &Vec<(usize, EntityRecord)>)
    ensures
        final(doc)@ == (DocModel {
            entities: restored(old(doc)@.entities, items_of(items@)),
            ..old(doc)@
        }),
        final(doc).history == old(doc).history,
{
    let ghost start = doc@;
    let ghost history = doc.history;
    let order = place_order(items);
    let ghost all = items_of(items@);
    let ghost sorted = by_place(all);
    let mut n: usize = 0;
    proof {
        assert(sorted.take(0) =~= Seq::<Item>::empty());
    }
    while n < order.len()
        invariant
            all == items_of(items@),
            sorted == picked(all, order@),
            n <= order.len(),
            forall|i: int| 0 <= i < order.len() ==> (#[trigger] order@[i]) < items.len(),
            doc@ == (DocModel {
                entities: respawned_all(start.entities, sorted.take(n as int)),
                ..start
            }),
            doc.history == history,
        decreases order.len() - n,
    {
        let k = order[n];
        proof {
            assert(sorted.take(n + 1).drop_last() =~= sorted.take(n as int));
            assert(sorted[n as int] == all[k as int]);
        }
        doc.raw_spawn_record(&items[k].1, items[k].0);
        n = n + 1;
    }
    proof {
        assert(sorted.take(n as int) =~= sorted);
        assert(sorted.take(0) =~= Seq::<Item>::empty());
    }
    let ghost back = respawned_all(start.entities, sorted);
    let mut n: usize = 0;
    while n < order.len()
        invariant
            all == items_of(items@),
            sorted == picked(all, order@),
            n <= order.len(),
            forall|i: int| 0 <= i < order.len() ==> (#[trigger] order@[i]) < items.len(),
            doc@ == (DocModel {
                entities: reattached_all(back, sorted.take(n as int)),
                ..start
            }),
            doc.history == history,
        decreases order.len() - n,
    {
        let k = order[n];
        proof {
            assert(sorted.take(n + 1).drop_last() =~= sorted.take(n as int));
            assert(sorted[n as int] == all[k as int]);
        }
        doc.raw_fixup_parent(items[k].1.guid, items[k].1.parent);
        n = n + 1;
    }
    proof {
        assert(sorted.take(n as int) =~= sorted);
    }
}

proof fn lemma_holes_are_the_sum(holes: Seq<(Guid, HoleDelta)>, n: int)
    requires
        0 <= n <= holes.len(),
    ensures
        holes_bytes(holes, n) == holes.take(n).fold_left(
            0int,
            |sum: int, h: (Guid, HoleDelta)| sum + h.1.memory_bytes,
        ),
        holes_bytes(holes, n) >= 0,
    decreases n,
{
    if n > 0 {
        lemma_holes_are_the_sum(holes, n - 1);
        assert(holes.take(n).drop_last() =~= holes.take(n - 1));
        assert(holes.take(n).last() == holes[n - 1]);
    }
}

/// What a command is charged in the history: its own size and what it holds beside
/// it. A record counts as four kibibytes, a stroke on a terrain layer and a cut as
/// what their deltas take, a painted cell and a foliage instance as their own size;
/// any other command holds nothing. What does not fit the machine's word counts as
/// the largest that does.
pub proof fn law_what_a_command_is_charged(cmd: EditCommand)
    ensures
        ({
            let held: int = match cmd {
                EditCommand::Create { .. } => 4096,
                EditCommand::Delete { items, .. } => (4096 * items@.len()) as int,
                EditCommand::SwapComponents { .. } => 8192,
                EditCommand::SculptTerrain { delta, .. } => delta.memory_bytes as int,
                EditCommand::PaintSplat { delta, .. } => delta.memory_bytes as int,
                EditCommand::PaintBiome { delta, .. } => delta.memory_bytes as int,
                EditCommand::WriteDataMaps { delta, .. } => delta.memory_bytes as int,
                EditCommand::SetTiles { cells, .. } => (layout::size_of::<(i32, i32, u32, u32)>()
                    * cells@.len()) as int,
                EditCommand::PaintFoliage { added, removed, instance_bytes, .. } => instance_bytes * (
                added@.len() + removed@.len()),
                EditCommand::CarveVoxels { delta, holes, .. } => delta.memory_bytes + holes@.fold_left(
                    0int,
                    |sum: int, h: (Guid, HoleDelta)| sum + h.1.memory_bytes,
                ),
                _ => 0,
            };
            let all = layout::size_of::<EditCommand>() + held;
            cmd.cost() == (if all <= usize::MAX {
                all
            } else {
                usize::MAX as int
            })
        }),
{
    match cmd {
        EditCommand::SetTiles { cells, .. } => {
            let s = layout::size_of::<(i32, i32, u32, u32)>();
            let n = cells@.len();
            assert(s * n == n * s) by (nonlinear_arith);
        },
        EditCommand::PaintFoliage { added, removed, instance_bytes, .. } => {
            let n = (added@.len() + removed@.len()) as int;
            let b = instance_bytes as int;
            let c = capped(n);
            let m = usize::MAX as int;
            assert(b * n == n * b) by (nonlinear_arith);
            if n > m {
                if b > 0 {
                    assert(m * b >= m && n * b >= m) by (nonlinear_arith)
                        requires
                            b > 0,
                            n > m,
                            m >= 0,
                    ;
                } else {
                    assert(c * b == 0 && n * b == 0) by (nonlinear_arith)
                        requires
                            b == 0,
                    ;
                }
            }
        },
        EditCommand::CarveVoxels { delta, holes, .. } => {
            lemma_holes_are_the_sum(holes@, holes@.len() as int);
            assert(holes@.take(holes@.len() as int) =~= holes@);
        },
        _ => {},
    }
}

/// Which commands the host has a part in, and what it is asked for: a stroke on a
/// terrain layer, on that layer; a cut in a voxel volume, with its holes; a property
/// of any component but the transform, with the value that the direction calls for.
/// Every other command is the document's own. A command of the host leaves the
/// document as it is.
pub proof fn law_what_the_host_is_asked_for(
    cmd: EditCommand,
    work: Option<HostWork>,
    d: DocModel,
    revert: bool,
)
    requires
        cmd.asks(work, revert),
    ensures
        cmd.is_own() <==> work is None,
        work is Some ==> cmd.effect(d, revert) == d,
        match cmd {
            EditCommand::SculptTerrain { guid, delta } => work == Some(
                HostWork::Terrain { guid, layer: TerrainLayer::Heights, delta: &*delta, revert },
            ),
            EditCommand::PaintSplat { guid, delta } => work == Some(
                HostWork::Terrain { guid, layer: TerrainLayer::Splat, delta: &*delta, revert },
            ),
            EditCommand::PaintBiome { guid, delta } => work == Some(
                HostWork::Terrain { guid, layer: TerrainLayer::Biomes, delta: &*delta, revert },
            ),
            EditCommand::WriteDataMaps { guid, delta } => work == Some(
                HostWork::Terrain { guid, layer: TerrainLayer::DataMaps, delta: &*delta, revert },
            ),
            EditCommand::CarveVoxels { volume, delta, holes } => work == Some(
                HostWork::Carve { volume, delta: &*delta, holes: &holes, revert },
            ),
            EditCommand::SetProp { guid, type_path, field, before, after } => {
                &&& work is None <==> type_path@ == "inf_ecs::components::Transform"@
                &&& work is Some && revert ==> work == Some(
                    HostWork::WriteProp { guid, type_path: &type_path, field: &field, value: &before },
                )
                &&& work is Some && !revert ==> work == Some(
                    HostWork::WriteProp { guid, type_path: &type_path, field: &field, value: &after },
                )
            },
            _ => work is None,
        },
{
}

} // verus!
