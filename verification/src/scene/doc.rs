//! The open document: its entities in creation order, its title and settings,
//! and its history.

use crate::guid::Guid;
use crate::scene::component::{blob, Component, Transform};
use crate::scene::entity::{bound_material, write_record_components, Entity, EntityModel};
use crate::scene::history::EditHistory;
use crate::scene::record::{EntityRecord, PartsModel, RecordModel};
use crate::scene::settings::LevelSettings;
use vstd::prelude::*;

verus! {

/// The open document.
pub struct SceneDoc {
    /// The entities in the order they were created.
    pub entities: Vec<Entity>,
    pub title: String,
    pub settings: LevelSettings,
    pub history: EditHistory,
    /// Whether there are changes that were not saved.
    pub dirty: bool,
    /// Moves with every change; what displays the document follows it.
    pub version: u64,
}

/// What the document holds.
pub struct DocModel {
    pub entities: Seq<EntityModel>,
    pub title: Seq<char>,
    pub settings: LevelSettings,
    pub dirty: bool,
    pub version: u64,
}

/// What a list of entities holds.
pub open spec fn models(entities: Seq<Entity>) -> Seq<EntityModel> {
    entities.map_values(|e: Entity| e@)
}

impl View for SceneDoc {
    type V = DocModel;

    open spec fn view(&self) -> DocModel {
        DocModel {
            entities: models(self.entities@),
            title: self.title@,
            settings: self.settings,
            dirty: self.dirty,
            version: self.version,
        }
    }
}

// ---------------------------------------------------------------- lookup

/// The place of the first entity of that identity; the number of entities where
/// there is none.
pub open spec fn find(entities: Seq<EntityModel>, guid: Guid) -> nat
    decreases entities.len(),
{
    if entities.len() == 0 || entities[0].guid == guid {
        0
    } else {
        1 + find(entities.drop_first(), guid)
    }
}

/// Whether there is an entity of that identity.
pub open spec fn has(entities: Seq<EntityModel>, guid: Guid) -> bool {
    exists|i: int| 0 <= i < entities.len() && (#[trigger] entities[i]).guid == guid
}

/// No identity occurs twice.
pub open spec fn distinct(entities: Seq<EntityModel>) -> bool {
    forall|i: int, j: int|
        #![trigger entities[i], entities[j]]
        0 <= i < j < entities.len() ==> entities[i].guid != entities[j].guid
}

/// Every parent link leads to an entity that is there.
pub open spec fn attached(entities: Seq<EntityModel>) -> bool {
    forall|i: int|
        0 <= i < entities.len() ==> match (#[trigger] entities[i]).parent {
            Some(p) => has(entities, p),
            None => true,
        }
}

/// The parent a link resolves to: itself where it is there.
pub open spec fn resolved(entities: Seq<EntityModel>, parent: Option<Guid>) -> Option<Guid> {
    match parent {
        Some(p) => if has(entities, p) {
            Some(p)
        } else {
            None
        },
        None => None,
    }
}

/// `find` finds the first, and finds one exactly where there is one.
pub proof fn lemma_find(entities: Seq<EntityModel>, guid: Guid)
    ensures
        find(entities, guid) <= entities.len(),
        find(entities, guid) < entities.len() <==> has(entities, guid),
        find(entities, guid) < entities.len() ==> entities[find(entities, guid) as int].guid == guid,
        forall|i: int| 0 <= i < find(entities, guid) ==> (#[trigger] entities[i]).guid != guid,
    decreases entities.len(),
{
    if entities.len() > 0 {
        let rest = entities.drop_first();
        lemma_find(rest, guid);
        if entities[0].guid == guid {
            assert(has(entities, guid));
        } else {
            let n = find(rest, guid) as int;
            if has(rest, guid) {
                assert(rest[n] == entities[n + 1]);
                assert(has(entities, guid));
            }
            if has(entities, guid) {
                let i = choose|i: int| 0 <= i < entities.len() && (#[trigger] entities[i]).guid == guid;
                assert(rest[i - 1].guid == guid);
            }
            assert forall|i: int| 0 <= i < find(entities, guid) implies (#[trigger] entities[i]).guid
                != guid by {
                if i > 0 {
                    assert(rest[i - 1] == entities[i]);
                }
            }
        }
    }
}

/// Where no identity occurs twice, an entity is found at its own place.
pub proof fn lemma_find_in_distinct(entities: Seq<EntityModel>, i: int)
    requires
        distinct(entities),
        0 <= i < entities.len(),
    ensures
        find(entities, entities[i].guid) == i,
{
    lemma_find(entities, entities[i].guid);
    let n = find(entities, entities[i].guid) as int;
    assert(has(entities, entities[i].guid));
    if n < i {
        assert(entities[n].guid != entities[i].guid);
    }
}

// ---------------------------------------------------------------- changes

/// The entities with the one of that identity changed, where it is there.
pub open spec fn changed(
    entities: Seq<EntityModel>,
    guid: Guid,
    f: spec_fn(EntityModel) -> EntityModel,
) -> Seq<EntityModel> {
    let i = find(entities, guid) as int;
    if i < entities.len() {
        entities.update(i, f(entities[i]))
    } else {
        entities
    }
}

/// The entities with one with a new name.
pub open spec fn renamed(entities: Seq<EntityModel>, guid: Guid, name: Seq<char>) -> Seq<EntityModel> {
    changed(entities, guid, |e: EntityModel| EntityModel { name: Some(name), ..e })
}

/// The entities with one shown or hidden.
pub open spec fn shown(entities: Seq<EntityModel>, guid: Guid, visible: bool) -> Seq<EntityModel> {
    changed(entities, guid, |e: EntityModel| EntityModel { visible: Some(visible), ..e })
}

/// The entities with one placed anew.
pub open spec fn placed(entities: Seq<EntityModel>, guid: Guid, transform: Transform) -> Seq<EntityModel> {
    changed(entities, guid, |e: EntityModel| EntityModel { transform: Some(transform), ..e })
}

/// The entities with one with another sprite.
pub open spec fn with_sprite(entities: Seq<EntityModel>, guid: Guid, sprite: Option<Seq<u8>>) -> Seq<EntityModel> {
    changed(entities, guid, |e: EntityModel| EntityModel { parts: PartsModel { sprite, ..e.parts }, ..e })
}

/// The entities with one bound to another actor class.
pub open spec fn with_actor(entities: Seq<EntityModel>, guid: Guid, actor: Option<Guid>) -> Seq<EntityModel> {
    changed(entities, guid, |e: EntityModel| EntityModel { parts: PartsModel { actor, ..e.parts }, ..e })
}

/// The entities with the material of one bound to another asset.
pub open spec fn with_material_asset(entities: Seq<EntityModel>, guid: Guid, asset: Option<Guid>) -> Seq<
    EntityModel,
> {
    changed(
        entities,
        guid,
        |e: EntityModel|
            EntityModel {
                parts: PartsModel { material: bound_material(e.parts.material, asset), ..e.parts },
                ..e
            },
    )
}

/// The entities with one with exactly the components of a record.
pub open spec fn with_components(entities: Seq<EntityModel>, guid: Guid, rec: RecordModel) -> Seq<EntityModel> {
    changed(entities, guid, |e: EntityModel| e.written(rec, true))
}

/// The entities with a child put below its parent, where both are there.
pub open spec fn reattached(entities: Seq<EntityModel>, guid: Guid, parent: Option<Guid>) -> Seq<
    EntityModel,
> {
    match parent {
        Some(p) => if has(entities, p) {
            changed(entities, guid, |e: EntityModel| EntityModel { parent: Some(p), ..e })
        } else {
            entities
        },
        None => entities,
    }
}

/// The entities with a child put below another entity, where that is there, or
/// at the root.
pub open spec fn relinked(entities: Seq<EntityModel>, guid: Guid, parent: Option<Guid>) -> Seq<
    EntityModel,
> {
    match parent {
        Some(_) => reattached(entities, guid, parent),
        None => changed(entities, guid, |e: EntityModel| EntityModel { parent: None, ..e }),
    }
}

/// The place a record goes to when it asks for place `at`.
pub open spec fn slot(entities: Seq<EntityModel>, at: int) -> int {
    if at <= entities.len() {
        at
    } else {
        entities.len() as int
    }
}

/// The entities with the one a record describes at place `at`, below its parent
/// where that is there already.
pub open spec fn respawned(entities: Seq<EntityModel>, rec: RecordModel, at: int) -> Seq<EntityModel> {
    entities.insert(slot(entities, at), EntityModel::of_record(rec, resolved(entities, rec.parent)))
}

/// Whether the entity, or one of the `n` above it, is among the identities.
pub open spec fn under(entities: Seq<EntityModel>, tops: Seq<Guid>, guid: Guid, n: nat) -> bool
    decreases n,
{
    ||| tops.contains(guid)
    ||| n > 0 && find(entities, guid) < entities.len() && match entities[find(
        entities,
        guid,
    ) as int].parent {
        Some(p) => under(entities, tops, p, (n - 1) as nat),
        None => false,
    }
}

/// Whether an entity goes when the tops are deleted: it is one of them or
/// stands, at any depth, below one.
pub open spec fn doomed(entities: Seq<EntityModel>, tops: Seq<Guid>, guid: Guid) -> bool {
    exists|n: nat| #[trigger] under(entities, tops, guid, n)
}

/// The entities without the tops and what stands below them.
pub open spec fn without(entities: Seq<EntityModel>, tops: Seq<Guid>) -> Seq<EntityModel> {
    entities.filter(|e: EntityModel| !doomed(entities, tops, e.guid))
}

impl DocModel {
    /// The document after a change: unsaved, at the next version.
    pub open spec fn touched(self) -> DocModel {
        DocModel {
            dirty: true,
            version: if self.version == u64::MAX {
                0
            } else {
                (self.version + 1) as u64
            },
            ..self
        }
    }
}

impl SceneDoc {
    /// No identity occurs twice, and every parent is there.
    pub open spec fn wf(&self) -> bool {
        distinct(self@.entities) && attached(self@.entities)
    }

    /// Every entity has a name, a place and a visibility.
    pub open spec fn complete(&self) -> bool {
        forall|i: int| 0 <= i < self@.entities.len() ==> (#[trigger] self@.entities[i]).complete()
    }

    /// An empty document without a title.
    pub fn new() -> (r: SceneDoc)
        ensures
            r.wf(),
            r@.entities == Seq::<EntityModel>::empty(),
            r@.title == Seq::<char>::empty(),
            r@.settings == LevelSettings::standard(),
            !r@.dirty,
            r.history.is_fresh(),
    {
        let r = SceneDoc {
            entities: Vec::new(),
            title: String::new(),
            settings: LevelSettings::default(),
            history: EditHistory::default(),
            dirty: false,
            version: 0,
        };
        proof {
            assert(r@.entities =~= Seq::<EntityModel>::empty());
        }
        r
    }

    /// Mark a change: the document is unsaved and its version moves on.
    pub fn touch(&mut self)
        ensures
            final(self)@ == old(self)@.touched(),
            final(self).history == old(self).history,
    {
        self.dirty = true;
        self.version = self.version.wrapping_add(1);
    }

    /// Mark the document as saved.
    pub fn mark_saved(&mut self)
        ensures
            final(self)@ == (DocModel { dirty: false, ..old(self)@ }),
            final(self).history == old(self).history,
    {
        self.dirty = false;
    }

    pub fn is_dirty(&self) -> (r: bool)
        ensures
            r == self@.dirty,
    {
        self.dirty
    }

    /// The place of the entity of that identity; the number of entities where
    /// there is none.
    pub fn index_of(&self, guid: Guid) -> (i: usize)
        ensures
            i == find(self@.entities, guid),
            i <= self.entities.len(),
    {
        let ghost all = self@.entities;
        let mut i: usize = 0;
        proof {
            assert(all.skip(0) =~= all);
        }
        while i < self.entities.len()
            invariant
                all == self@.entities,
                i <= self.entities.len(),
                find(all, guid) == i + find(all.skip(i as int), guid),
            decreases self.entities.len() - i,
        {
            proof {
                assert(all.skip(i as int).drop_first() =~= all.skip(i + 1));
                assert(all.skip(i as int)[0] == self.entities@[i as int]@);
            }
            if self.entities[i].guid == guid {
                return i;
            }
            i = i + 1;
        }
        i
    }

    /// Whether there is an entity of that identity.
    pub fn contains(&self, guid: Guid) -> (r: bool)
        ensures
            r == has(self@.entities, guid),
    {
        proof {
            lemma_find(self@.entities, guid);
        }
        self.index_of(guid) < self.entities.len()
    }

    /// The parent a link resolves to.
    pub fn resolve(&self, parent: Option<Guid>) -> (r: Option<Guid>)
        ensures
            r == resolved(self@.entities, parent),
    {
        match parent {
            Some(p) => if self.contains(p) {
                Some(p)
            } else {
                None
            },
            None => None,
        }
    }

    /// Remove every entity.
    pub fn reset(&mut self)
        ensures
            final(self)@ == (DocModel { entities: Seq::empty(), ..old(self)@ }),
            final(self).wf(),
            final(self).history == old(self).history,
    {
        self.entities = Vec::new();
        proof {
            assert(self@.entities =~= Seq::<EntityModel>::empty());
        }
    }

    /// Add an entity with nothing but a name, below its parent where that is
    /// there already.
    pub fn spawn_bare(&mut self, guid: Guid, name: &str, parent: Option<Guid>)
        ensures
            final(self)@ == (DocModel {
                entities: old(self)@.entities.push(
                    EntityModel::bare(guid, name@, resolved(old(self)@.entities, parent)),
                ),
                ..old(self)@
            }),
            final(self).history == old(self).history,
    {
        let link = self.resolve(parent);
        let e = Entity::bare(guid, name.to_owned(), link);
        proof {
            assert(models(self.entities@.push(e)) =~= models(self.entities@).push(e@));
        }
        self.entities.push(e);
    }

    /// Put a child below its parent, where both are there.
    pub fn raw_fixup_parent(&mut self, guid: Guid, parent: Option<Guid>)
        ensures
            final(self)@ == (DocModel {
                entities: reattached(old(self)@.entities, guid, parent),
                ..old(self)@
            }),
            final(self).history == old(self).history,
    {
        let p = match parent {
            Some(p) => p,
            None => {
                return;
            },
        };
        if !self.contains(p) {
            return;
        }
        let i = self.index_of(guid);
        if i < self.entities.len() {
            let ghost before = self.entities@;
            self.entities[i].parent = Some(p);
            proof {
                assert(models(self.entities@) =~= models(before).update(
                    i as int,
                    EntityModel { parent: Some(p), ..models(before)[i as int] },
                ));
            }
        }
    }

    /// Bring back the entity a record describes at place `at`.
    pub fn raw_spawn_record(&mut self, record: &EntityRecord, at: usize)
        ensures
            final(self)@ == (DocModel {
                entities: respawned(old(self)@.entities, record@, at as int),
                ..old(self)@
            }),
            final(self).history == old(self).history,
    {
        let link = self.resolve(record.parent);
        let mut e = Entity::bare(record.guid, record.name.clone(), link);
        write_record_components(&mut e, record, false);
        proof {
            crate::scene::entity::law_written_record_reads_back(
                EntityModel::bare(record.guid, record.name@, link),
                record@,
                false,
            );
            assert(e@ == EntityModel::of_record(record@, link));
        }
        let p: usize = if at <= self.entities.len() {
            at
        } else {
            self.entities.len()
        };
        proof {
            assert(models(self.entities@.insert(p as int, e)) =~= models(self.entities@).insert(
                p as int,
                e@,
            ));
        }
        self.entities.insert(p, e);
    }

    /// Give the entity a name.
    pub fn raw_rename(&mut self, guid: Guid, name: &str)
        ensures
            final(self)@ == (DocModel {
                entities: renamed(old(self)@.entities, guid, name@),
                ..old(self)@
            }),
            old(self).wf() ==> final(self).wf(),
            final(self).history == old(self).history,
    {
        let ghost change = |e: EntityModel| EntityModel { name: Some(name@), ..e };
        let i = self.index_of(guid);
        if i < self.entities.len() {
            let ghost before = self.entities@;
            self.entities[i].name = Some(name.to_owned());
            proof {
                assert(renamed(models(before), guid, name@) =~= changed(models(before), guid, change));
                assert(models(self.entities@) =~= models(before).update(
                    i as int,
                    change(models(before)[i as int]),
                ));
                lemma_change_keeps_shape(models(before), guid, change);
            }
        }
    }

    /// Show or hide the entity.
    pub fn raw_set_visible(&mut self, guid: Guid, visible: bool)
        ensures
            final(self)@ == (DocModel {
                entities: shown(old(self)@.entities, guid, visible),
                ..old(self)@
            }),
            old(self).wf() ==> final(self).wf(),
            final(self).history == old(self).history,
    {
        let ghost change = |e: EntityModel| EntityModel { visible: Some(visible), ..e };
        let i = self.index_of(guid);
        if i < self.entities.len() {
            let ghost before = self.entities@;
            self.entities[i].visible = Some(visible);
            proof {
                assert(shown(models(before), guid, visible) =~= changed(models(before), guid, change));
                assert(models(self.entities@) =~= models(before).update(
                    i as int,
                    change(models(before)[i as int]),
                ));
                lemma_change_keeps_shape(models(before), guid, change);
            }
        }
    }

    /// Place the entity.
    pub fn raw_set_transform(&mut self, guid: Guid, transform: Transform)
        ensures
            final(self)@ == (DocModel {
                entities: placed(old(self)@.entities, guid, transform),
                ..old(self)@
            }),
            old(self).wf() ==> final(self).wf(),
            final(self).history == old(self).history,
    {
        let ghost change = |e: EntityModel| EntityModel { transform: Some(transform), ..e };
        let i = self.index_of(guid);
        if i < self.entities.len() {
            let ghost before = self.entities@;
            self.entities[i].transform = Some(transform);
            proof {
                assert(placed(models(before), guid, transform) =~= changed(models(before), guid, change));
                assert(models(self.entities@) =~= models(before).update(
                    i as int,
                    change(models(before)[i as int]),
                ));
                lemma_change_keeps_shape(models(before), guid, change);
            }
        }
    }

    /// Swap the whole sprite component.
    pub fn raw_set_sprite(&mut self, guid: Guid, sprite: &Option<Component>)
        ensures
            final(self)@ == (DocModel {
                entities: with_sprite(old(self)@.entities, guid, blob(*sprite)),
                ..old(self)@
            }),
            old(self).wf() ==> final(self).wf(),
            final(self).history == old(self).history,
    {
        let ghost change = |e: EntityModel|
                    EntityModel { parts: PartsModel { sprite: blob(*sprite), ..e.parts }, ..e };
        let i = self.index_of(guid);
        if i < self.entities.len() {
            let ghost before = self.entities@;
            self.entities[i].set_sprite(sprite);
            proof {
                assert(with_sprite(models(before), guid, blob(*sprite)) =~= changed(models(before), guid, change));
                assert(models(self.entities@) =~= models(before).update(
                    i as int,
                    change(models(before)[i as int]),
                ));
                lemma_change_keeps_shape(models(before), guid, change);
            }
        }
    }

    /// Bind the entity to an actor class, or to none.
    pub fn raw_set_actor(&mut self, guid: Guid, actor: Option<Guid>)
        ensures
            final(self)@ == (DocModel {
                entities: with_actor(old(self)@.entities, guid, actor),
                ..old(self)@
            }),
            old(self).wf() ==> final(self).wf(),
            final(self).history == old(self).history,
    {
        let ghost change = |e: EntityModel| EntityModel { parts: PartsModel { actor, ..e.parts }, ..e };
        let i = self.index_of(guid);
        if i < self.entities.len() {
            let ghost before = self.entities@;
            self.entities[i].set_actor(actor);
            proof {
                assert(with_actor(models(before), guid, actor) =~= changed(models(before), guid, change));
                assert(models(self.entities@) =~= models(before).update(
                    i as int,
                    change(models(before)[i as int]),
                ));
                lemma_change_keeps_shape(models(before), guid, change);
            }
        }
    }

    /// Bind the entity's material to a material asset, or to none.
    pub fn raw_set_material_asset(&mut self, guid: Guid, asset: Option<Guid>)
        ensures
            final(self)@ == (DocModel {
                entities: with_material_asset(old(self)@.entities, guid, asset),
                ..old(self)@
            }),
            old(self).wf() ==> final(self).wf(),
            final(self).history == old(self).history,
    {
        let ghost change = |e: EntityModel|
            EntityModel {
                parts: PartsModel { material: bound_material(e.parts.material, asset), ..e.parts },
                ..e
            };
        let i = self.index_of(guid);
        if i < self.entities.len() {
            let ghost before = self.entities@;
            self.entities[i].set_material_asset(asset);
            proof {
                assert(with_material_asset(models(before), guid, asset) =~= changed(
                    models(before),
                    guid,
                    change,
                ));
                assert(models(self.entities@) =~= models(before).update(
                    i as int,
                    change(models(before)[i as int]),
                ));
                lemma_change_keeps_shape(models(before), guid, change);
            }
        }
    }

    /// Make a record the whole truth about the entity's components.
    pub fn raw_apply_record_components(&mut self, guid: Guid, record: &EntityRecord)
        ensures
            final(self)@ == (DocModel {
                entities: with_components(old(self)@.entities, guid, record@),
                ..old(self)@
            }),
            old(self).wf() ==> final(self).wf(),
            final(self).history == old(self).history,
    {
        let ghost change = |e: EntityModel| e.written(record@, true);
        let i = self.index_of(guid);
        if i < self.entities.len() {
            let ghost before = self.entities@;
            write_record_components(&mut self.entities[i], record, true);
            proof {
                assert(with_components(models(before), guid, record@) =~= changed(models(before), guid, change));
                assert(models(self.entities@) =~= models(before).update(
                    i as int,
                    change(models(before)[i as int]),
                ));
                lemma_change_keeps_shape(models(before), guid, change);
            }
        }
    }

    /// Put the entity below another, where that is there, or at the root.
    pub fn raw_reparent(&mut self, guid: Guid, parent: Option<Guid>)
        ensures
            final(self)@ == (DocModel {
                entities: relinked(old(self)@.entities, guid, parent),
                ..old(self)@
            }),
            old(self).wf() ==> final(self).wf(),
            final(self).history == old(self).history,
    {
        proof {
            lemma_relinked_keeps_shape(self@.entities, guid, parent);
        }
        match parent {
            Some(_) => {
                self.raw_fixup_parent(guid, parent);
            },
            None => {
                let i = self.index_of(guid);
                if i < self.entities.len() {
                    let ghost before = self.entities@;
                    self.entities[i].parent = None;
                    proof {
                        assert(models(self.entities@) =~= models(before).update(
                            i as int,
                            EntityModel { parent: None, ..models(before)[i as int] },
                        ));
                    }
                }
            },
        }
    }

    /// Replace the settings of the level.
    pub fn raw_set_settings(&mut self, settings: LevelSettings)
        ensures
            final(self)@ == (DocModel { settings, ..old(self)@ }),
            final(self).history == old(self).history,
    {
        self.settings = settings;
    }

    /// Replace the title.
    pub fn set_title(&mut self, title: &str)
        ensures
            final(self)@ == (DocModel { title: title@, ..old(self)@ }),
            final(self).history == old(self).history,
    {
        self.title = title.to_owned();
    }

    /// Remove the tops and everything below them.
    pub fn raw_delete(&mut self, tops: &Vec<Guid>)
        ensures
            final(self)@ == (DocModel {
                entities: without(old(self)@.entities, tops@),
                ..old(self)@
            }),
            old(self).wf() ==> final(self).wf(),
            final(self).history == old(self).history,
    {
        let ghost all = self@.entities;
        let marks = self.doomed_marks(tops);
        let mut old_entities: Vec<Entity> = Vec::new();
        std::mem::swap(&mut old_entities, &mut self.entities);
        let ghost source = old_entities@;
        let ghost keep = |e: EntityModel| !doomed(all, tops@, e.guid);
        let mut kept: Vec<Entity> = Vec::new();
        let mut n: usize = 0;
        proof {
            reveal(Seq::filter);
            assert(models(kept@) =~= all.take(0).filter(keep));
        }
        for e in it: old_entities
            invariant
                it.seq() == source,
                models(source) == all,
                n == it.index(),
                n <= source.len(),
                marks.len() == source.len(),
                forall|i: int|
                    0 <= i < marks.len() ==> (#[trigger] marks@[i]) == doomed(
                        all,
                        tops@,
                        all[i].guid,
                    ),
                keep == (|e: EntityModel| !doomed(all, tops@, e.guid)),
                models(kept@) == all.take(n as int).filter(keep),
        {
            proof {
                reveal(Seq::filter);
                assert(all.take(n + 1).drop_last() =~= all.take(n as int));
                assert(all.take(n + 1).last() == all[n as int]);
                assert(all[n as int] == e@);
                assert(models(kept@.push(e)) =~= models(kept@).push(e@));
            }
            if !marks[n] {
                kept.push(e);
            }
            n = n + 1;
        }
        proof {
            assert(all.take(n as int) =~= all);
            if distinct(all) && attached(all) {
                lemma_without_keeps_order(all, tops@);
            }
        }
        self.entities = kept;
    }

    /// For each entity, whether it is one of the tops or stands below one.
    pub fn doomed_marks(&self, tops: &Vec<Guid>) -> (marks: Vec<bool>)
        ensures
            marks.len() == self.entities.len(),
            forall|i: int|
                0 <= i < marks.len() ==> (#[trigger] marks@[i]) == doomed(
                    self@.entities,
                    tops@,
                    self@.entities[i].guid,
                ),
    {
        let ghost all = self@.entities;
        let n = self.entities.len();
        let mut marks: Vec<bool> = Vec::new();
        let mut i: usize = 0;
        while i < n
            invariant
                n == self.entities.len(),
                all == self@.entities,
                i <= n,
                marks.len() == i,
                forall|j: int| 0 <= j < i ==> (#[trigger] marks@[j]) == tops@.contains(all[j].guid),
            decreases n - i,
        {
            marks.push(holds(tops, self.entities[i].guid));
            i = i + 1;
        }
        proof {
            assert forall|j: int| 0 <= j < n && #[trigger] marks@[j] implies doomed(
                all,
                tops@,
                all[j].guid,
            ) by {
                assert(under(all, tops@, all[j].guid, 0));
            }
        }
        let mut moved = true;
        while moved
            invariant
                n == self.entities.len(),
                all == self@.entities,
                marks.len() == n,
                forall|j: int|
                    0 <= j < n && tops@.contains(all[j].guid) ==> #[trigger] marks@[j],
                forall|j: int|
                    0 <= j < n && #[trigger] marks@[j] ==> doomed(all, tops@, all[j].guid),
                !moved ==> settled_marks(all, tops@, marks@, n as int),
            decreases
                count_false(marks@),
                if moved {
                    1int
                } else {
                    0int
                },
        {
            moved = false;
            let ghost start = marks@;
            let mut i: usize = 0;
            while i < n
                invariant
                    n == self.entities.len(),
                    all == self@.entities,
                    marks.len() == n,
                    i <= n,
                    forall|j: int|
                        0 <= j < n && tops@.contains(all[j].guid) ==> #[trigger] marks@[j],
                    forall|j: int|
                        0 <= j < n && #[trigger] marks@[j] ==> doomed(all, tops@, all[j].guid),
                    moved ==> count_false(marks@) < count_false(start),
                    !moved ==> marks@ == start,
                    !moved ==> settled_marks(all, tops@, marks@, i as int),
                decreases n - i,
            {
                if !marks[i] {
                    let first = self.index_of(self.entities[i].guid);
                    proof {
                        lemma_find(all, all[i as int].guid);
                        assert(all[i as int] == self.entities@[i as int]@);
                        assert(has(all, all[i as int].guid));
                        assert(all[first as int] == self.entities@[first as int]@);
                    }
                    match self.entities[first].parent {
                        Some(p) => {
                            let j = self.index_of(p);
                            proof {
                                lemma_find(all, p);
                            }
                            if holds(tops, p) || (j < n && marks[j]) {
                                proof {
                                    if tops@.contains(p) {
                                        assert(under(all, tops@, p, 0));
                                    }
                                    assert(doomed(all, tops@, p));
                                    let m = choose|m: nat| under(all, tops@, p, m);
                                    assert(under(all, tops@, all[i as int].guid, m + 1));
                                    lemma_count_false(marks@, i as int);
                                }
                                marks.set(i, true);
                                moved = true;
                            }
                        },
                        None => {},
                    }
                }
                i = i + 1;
            }
        }
        proof {
            assert forall|j: int| 0 <= j < n && !(#[trigger] marks@[j]) implies !doomed(
                all,
                tops@,
                all[j].guid,
            ) by {
                assert forall|m: nat| !(#[trigger] under(all, tops@, all[j].guid, m)) by {
                    lemma_unmarked(all, tops@, marks@, j, m);
                }
            }
        }
        marks
    }
}

/// A change that leaves identity and parent alone keeps the list distinct and
/// attached.
pub proof fn lemma_change_keeps_shape(
    entities: Seq<EntityModel>,
    guid: Guid,
    f: spec_fn(EntityModel) -> EntityModel,
)
    requires
        forall|e: EntityModel| (#[trigger] f(e)).guid == e.guid && f(e).parent == e.parent,
    ensures
        distinct(entities) ==> distinct(changed(entities, guid, f)),
        attached(entities) ==> attached(changed(entities, guid, f)),
        changed(entities, guid, f).len() == entities.len(),
{
    let out = changed(entities, guid, f);
    let n = find(entities, guid) as int;
    assert forall|i: int| 0 <= i < entities.len() implies (#[trigger] out[i]).guid == entities[i].guid
        && out[i].parent == entities[i].parent by {
        assert(f(entities[n]).guid == entities[n].guid);
    }
    if distinct(entities) {
        assert forall|i: int, j: int| #![trigger out[i], out[j]] 0 <= i < j < out.len() implies
            out[i].guid != out[j].guid by {
            assert(entities[i].guid != entities[j].guid);
        }
    }
    if attached(entities) {
        assert forall|i: int| 0 <= i < out.len() implies match (#[trigger] out[i]).parent {
            Some(p) => has(out, p),
            None => true,
        } by {
            match entities[i].parent {
                Some(p) => {
                    let h = choose|h: int| 0 <= h < entities.len() && (#[trigger] entities[h]).guid == p;
                    assert(out[h].guid == p);
                },
                None => {},
            }
        }
    }
}

/// Relinking keeps the list distinct and attached.
pub proof fn lemma_relinked_keeps_shape(entities: Seq<EntityModel>, guid: Guid, parent: Option<Guid>)
    ensures
        distinct(entities) ==> distinct(relinked(entities, guid, parent)),
        attached(entities) ==> attached(relinked(entities, guid, parent)),
        relinked(entities, guid, parent).len() == entities.len(),
        forall|i: int|
            0 <= i < entities.len() ==> (#[trigger] relinked(entities, guid, parent)[i]).guid
                == entities[i].guid,
{
    let out = relinked(entities, guid, parent);
    assert forall|i: int| 0 <= i < entities.len() implies (#[trigger] out[i]).guid == entities[i].guid by {}
    if distinct(entities) {
        assert forall|i: int, j: int| #![trigger out[i], out[j]] 0 <= i < j < out.len() implies
            out[i].guid != out[j].guid by {
            assert(entities[i].guid != entities[j].guid);
        }
    }
    if attached(entities) {
        assert forall|i: int| 0 <= i < out.len() implies match (#[trigger] out[i]).parent {
            Some(p) => has(out, p),
            None => true,
        } by {
            match out[i].parent {
                Some(p) => {
                    assert(has(entities, p)) by {
                        if out[i].parent == entities[i].parent {
                        }
                    }
                    let h = choose|h: int| 0 <= h < entities.len() && (#[trigger] entities[h]).guid == p;
                    assert(out[h].guid == p);
                },
                None => {},
            }
        }
    }
}

/// Whether a list of identities holds one.
pub fn holds(list: &Vec<Guid>, guid: Guid) -> (r: bool)
    ensures
        r == list@.contains(guid),
{
    let mut i: usize = 0;
    while i < list.len()
        invariant
            i <= list.len(),
            forall|j: int| 0 <= j < i ==> list@[j] != guid,
        decreases list.len() - i,
    {
        if list[i] == guid {
            return true;
        }
        i = i + 1;
    }
    false
}

/// The number of entities not marked.
spec fn count_false(marks: Seq<bool>) -> nat
    decreases marks.len(),
{
    if marks.len() == 0 {
        0
    } else if marks.last() {
        count_false(marks.drop_last())
    } else {
        count_false(marks.drop_last()) + 1
    }
}

proof fn lemma_count_false(marks: Seq<bool>, i: int)
    requires
        0 <= i < marks.len(),
        !marks[i],
    ensures
        count_false(marks.update(i, true)) + 1 == count_false(marks),
    decreases marks.len(),
{
    let u = marks.update(i, true);
    if i == marks.len() - 1 {
        assert(u.drop_last() =~= marks.drop_last());
    } else {
        lemma_count_false(marks.drop_last(), i);
        assert(u.drop_last() =~= marks.drop_last().update(i, true));
    }
}

/// Of the first `n` entities, no unmarked one stands directly below a marked one
/// or below a top.
spec fn settled_marks(entities: Seq<EntityModel>, tops: Seq<Guid>, marks: Seq<bool>, n: int) -> bool {
    forall|j: int|
        0 <= j < n && !(#[trigger] marks[j]) ==> match entities[find(
            entities,
            entities[j].guid,
        ) as int].parent {
            Some(p) => !tops.contains(p) && (find(entities, p) < entities.len() ==> !marks[find(
                entities,
                p,
            ) as int]),
            None => true,
        }
}

proof fn lemma_unmarked(
    entities: Seq<EntityModel>,
    tops: Seq<Guid>,
    marks: Seq<bool>,
    j: int,
    m: nat,
)
    requires
        marks.len() == entities.len(),
        settled_marks(entities, tops, marks, entities.len() as int),
        forall|i: int|
            0 <= i < entities.len() && tops.contains(entities[i].guid) ==> #[trigger] marks[i],
        0 <= j < entities.len(),
        !marks[j],
    ensures
        !under(entities, tops, entities[j].guid, m),
    decreases m,
{
    if m > 0 {
        lemma_find(entities, entities[j].guid);
        assert(has(entities, entities[j].guid));
        match entities[find(entities, entities[j].guid) as int].parent {
            Some(p) => {
                lemma_find(entities, p);
                if find(entities, p) < entities.len() {
                    lemma_unmarked(entities, tops, marks, find(entities, p) as int, (m - 1) as nat);
                }
                assert(!under(entities, tops, p, (m - 1) as nat));
            },
            None => {},
        }
    }
}

/// Deleting keeps the rest of the list distinct and attached.
pub proof fn lemma_without_keeps_order(entities: Seq<EntityModel>, tops: Seq<Guid>)
    requires
        distinct(entities),
        attached(entities),
    ensures
        distinct(without(entities, tops)),
        attached(without(entities, tops)),
{
    let keep = |e: EntityModel| !doomed(entities, tops, e.guid);
    let out = without(entities, tops);
    lemma_filter_positions(entities, keep);
    assert forall|i: int, j: int| #![trigger out[i], out[j]] 0 <= i < j < out.len() implies out[i].guid
        != out[j].guid by {
        let f = positions(entities, keep);
        assert(f[i] < f[j]);
        assert(entities[f[i]].guid != entities[f[j]].guid);
    }
    assert forall|i: int| 0 <= i < out.len() implies match (#[trigger] out[i]).parent {
        Some(p) => has(out, p),
        None => true,
    } by {
        let f = positions(entities, keep);
        let g = f[i];
        assert(out[i] == entities[g]);
        match entities[g].parent {
            Some(p) => {
                assert(has(entities, p));
                lemma_find(entities, p);
                let h = find(entities, p) as int;
                if doomed(entities, tops, p) {
                    let m = choose|m: nat| under(entities, tops, p, m);
                    lemma_find_in_distinct(entities, g);
                    assert(under(entities, tops, entities[g].guid, m + 1));
                    assert(false);
                }
                assert(keep(entities[h]));
                let q = choose|q: int| 0 <= q < out.len() && f[q] == h;
                assert(out[q] == entities[h]);
            },
            None => {},
        }
    }
}

/// The places of the elements that a filter keeps, in order.
pub open spec fn positions(s: Seq<EntityModel>, keep: spec_fn(EntityModel) -> bool) -> Seq<int>
    decreases s.len(),
{
    if s.len() == 0 {
        Seq::empty()
    } else {
        let rest = positions(s.drop_last(), keep);
        if keep(s.last()) {
            rest.push(s.len() - 1)
        } else {
            rest
        }
    }
}

/// A filtered list is the list at the kept places.
pub proof fn lemma_filter_positions(s: Seq<EntityModel>, keep: spec_fn(EntityModel) -> bool)
    ensures
        s.filter(keep).len() == positions(s, keep).len(),
        forall|i: int|
            0 <= i < s.filter(keep).len() ==> {
                &&& 0 <= #[trigger] positions(s, keep)[i] < s.len()
                &&& s.filter(keep)[i] == s[positions(s, keep)[i]]
                &&& keep(s[positions(s, keep)[i]])
            },
        forall|i: int, j: int|
            #![trigger positions(s, keep)[i], positions(s, keep)[j]]
            0 <= i < j < s.filter(keep).len() ==> positions(s, keep)[i] < positions(s, keep)[j],
        forall|h: int|
            0 <= h < s.len() && keep(#[trigger] s[h]) ==> exists|i: int|
                0 <= i < s.filter(keep).len() && #[trigger] positions(s, keep)[i] == h,
    decreases s.len(),
{
    reveal(Seq::filter);
    if s.len() > 0 {
        let rest = s.drop_last();
        lemma_filter_positions(rest, keep);
        let f = positions(s, keep);
        let g = positions(rest, keep);
        assert forall|i: int| 0 <= i < s.filter(keep).len() implies {
            &&& 0 <= #[trigger] f[i] < s.len()
            &&& s.filter(keep)[i] == s[f[i]]
            &&& keep(s[f[i]])
        } by {
            if i < g.len() {
                assert(f[i] == g[i]);
            }
        }
        assert forall|i: int, j: int|
            #![trigger f[i], f[j]]
            0 <= i < j < s.filter(keep).len() implies f[i] < f[j] by {
            assert(f[i] == g[i]);
            if j < g.len() {
                assert(f[j] == g[j]);
            }
        }
        assert forall|h: int| 0 <= h < s.len() && keep(#[trigger] s[h]) implies exists|i: int|
            0 <= i < s.filter(keep).len() && #[trigger] f[i] == h by {
            if h < rest.len() {
                assert(rest[h] == s[h]);
                let i = choose|i: int| 0 <= i < rest.filter(keep).len() && #[trigger] g[i] == h;
                assert(f[i] == h);
            } else {
                assert(f[f.len() - 1] == h);
            }
        }
    }
}

/// A change leaves the document unsaved at the next version, and nothing else of it
/// moves; after the last version comes the first.
pub proof fn law_a_change_moves_the_version(d: DocModel)
    ensures
        d.touched().dirty,
        d.version < u64::MAX ==> d.touched().version == d.version + 1,
        d.version == u64::MAX ==> d.touched().version == 0,
        d.touched().entities == d.entities,
        d.touched().title == d.title,
        d.touched().settings == d.settings,
{
}

} // verus!
