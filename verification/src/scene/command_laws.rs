//! Undoing a command gives back the document it changed.

use crate::guid::Guid;
use crate::props::PropModel;
use crate::scene::component::{blob, blobs};
use crate::scene::command;
use crate::scene::command::{EditCommand, Item};
use crate::scene::doc;
use crate::scene::doc::DocModel;
use crate::scene::entity::{bound_material, EntityModel};
use crate::scene::foliage;
use crate::scene::paint;
use crate::scene::record::{PartsModel, RecordModel};
use crate::scene::reflect;
use vstd::prelude::*;

verus! {

/// The entities among the first `n` that go when the tops are deleted: their
/// records with their places.
pub open spec fn doomed_items(entities: Seq<EntityModel>, tops: Seq<Guid>, n: int) -> Seq<Item>
    decreases n,
{
    if n <= 0 {
        Seq::empty()
    } else if doc::doomed(entities, tops, entities[n - 1].guid) {
        doomed_items(entities, tops, n - 1).push((n - 1, entities[n - 1].record()))
    } else {
        doomed_items(entities, tops, n - 1)
    }
}

/// The places of deleted entities come in order.
pub proof fn lemma_doomed_items_ascend(entities: Seq<EntityModel>, tops: Seq<Guid>, n: int)
    requires
        0 <= n <= entities.len(),
    ensures
        command::places_ascend(doomed_items(entities, tops, n)),
        forall|i: int|
            0 <= i < doomed_items(entities, tops, n).len() ==> (#[trigger] doomed_items(
                entities,
                tops,
                n,
            )[i]).0 < n,
    decreases n,
{
    if n > 0 {
        lemma_doomed_items_ascend(entities, tops, n - 1);
    }
}

/// Whether a command tells the truth about the document it is about to change:
/// what it says was there before it is there.
pub open spec fn truthful(cmd: EditCommand, d: DocModel) -> bool {
    let all = d.entities;
    match cmd {
        EditCommand::Create { at, record } => {
            &&& !doc::has(all, record.guid)
            &&& at <= all.len()
            &&& record.parent matches Some(p) ==> doc::has(all, p)
        },
        EditCommand::Delete { items, tops } => {
            &&& command::by_place(command::items_of(items@)) == doomed_items(
                all,
                tops@,
                all.len() as int,
            )
            &&& forall|i: int| 0 <= i < all.len() ==> (#[trigger] all[i]).complete()
        },
        EditCommand::Rename { guid, before, .. } => doc::has(all, guid) ==> all[doc::find(
            all,
            guid,
        ) as int].name == Some(before@),
        EditCommand::Reparent { guid, before, .. } => doc::has(all, guid) ==> all[doc::find(
            all,
            guid,
        ) as int].parent == before,
        EditCommand::SetVisible { guid, before, .. } => doc::has(all, guid) ==> all[doc::find(
            all,
            guid,
        ) as int].visible == Some(before),
        EditCommand::SetTransform { guid, before, .. } => doc::has(all, guid) ==> all[doc::find(
            all,
            guid,
        ) as int].transform == Some(before),
        EditCommand::SetSprite { guid, before, .. } => doc::has(all, guid) ==> all[doc::find(
            all,
            guid,
        ) as int].parts.sprite == blob(before),
        EditCommand::SetActor { guid, before, .. } => doc::has(all, guid) ==> all[doc::find(
            all,
            guid,
        ) as int].parts.actor == before,
        EditCommand::SetMaterialAsset { guid, before, .. } => doc::has(all, guid) ==> match all[doc::find(
            all,
            guid,
        ) as int].parts.material {
            Some(m) => m.asset == before,
            None => true,
        },
        EditCommand::SetProp { guid, type_path, field, before, .. } => match reflect::own_prop(
            all,
            guid,
            type_path@,
            field@,
        ) {
            Some(now) => now == before@,
            None => true,
        },
        EditCommand::PaintFoliage { guid, removed, .. } => doc::has(all, guid) ==> match all[doc::find(
            all,
            guid,
        ) as int].parts.foliage {
            Some(f) => f.holds_all(foliage::uprooted(removed@)),
            None => true,
        },
        EditCommand::SetTiles { guid, cells } => doc::has(all, guid) ==> match all[doc::find(
            all,
            guid,
        ) as int].parts.tilemap {
            Some(tm) => tm.settled() && paint::paints_over(tm, cells@),
            None => true,
        },
        EditCommand::SetLevelSettings { old, .. } => d.settings == old,
        EditCommand::SwapComponents { guid, before, .. } => doc::has(all, guid) ==> {
            let e = all[doc::find(all, guid) as int];
            &&& e.transform == Some(before@.transform)
            &&& e.visible == Some(before@.visible)
            &&& e.parts == before@.parts
        },
        _ => true,
    }
}

/// A command that told the truth, done and undone, leaves the entities, the
/// title and the settings as they were, and so does every redo and undo after
/// that.
pub proof fn law_undo_restores(cmd: EditCommand, d: DocModel)
    requires
        doc::distinct(d.entities),
        doc::attached(d.entities),
        truthful(cmd, d),
    ensures
        cmd.effect(cmd.effect(d, false), true) == (if cmd.is_own() {
            d.touched().touched()
        } else {
            d
        }),
        cmd.effect(cmd.effect(cmd.effect(d, false), true), false).entities == cmd.effect(
            d,
            false,
        ).entities,
{
    let all = d.entities;
    let after = cmd.forward_entities(all);
    match cmd {
        EditCommand::Create { at, record } => {
            lemma_create_undo(all, record@, at as int);
        },
        EditCommand::Delete { items, tops } => {
            lemma_delete_undo(all, tops@);
        },
        EditCommand::Rename { guid, before, .. } => {
            lemma_swap(all, guid);
            lemma_find_after(all, after, guid);
            assert(cmd.backward_entities(after) =~= all);
        },
        EditCommand::Reparent { guid, before, .. } => {
            lemma_swap(all, guid);
            lemma_reparent_undo(cmd, all, guid);
        },
        EditCommand::SetVisible { guid, .. } => {
            lemma_swap(all, guid);
            lemma_find_after(all, after, guid);
            assert(cmd.backward_entities(after) =~= all);
        },
        EditCommand::SetTransform { guid, .. } => {
            lemma_swap(all, guid);
            lemma_find_after(all, after, guid);
            assert(cmd.backward_entities(after) =~= all);
        },
        EditCommand::SetSprite { guid, .. } => {
            lemma_swap(all, guid);
            lemma_find_after(all, after, guid);
            assert(cmd.backward_entities(after) =~= all);
        },
        EditCommand::SetActor { guid, .. } => {
            lemma_swap(all, guid);
            lemma_find_after(all, after, guid);
            assert(cmd.backward_entities(after) =~= all);
        },
        EditCommand::SetMaterialAsset { guid, .. } => {
            lemma_swap(all, guid);
            lemma_find_after(all, after, guid);
            if doc::has(all, guid) {
                let i = doc::find(all, guid) as int;
                assert(cmd.backward_entities(after)[i].parts == all[i].parts);
            }
            assert(cmd.backward_entities(after) =~= all);
        },
        EditCommand::SetProp { guid, type_path, field, before, after: value } => {
            reflect::law_written_prop_is_taken_back(
                all,
                guid,
                type_path@,
                field@,
                before@,
                value@,
            );
        },
        EditCommand::PaintFoliage { guid, added, removed, .. } => {
            lemma_swap(all, guid);
            lemma_find_after(all, after, guid);
            if doc::has(all, guid) {
                let i = doc::find(all, guid) as int;
                if let Some(f) = all[i].parts.foliage {
                    foliage::law_foliage_stroke_is_taken_back(
                        f,
                        blobs(added@),
                        foliage::uprooted(removed@),
                    );
                }
                assert(cmd.backward_entities(after)[i].parts == all[i].parts);
            }
            assert(cmd.backward_entities(after) =~= all);
        },
        EditCommand::SetTiles { guid, cells } => {
            lemma_swap(all, guid);
            lemma_find_after(all, after, guid);
            if doc::has(all, guid) {
                let i = doc::find(all, guid) as int;
                if let Some(tm) = all[i].parts.tilemap {
                    paint::law_stroke_is_taken_back(tm, cells@);
                }
                assert(cmd.backward_entities(after)[i].parts == all[i].parts);
            }
            assert(cmd.backward_entities(after) =~= all);
        },
        EditCommand::SwapComponents { guid, before, .. } => {
            lemma_swap(all, guid);
            lemma_find_after(all, after, guid);
            if doc::has(all, guid) {
                let i = doc::find(all, guid) as int;
                assert(cmd.backward_entities(after)[i].parts == all[i].parts);
            }
            assert(cmd.backward_entities(after) =~= all);
        },
        _ => {},
    }
    assert(cmd.backward_entities(after) == all);
}

/// Going forward keeps a list of entities distinct and attached, unless an
/// identity is created that is taken.
pub proof fn lemma_forward_keeps_shape(cmd: EditCommand, all: Seq<EntityModel>)
    requires
        doc::distinct(all),
        doc::attached(all),
        cmd matches EditCommand::Create { record, .. } ==> !doc::has(all, record.guid),
    ensures
        doc::distinct(cmd.forward_entities(all)),
        doc::attached(cmd.forward_entities(all)),
{
    let out = cmd.forward_entities(all);
    match cmd {
        EditCommand::Create { at, record } => {
            let p = doc::slot(all, at as int);
            let new = EntityModel::of_record(record@, doc::resolved(all, record@.parent));
            assert(out[p] == new);
            assert forall|i: int, j: int|
                #![trigger out[i], out[j]]
                0 <= i < j < out.len() implies out[i].guid != out[j].guid by {
                let a = if i < p {
                    i
                } else {
                    i - 1
                };
                let b = if j < p {
                    j
                } else {
                    j - 1
                };
                if i == p {
                    assert(out[j] == all[b]);
                } else if j == p {
                    assert(out[i] == all[a]);
                } else {
                    assert(out[i] == all[a] && out[j] == all[b]);
                }
            }
            assert forall|i: int| 0 <= i < out.len() implies match (#[trigger] out[i]).parent {
                Some(q) => doc::has(out, q),
                None => true,
            } by {
                match out[i].parent {
                    Some(q) => {
                        assert(doc::has(all, q)) by {
                            if i != p {
                                let a = if i < p {
                                    i
                                } else {
                                    i - 1
                                };
                                assert(out[i] == all[a]);
                            }
                        }
                        let h = choose|h: int| 0 <= h < all.len() && (#[trigger] all[h]).guid == q;
                        if h < p {
                            assert(out[h].guid == q);
                        } else {
                            assert(out[h + 1].guid == q);
                        }
                    },
                    None => {},
                }
            }
        },
        EditCommand::Delete { tops, .. } => {
            doc::lemma_without_keeps_order(all, tops@);
        },
        EditCommand::Reparent { guid, after, .. } => {
            doc::lemma_relinked_keeps_shape(all, guid, after);
        },
        EditCommand::Rename { guid, after, .. } => {
            doc::lemma_change_keeps_shape(
                all,
                guid,
                |e: EntityModel| EntityModel { name: Some(after@), ..e },
            );
        },
        EditCommand::SetVisible { guid, after, .. } => {
            doc::lemma_change_keeps_shape(
                all,
                guid,
                |e: EntityModel| EntityModel { visible: Some(after), ..e },
            );
        },
        EditCommand::SetTransform { guid, after, .. } => {
            doc::lemma_change_keeps_shape(
                all,
                guid,
                |e: EntityModel| EntityModel { transform: Some(after), ..e },
            );
        },
        EditCommand::SetSprite { guid, after, .. } => {
            let sprite = blob(after);
            doc::lemma_change_keeps_shape(
                all,
                guid,
                |e: EntityModel| EntityModel { parts: PartsModel { sprite, ..e.parts }, ..e },
            );
        },
        EditCommand::SetActor { guid, after, .. } => {
            let actor = after;
            doc::lemma_change_keeps_shape(
                all,
                guid,
                |e: EntityModel| EntityModel { parts: PartsModel { actor, ..e.parts }, ..e },
            );
        },
        EditCommand::SetMaterialAsset { guid, after, .. } => {
            let asset = after;
            doc::lemma_change_keeps_shape(
                all,
                guid,
                |e: EntityModel|
                    EntityModel {
                        parts: PartsModel {
                            material: bound_material(e.parts.material, asset),
                            ..e.parts
                        },
                        ..e
                    },
            );
        },
        EditCommand::SetProp { guid, field, after, .. } => {
            if let (Some(f), PropModel::Vec3(v)) = (reflect::field_named(field@), after@) {
                doc::lemma_change_keeps_shape(
                    all,
                    guid,
                    |e: EntityModel|
                        EntityModel {
                            transform: match e.transform {
                                Some(t) => Some(reflect::with_field(t, f, v)),
                                None => None,
                            },
                            ..e
                        },
                );
            }
        },
        EditCommand::PaintFoliage { guid, added, removed, .. } => {
            let (a, g) = (blobs(added@), foliage::uprooted(removed@));
            doc::lemma_change_keeps_shape(
                all,
                guid,
                |e: EntityModel|
                    EntityModel {
                        parts: PartsModel {
                            foliage: foliage::slot_stroked(e.parts.foliage, a, g, false),
                            ..e.parts
                        },
                        ..e
                    },
            );
        },
        EditCommand::SetTiles { guid, cells } => {
            let picked = paint::stroke_cells(cells@, false);
            doc::lemma_change_keeps_shape(
                all,
                guid,
                |e: EntityModel|
                    EntityModel {
                        parts: PartsModel {
                            tilemap: paint::slot_with_tiles(e.parts.tilemap, picked),
                            ..e.parts
                        },
                        ..e
                    },
            );
        },
        EditCommand::SwapComponents { guid, after, .. } => {
            let rec = after@;
            doc::lemma_change_keeps_shape(all, guid, |e: EntityModel| e.written(rec, true));
        },
        _ => {},
    }
}

/// Where an entity is found, and that it is there at all.
proof fn lemma_swap(all: Seq<EntityModel>, guid: Guid)
    ensures
        doc::find(all, guid) < all.len() <==> doc::has(all, guid),
        doc::find(all, guid) <= all.len(),
{
    doc::lemma_find(all, guid);
}

/// A change that keeps every identity keeps every place.
proof fn lemma_find_after(all: Seq<EntityModel>, after: Seq<EntityModel>, guid: Guid)
    requires
        after.len() == all.len(),
        forall|i: int| 0 <= i < all.len() ==> (#[trigger] after[i]).guid == all[i].guid,
    ensures
        doc::find(after, guid) == doc::find(all, guid),
        doc::has(after, guid) == doc::has(all, guid),
    decreases all.len(),
{
    doc::lemma_find(all, guid);
    doc::lemma_find(after, guid);
    let i = doc::find(all, guid) as int;
    let j = doc::find(after, guid) as int;
    if i < all.len() {
        assert(after[i].guid == guid);
        assert(doc::has(after, guid));
    }
    if j < after.len() {
        assert(all[j].guid == guid);
        assert(doc::has(all, guid));
    }
    if i < j {
        assert(after[i].guid != guid);
    } else if j < i {
        assert(all[j].guid != guid);
    }
}

proof fn lemma_reparent_undo(cmd: EditCommand, all: Seq<EntityModel>, guid: Guid)
    requires
        doc::distinct(all),
        doc::attached(all),
        cmd matches EditCommand::Reparent { guid: g, before, .. } && g == guid && (doc::has(all, guid)
            ==> all[doc::find(all, guid) as int].parent == before),
    ensures
        cmd.backward_entities(cmd.forward_entities(all)) == all,
{
    match cmd {
        EditCommand::Reparent { before, after, .. } => {
            let mid = cmd.forward_entities(all);
            doc::lemma_relinked_keeps_shape(all, guid, after);
            lemma_find_after(all, mid, guid);
            doc::lemma_find(all, guid);
            let i = doc::find(all, guid) as int;
            match before {
                Some(p) => {
                    lemma_find_after(all, mid, p);
                    if doc::has(all, guid) {
                        assert(all[i].parent == Some(p));
                        assert(doc::has(all, p));
                    }
                },
                None => {},
            }
            assert(cmd.backward_entities(mid) =~= all);
        },
        _ => {},
    }
}

// ---------------------------------------------------------------- create

proof fn lemma_create_undo(all: Seq<EntityModel>, rec: RecordModel, at: int)
    requires
        doc::distinct(all),
        doc::attached(all),
        !doc::has(all, rec.guid),
        0 <= at <= all.len(),
        rec.parent matches Some(p) ==> doc::has(all, p),
    ensures
        doc::without(doc::respawned(all, rec, at), seq![rec.guid]) == all,
{
    let mid = doc::respawned(all, rec, at);
    let tops = seq![rec.guid];
    let new = EntityModel::of_record(rec, doc::resolved(all, rec.parent));
    assert(mid[at] == new);
    assert forall|i: int| 0 <= i < mid.len() && i != at implies !doc::doomed(
        mid,
        tops,
        (#[trigger] mid[i]).guid,
    ) by {
        assert forall|n: nat| !(#[trigger] doc::under(mid, tops, mid[i].guid, n)) by {
            lemma_not_under_new(all, rec, at, mid[i].guid, n);
        }
    }
    assert(tops[0] == rec.guid);
    assert(doc::under(mid, tops, mid[at].guid, 0));
    assert(doc::doomed(mid, tops, mid[at].guid));
    let keep = |e: EntityModel| !doc::doomed(mid, tops, e.guid);
    assert forall|i: int| 0 <= i < mid.len() implies #[trigger] keep(mid[i]) == (i != at) by {}
    lemma_filter_all_but(mid, keep, at);
    assert(mid.remove(at) =~= all);
}

/// Nothing stands below an entity that was just created.
proof fn lemma_not_under_new(
    all: Seq<EntityModel>,
    rec: RecordModel,
    at: int,
    guid: Guid,
    n: nat,
)
    requires
        doc::distinct(all),
        doc::attached(all),
        !doc::has(all, rec.guid),
        0 <= at <= all.len(),
        doc::has(all, guid),
    ensures
        !doc::under(doc::respawned(all, rec, at), seq![rec.guid], guid, n),
    decreases n,
{
    let mid = doc::respawned(all, rec, at);
    let tops = seq![rec.guid];
    assert(guid != rec.guid);
    assert forall|g: Guid| tops.contains(g) implies g == rec.guid by {}
    if n > 0 {
        doc::lemma_find(mid, guid);
        let i = doc::find(mid, guid) as int;
        if i < mid.len() {
            assert(mid[i].guid == guid);
            assert(i != at);
            let j = if i < at {
                i
            } else {
                i - 1
            };
            assert(mid[i] == all[j]);
            match all[j].parent {
                Some(p) => {
                    assert(doc::has(all, p));
                    lemma_not_under_new(all, rec, at, p, (n - 1) as nat);
                },
                None => {},
            }
        }
    }
}

/// A filter that keeps all but one element removes that one.
proof fn lemma_filter_all_but(s: Seq<EntityModel>, keep: spec_fn(EntityModel) -> bool, at: int)
    requires
        0 <= at < s.len(),
        forall|i: int| 0 <= i < s.len() ==> #[trigger] keep(s[i]) == (i != at),
    ensures
        s.filter(keep) == s.remove(at),
    decreases s.len(),
{
    reveal(Seq::filter);
    let rest = s.drop_last();
    let n = s.len() - 1;
    if at == n {
        lemma_filter_all(rest, keep);
        assert(!keep(s[n]));
        assert(s.remove(at) =~= rest);
    } else {
        assert forall|i: int| 0 <= i < rest.len() implies #[trigger] keep(rest[i]) == (i != at) by {
            assert(rest[i] == s[i]);
        }
        lemma_filter_all_but(rest, keep, at);
        assert(keep(s[n]));
        assert(rest.remove(at).push(s[n]) =~= s.remove(at));
    }
}

proof fn lemma_filter_all(s: Seq<EntityModel>, keep: spec_fn(EntityModel) -> bool)
    requires
        forall|i: int| 0 <= i < s.len() ==> #[trigger] keep(s[i]),
    ensures
        s.filter(keep) == s,
    decreases s.len(),
{
    reveal(Seq::filter);
    if s.len() > 0 {
        let rest = s.drop_last();
        assert forall|i: int| 0 <= i < rest.len() implies #[trigger] keep(rest[i]) by {
            assert(rest[i] == s[i]);
        }
        lemma_filter_all(rest, keep);
        assert(keep(s[s.len() - 1]));
        assert(rest.push(s.last()) =~= s);
    }
}

// ---------------------------------------------------------------- delete

/// A filter looks at the first element first.
proof fn lemma_filter_first(s: Seq<EntityModel>, keep: spec_fn(EntityModel) -> bool)
    requires
        s.len() > 0,
    ensures
        s.filter(keep) == (if keep(s[0]) {
            seq![s[0]]
        } else {
            Seq::empty()
        }) + s.drop_first().filter(keep),
    decreases s.len(),
{
    reveal(Seq::filter);
    let rest = s.drop_last();
    if rest.len() > 0 {
        lemma_filter_first(rest, keep);
        assert(s.drop_first().drop_last() =~= rest.drop_first());
        assert(s.drop_first().last() == s.last());
        assert(s.filter(keep) =~= (if keep(s[0]) {
            seq![s[0]]
        } else {
            Seq::empty()
        }) + s.drop_first().filter(keep));
    } else {
        assert(s.drop_first() =~= Seq::<EntityModel>::empty());
        assert(rest =~= Seq::<EntityModel>::empty());
        assert(s.filter(keep) =~= (if keep(s[0]) {
            seq![s[0]]
        } else {
            Seq::empty()
        }) + s.drop_first().filter(keep));
    }
}

/// Whether `e` is the entity `o` again, its parent aside: the parent is the
/// same, or, of an entity that was deleted, not there yet.
spec fn nearly(e: EntityModel, o: EntityModel, gone: bool) -> bool {
    &&& e == (EntityModel { parent: e.parent, ..o })
    &&& e.parent == o.parent || (gone && e.parent is None)
}

/// What is there once the entities deleted from the first `j` places are back:
/// the first `j` entities, and what was kept of the others.
spec fn half_restored(all: Seq<EntityModel>, tops: Seq<Guid>, now: Seq<EntityModel>, j: int) -> bool {
    let keep = |e: EntityModel| !doc::doomed(all, tops, e.guid);
    let tail = all.skip(j).filter(keep);
    &&& now.len() == j + tail.len()
    &&& forall|i: int|
        0 <= i < j ==> nearly(
            #[trigger] now[i],
            all[i],
            doc::doomed(all, tops, all[i].guid),
        )
    &&& forall|i: int| j <= i < now.len() ==> (#[trigger] now[i]) == tail[i - j]
}

proof fn lemma_respawn(all: Seq<EntityModel>, tops: Seq<Guid>, j: int)
    requires
        0 <= j <= all.len(),
        forall|i: int| 0 <= i < all.len() ==> (#[trigger] all[i]).complete(),
    ensures
        half_restored(
            all,
            tops,
            command::respawned_all(doc::without(all, tops), doomed_items(all, tops, j)),
            j,
        ),
    decreases j,
{
    let keep = |e: EntityModel| !doc::doomed(all, tops, e.guid);
    if j == 0 {
        assert(all.skip(0) =~= all);
        assert(doc::without(all, tops) == all.filter(keep));
    } else {
        let k = j - 1;
        lemma_respawn(all, tops, k);
        let before = command::respawned_all(doc::without(all, tops), doomed_items(all, tops, k));
        let items = doomed_items(all, tops, j);
        let now = command::respawned_all(doc::without(all, tops), items);
        let tail = all.skip(k).filter(keep);
        let tail1 = all.skip(j).filter(keep);
        assert(all.skip(k)[0] == all[k]);
        assert(all.skip(k).drop_first() =~= all.skip(j));
        lemma_filter_first(all.skip(k), keep);
        if doc::doomed(all, tops, all[k].guid) {
            assert(tail =~= tail1);
            assert(items.drop_last() =~= doomed_items(all, tops, k));
            assert(items.last() == (k, all[k].record()));
            let rec = all[k].record();
            assert(all[k].complete());
            let new = EntityModel::of_record(rec, doc::resolved(before, rec.parent));
            assert(now == before.insert(k, new));
            assert(nearly(new, all[k], true));
            assert forall|i: int| 0 <= i < j implies nearly(
                #[trigger] now[i],
                all[i],
                doc::doomed(all, tops, all[i].guid),
            ) by {
                if i < k {
                    assert(now[i] == before[i]);
                }
            }
            assert forall|i: int| j <= i < now.len() implies (#[trigger] now[i]) == tail1[i - j] by {
                assert(now[i] == before[i - 1]);
            }
        } else {
            assert(keep(all[k]));
            assert(tail =~= seq![all[k]] + tail1);
            assert(now == before);
            assert(before[k] == tail[0]);
            assert forall|i: int| 0 <= i < j implies nearly(
                #[trigger] now[i],
                all[i],
                doc::doomed(all, tops, all[i].guid),
            ) by {}
            assert forall|i: int| j <= i < now.len() implies (#[trigger] now[i]) == tail1[i - j] by {
                assert(now[i] == tail[i - k]);
            }
        }
    }
}

/// What is there once the first `j` of the entities that came back are below
/// their parents.
spec fn half_attached(all: Seq<EntityModel>, tops: Seq<Guid>, now: Seq<EntityModel>, j: int) -> bool {
    &&& now.len() == all.len()
    &&& forall|i: int|
        0 <= i < all.len() ==> nearly(
            #[trigger] now[i],
            all[i],
            doc::doomed(all, tops, all[i].guid),
        )
    &&& forall|i: int| 0 <= i < j ==> (#[trigger] now[i]) == all[i]
}

proof fn lemma_reattach(all: Seq<EntityModel>, tops: Seq<Guid>, back: Seq<EntityModel>, j: int)
    requires
        doc::distinct(all),
        doc::attached(all),
        0 <= j <= all.len(),
        half_attached(all, tops, back, 0),
    ensures
        half_attached(
            all,
            tops,
            command::reattached_all(back, doomed_items(all, tops, j)),
            j,
        ),
    decreases j,
{
    if j > 0 {
        let k = j - 1;
        lemma_reattach(all, tops, back, k);
        let before = command::reattached_all(back, doomed_items(all, tops, k));
        let items = doomed_items(all, tops, j);
        let now = command::reattached_all(back, items);
        assert forall|i: int| 0 <= i < all.len() implies (#[trigger] before[i]).guid == all[i].guid by {
            assert(nearly(before[i], all[i], doc::doomed(all, tops, all[i].guid)));
        }
        assert(nearly(before[k], all[k], doc::doomed(all, tops, all[k].guid)));
        if doc::doomed(all, tops, all[k].guid) {
            assert(items.drop_last() =~= doomed_items(all, tops, k));
            assert(items.last() == (k, all[k].record()));
            lemma_find_after(all, before, all[k].guid);
            doc::lemma_find_in_distinct(all, k);
            match all[k].parent {
                Some(p) => {
                    assert(doc::has(all, p));
                    lemma_find_after(all, before, p);
                    assert(now[k] == all[k]);
                },
                None => {
                    assert(now == before);
                },
            }
            assert forall|i: int| 0 <= i < all.len() implies nearly(
                #[trigger] now[i],
                all[i],
                doc::doomed(all, tops, all[i].guid),
            ) by {
                assert(nearly(before[i], all[i], doc::doomed(all, tops, all[i].guid)));
                if i != k {
                    assert(now[i] == before[i]);
                }
            }
            assert forall|i: int| 0 <= i < j implies (#[trigger] now[i]) == all[i] by {
                if i < k {
                    assert(now[i] == before[i]);
                }
            }
        } else {
            assert(now == before);
            assert(before[k] == all[k]);
        }
    }
}

/// Deleting a subtree and bringing it back gives the entities as they were,
/// every one in its place and below its parent.
proof fn lemma_delete_undo(all: Seq<EntityModel>, tops: Seq<Guid>)
    requires
        doc::distinct(all),
        doc::attached(all),
        forall|i: int| 0 <= i < all.len() ==> (#[trigger] all[i]).complete(),
    ensures
        ({
            let items = doomed_items(all, tops, all.len() as int);
            command::reattached_all(
                command::respawned_all(doc::without(all, tops), items),
                items,
            ) == all
        }),
{
    let n = all.len() as int;
    let items = doomed_items(all, tops, n);
    let back = command::respawned_all(doc::without(all, tops), items);
    lemma_respawn(all, tops, n);
    assert(all.skip(n) =~= Seq::<EntityModel>::empty());
    reveal(Seq::filter);
    assert(half_attached(all, tops, back, 0));
    lemma_reattach(all, tops, back, n);
    assert(command::reattached_all(back, items) =~= all);
}

} // verus!
