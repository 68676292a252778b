//! What an edit leaves behind, entity by entity.

use crate::guid::Guid;
use crate::props::PropValue;
use crate::scene::command::EditCommand;
use crate::scene::component::{blobs, Component, Material, Transform};
use crate::scene::doc;
use crate::scene::doc::SceneDoc;
use crate::scene::entity::EntityModel;
use crate::scene::foliage;
use crate::scene::paint;
use crate::scene::record::{EntityRecord, PartsModel};
use crate::scene::settings::LevelSettings;
use vstd::prelude::*;

verus! {

/// The first entity of an identity is where the lookup finds it.
proof fn lemma_first(entities: Seq<EntityModel>, i: int)
    requires
        0 <= i < entities.len(),
        forall|j: int| 0 <= j < i ==> (#[trigger] entities[j]).guid != entities[i].guid,
    ensures
        doc::find(entities, entities[i].guid) == i,
        doc::has(entities, entities[i].guid),
{
    let guid = entities[i].guid;
    doc::lemma_find(entities, guid);
    assert(doc::has(entities, guid));
    let k = doc::find(entities, guid) as int;
    if k < i {
        assert(entities[k].guid == guid);
    } else if k > i {
        assert(entities[i].guid != guid);
    }
}

/// What an edit of one entity leaves behind, going forward with what the command
/// says comes after it and going back with what it says came before. Entity `i`
/// is the first of its identity and the one that the command addresses: the
/// field that the command is about holds that value, every other field holds
/// what it held, and so does every other entity. The title and the settings stay,
/// and the document is unsaved.
pub proof fn law_an_edit_sets_one_field(
    cmd: EditCommand,
    before: SceneDoc,
    after: SceneDoc,
    revert: bool,
    i: int,
)
    requires
        after@ == cmd.effect(before@, revert),
        0 <= i < before.entities@.len(),
        forall|j: int|
            0 <= j < i ==> (#[trigger] before.entities@[j]).guid != before.entities@[i].guid,
    ensures
        ({
            let e = before.entities@[i]@;
            let guid = before.entities@[i].guid;
            let out = after.entities@;
            let others = out.len() == before.entities@.len() && after.title@ == before.title@
                && after.settings == before.settings && after.dirty && forall|j: int|
                0 <= j < out.len() && j != i ==> (#[trigger] out[j])@ == before.entities@[j]@;
            match cmd {
                EditCommand::Rename { guid: g, before: old, after: new } => g == guid ==> others && out[i]@
                    == (EntityModel {
                    name: Some(
                        if revert {
                            old@
                        } else {
                            new@
                        },
                    ),
                    ..e
                }) && (out[i].name matches Some(n) && n@ == (if revert {
                    old@
                } else {
                    new@
                })),
                EditCommand::SetVisible { guid: g, before: old, after: new } => g == guid ==> others
                    && out[i]@ == (EntityModel {
                    visible: Some(
                        if revert {
                            old
                        } else {
                            new
                        },
                    ),
                    ..e
                }) && out[i].visible == Some(
                    if revert {
                        old
                    } else {
                        new
                    },
                ),
                EditCommand::SetTransform { guid: g, before: old, after: new } => g == guid ==> others
                    && out[i]@ == (EntityModel {
                    transform: Some(
                        if revert {
                            old
                        } else {
                            new
                        },
                    ),
                    ..e
                }) && out[i].transform == Some(
                    if revert {
                        old
                    } else {
                        new
                    },
                ),
                EditCommand::Reparent { guid: g, before: old, after: new } => {
                    let to = if revert {
                        old
                    } else {
                        new
                    };
                    let there = forall|p: Guid|
                        to == Some(p) ==> exists|j: int|
                            0 <= j < before.entities@.len() && (#[trigger] before.entities@[j]).guid == p;
                    g == guid ==> others && (there ==> out[i]@ == (EntityModel { parent: to, ..e })
                        && out[i].parent == to) && (!there ==> out[i]@ == e)
                },
                EditCommand::SetSprite { guid: g, before: old, after: new } => {
                    let to = if revert {
                        old
                    } else {
                        new
                    };
                    g == guid ==> others && out[i]@ == (EntityModel {
                        parts: PartsModel { sprite: out[i]@.parts.sprite, ..e.parts },
                        ..e
                    }) && match to {
                        Some(c) => out[i].parts.sprite matches Some(s) && s.bytes@ == c.bytes@,
                        None => out[i].parts.sprite is None,
                    }
                },
                EditCommand::SetActor { guid: g, before: old, after: new } => g == guid ==> others
                    && out[i]@ == (EntityModel {
                    parts: PartsModel { actor: out[i]@.parts.actor, ..e.parts },
                    ..e
                }) && out[i].parts.actor == (if revert {
                    old
                } else {
                    new
                }),
                EditCommand::SetMaterialAsset { guid: g, before: old, after: new } => g == guid
                    ==> others && out[i]@ == (EntityModel {
                    parts: PartsModel { material: out[i]@.parts.material, ..e.parts },
                    ..e
                }) && match before.entities@[i].parts.material {
                    Some(m) => out[i].parts.material == Some(
                        Material {
                            asset: if revert {
                                old
                            } else {
                                new
                            },
                            ..m
                        },
                    ),
                    None => out[i].parts.material is None,
                },
                EditCommand::SetProp { guid: g, type_path, field, before: old, after: new } => {
                    let to = if revert {
                        old
                    } else {
                        new
                    };
                    let was = before.entities@[i].transform;
                    let now = out[i].transform;
                    g == guid && type_path@ == "inf_ecs::components::Transform"@ ==> others && out[i]@
                        == (EntityModel { transform: now, ..e }) && match (was, to) {
                        (Some(t), PropValue::Vec3(v)) => if field@ == "translation"@ {
                            now == Some(Transform { translation: v, ..t })
                        } else if field@ == "rotation"@ {
                            now == Some(Transform { rotation: v, ..t })
                        } else if field@ == "scale"@ {
                            now == Some(Transform { scale: v, ..t })
                        } else {
                            now == was
                        },
                        _ => now == was,
                    }
                },
                EditCommand::SwapComponents { guid: g, before: old, after: new } => {
                    let to = if revert {
                        old
                    } else {
                        new
                    };
                    g == guid ==> others && out[i]@ == (EntityModel {
                        transform: Some(to.transform),
                        visible: Some(to.visible),
                        parts: to@.parts,
                        ..e
                    })
                },
                _ => true,
            }
        }),
{
    let all = before@.entities;
    let got = after@.entities;
    let cmd_out = cmd.effect(before@, revert).entities;
    assert forall|j: int| 0 <= j < all.len() implies #[trigger] all[j] == before.entities@[j]@ by {}
    assert forall|j: int| 0 <= j < got.len() implies #[trigger] got[j] == after.entities@[j]@ by {}
    assert forall|j: int| 0 <= j < i implies (#[trigger] all[j]).guid != all[i].guid by {
        assert(before.entities@[j].guid != before.entities@[i].guid);
    }
    lemma_first(all, i);
    assert(got == cmd_out);
    assert(got.len() == after.entities@.len());
    assert(after.dirty == after@.dirty && after.title@ == after@.title && after.settings
        == after@.settings);
    match cmd {
        EditCommand::Rename { guid: g, before: old, after: new } => {
            if g == all[i].guid {
                assert(got[i].name == Some(
                    if revert {
                        old@
                    } else {
                        new@
                    },
                ));
            }
        },
        EditCommand::SetSprite { guid: g, before: old, after: new } => {
            if g == all[i].guid {
                assert(got[i] == after.entities@[i]@);
            }
        },
        EditCommand::Reparent { guid: g, before: old, after: new } => {
            let to = if revert {
                old
            } else {
                new
            };
            match to {
                Some(p) => {
                    if doc::has(all, p) {
                        let k = choose|k: int| 0 <= k < all.len() && (#[trigger] all[k]).guid == p;
                        assert(before.entities@[k].guid == p);
                    } else {
                        assert forall|j: int| 0 <= j < before.entities@.len() implies (
                        #[trigger] before.entities@[j]).guid != p by {
                            assert(all[j].guid != p);
                        }
                    }
                },
                None => {},
            }
            if g == all[i].guid {
                assert(got[i] == after.entities@[i]@);
            }
        },
        EditCommand::SetProp { .. } => {
            reveal_strlit("translation");
            reveal_strlit("rotation");
            reveal_strlit("scale");
            assert("translation"@.len() == 11);
            assert("rotation"@.len() == 8);
            assert("scale"@.len() == 5);
        },
        EditCommand::SwapComponents { before: old, after: new, .. } => {
            let to = if revert {
                old
            } else {
                new
            };
            crate::scene::entity::law_written_record_reads_back(all[i], to@, true);
        },
        _ => {},
    }
    if got.len() == all.len() {
        assert(got[i] == after.entities@[i]@);
        assert forall|j: int| 0 <= j < got.len() && j != i && got[j] == all[j] implies (
        #[trigger] after.entities@[j])@ == before.entities@[j]@ by {
            assert(got[j] == after.entities@[j]@);
            assert(all[j] == before.entities@[j]@);
        }
        assert forall|j: int| 0 <= j < got.len() implies #[trigger] after.entities@[j]@ == got[j] by {
            assert(got[j] == after.entities@[j]@);
        }
    }
}

/// An edit of an entity that is not there changes no entity.
pub proof fn law_an_edit_of_nothing_changes_nothing(
    cmd: EditCommand,
    before: SceneDoc,
    after: SceneDoc,
    revert: bool,
)
    requires
        after@ == cmd.effect(before@, revert),
        match cmd {
            EditCommand::Rename { guid, .. }
            | EditCommand::Reparent { guid, .. }
            | EditCommand::SetVisible { guid, .. }
            | EditCommand::SetTransform { guid, .. }
            | EditCommand::SetProp { guid, .. }
            | EditCommand::SetSprite { guid, .. }
            | EditCommand::SetActor { guid, .. }
            | EditCommand::SetMaterialAsset { guid, .. }
            | EditCommand::SetTiles { guid, .. }
            | EditCommand::PaintFoliage { guid, .. }
            | EditCommand::SwapComponents { guid, .. } => forall|j: int|
                0 <= j < before.entities@.len() ==> (#[trigger] before.entities@[j]).guid != guid,
            _ => false,
        },
    ensures
        after@.entities == before@.entities,
        after.settings == before.settings,
        after.title@ == before.title@,
{
    let all = before@.entities;
    assert forall|j: int| 0 <= j < all.len() implies #[trigger] all[j] == before.entities@[j]@ by {}
    match cmd {
        EditCommand::Rename { guid, .. }
        | EditCommand::Reparent { guid, .. }
        | EditCommand::SetVisible { guid, .. }
        | EditCommand::SetTransform { guid, .. }
        | EditCommand::SetProp { guid, .. }
        | EditCommand::SetSprite { guid, .. }
        | EditCommand::SetActor { guid, .. }
        | EditCommand::SetMaterialAsset { guid, .. }
        | EditCommand::SetTiles { guid, .. }
        | EditCommand::PaintFoliage { guid, .. }
        | EditCommand::SwapComponents { guid, .. } => {
            doc::lemma_find(all, guid);
            assert(!doc::has(all, guid));
        },
        _ => {},
    }
}

/// A created entity stands at its place, the end where the place is past it, with
/// everything its record says, below the parent it names where that is there.
/// Every other entity keeps its order and what it held.
pub proof fn law_create_adds_one_entity(
    at: usize,
    record: Box<EntityRecord>,
    before: SceneDoc,
    after: SceneDoc,
)
    requires
        after@ == (EditCommand::Create { at, record }).effect(before@, false),
    ensures
        ({
            let n = before.entities@.len() as int;
            let p = if at <= n {
                at as int
            } else {
                n
            };
            let new = after.entities@[p];
            &&& after.entities@.len() == n + 1
            &&& forall|j: int| 0 <= j < p ==> (#[trigger] after.entities@[j])@ == before.entities@[j]@
            &&& forall|j: int|
                p < j <= n ==> (#[trigger] after.entities@[j])@ == before.entities@[j - 1]@
            &&& new.guid == record.guid
            &&& new.name matches Some(name) && name@ == record.name@
            &&& new.transform == Some(record.transform)
            &&& new.visible == Some(record.visible)
            &&& new.parts@ == record@.parts
            &&& new.parent matches Some(q) ==> record.parent == Some(q)
            &&& record.parent matches Some(q) ==> (new.parent == Some(q) <==> exists|j: int|
                0 <= j < n && (#[trigger] before.entities@[j]).guid == q)
            &&& after.title@ == before.title@ && after.settings == before.settings && after.dirty
        }),
{
    let all = before@.entities;
    let got = after@.entities;
    let n = all.len() as int;
    let p = if at <= n {
        at as int
    } else {
        n
    };
    assert(got.len() == after.entities@.len());
    assert(got[p] == after.entities@[p]@);
    assert forall|j: int| 0 <= j < p implies (#[trigger] after.entities@[j])@ == before.entities@[j]@ by {
        assert(got[j] == after.entities@[j]@);
        assert(all[j] == before.entities@[j]@);
    }
    assert forall|j: int| p < j <= n implies (#[trigger] after.entities@[j])@ == before.entities@[j
        - 1]@ by {
        assert(got[j] == after.entities@[j]@);
        assert(all[j - 1] == before.entities@[j - 1]@);
    }
    match record.parent {
        Some(q) => {
            if doc::has(all, q) {
                let k = choose|k: int| 0 <= k < all.len() && (#[trigger] all[k]).guid == q;
                assert(before.entities@[k].guid == q);
            }
            if exists|j: int| 0 <= j < n && (#[trigger] before.entities@[j]).guid == q {
                let j = choose|j: int| 0 <= j < n && (#[trigger] before.entities@[j]).guid == q;
                assert(all[j].guid == q);
            }
        },
        None => {},
    }
}

/// Whether the entities that a deletion takes are closed: one that is named is
/// taken, and so is one whose parent is. Where an identity occurs more than once,
/// its first entity stands for it.
pub proof fn law_a_deletion_takes_what_stands_below(
    entities: Seq<EntityModel>,
    tops: Seq<Guid>,
    i: int,
    gone: spec_fn(Guid) -> bool,
)
    requires
        0 <= i < entities.len(),
        forall|j: int| 0 <= j < i ==> (#[trigger] entities[j]).guid != entities[i].guid,
    ensures
        tops.contains(entities[i].guid) ==> doc::doomed(entities, tops, entities[i].guid),
        entities[i].parent matches Some(p) ==> (doc::doomed(entities, tops, p) ==> doc::doomed(
            entities,
            tops,
            entities[i].guid,
        )),
        (forall|g: Guid| tops.contains(g) ==> #[trigger] gone(g)) && (forall|k: int|
            0 <= k < entities.len() && (#[trigger] entities[k]).parent is Some && gone(
                entities[k].parent->0,
            ) ==> gone(entities[k].guid)) && doc::doomed(entities, tops, entities[i].guid) ==> gone(
            entities[i].guid,
        ),
{
    let guid = entities[i].guid;
    lemma_first(entities, i);
    if tops.contains(guid) {
        assert(doc::under(entities, tops, guid, 0));
    }
    match entities[i].parent {
        Some(p) => {
            if doc::doomed(entities, tops, p) {
                let n = choose|n: nat| #[trigger] doc::under(entities, tops, p, n);
                assert(doc::under(entities, tops, guid, n + 1));
            }
        },
        None => {},
    }
    if (forall|g: Guid| tops.contains(g) ==> #[trigger] gone(g)) && (forall|k: int|
        0 <= k < entities.len() && (#[trigger] entities[k]).parent is Some && gone(
            entities[k].parent->0,
        ) ==> gone(entities[k].guid)) && doc::doomed(entities, tops, guid) {
        let n = choose|n: nat| #[trigger] doc::under(entities, tops, guid, n);
        lemma_under_is_gone(entities, tops, guid, n, gone);
    }
}

proof fn lemma_under_is_gone(
    entities: Seq<EntityModel>,
    tops: Seq<Guid>,
    guid: Guid,
    n: nat,
    gone: spec_fn(Guid) -> bool,
)
    requires
        doc::under(entities, tops, guid, n),
        forall|g: Guid| tops.contains(g) ==> #[trigger] gone(g),
        forall|k: int|
            0 <= k < entities.len() && (#[trigger] entities[k]).parent is Some && gone(
                entities[k].parent->0,
            ) ==> gone(entities[k].guid),
    ensures
        gone(guid),
    decreases n,
{
    if !tops.contains(guid) {
        doc::lemma_find(entities, guid);
        let k = doc::find(entities, guid) as int;
        let p = entities[k].parent->0;
        lemma_under_is_gone(entities, tops, p, (n - 1) as nat, gone);
        assert(entities[k].parent is Some);
    }
}

/// A deletion leaves exactly the entities that it does not take, in their order
/// and as they were; `places` are where they stood.
pub proof fn law_a_deletion_leaves_the_rest(
    items: Vec<(usize, EntityRecord)>,
    tops: Vec<Guid>,
    before: SceneDoc,
    after: SceneDoc,
) -> (places: Seq<int>)
    requires
        after@ == (EditCommand::Delete { items, tops }).effect(before@, false),
    ensures
        after.entities@.len() == places.len(),
        forall|k: int|
            0 <= k < places.len() ==> 0 <= (#[trigger] places[k]) < before.entities@.len()
                && after.entities@[k]@ == before.entities@[places[k]]@,
        forall|j: int, k: int|
            #![trigger places[j], places[k]]
            0 <= j < k < places.len() ==> places[j] < places[k],
        forall|i: int|
            0 <= i < before.entities@.len() ==> (places.contains(i) <==> !doc::doomed(
                before@.entities,
                tops@,
                (#[trigger] before.entities@[i]).guid,
            )),
        after.title@ == before.title@ && after.settings == before.settings && after.dirty,
{
    let all = before@.entities;
    let got = after@.entities;
    let keep = |e: EntityModel| !doc::doomed(all, tops@, e.guid);
    doc::lemma_filter_positions(all, keep);
    let places = doc::positions(all, keep);
    assert(got == all.filter(keep));
    assert(got.len() == after.entities@.len());
    assert forall|k: int| 0 <= k < places.len() implies 0 <= (#[trigger] places[k])
        < before.entities@.len() && after.entities@[k]@ == before.entities@[places[k]]@ by {
        assert(got[k] == after.entities@[k]@);
        assert(all[places[k]] == before.entities@[places[k]]@);
    }
    assert forall|i: int| 0 <= i < before.entities@.len() implies (places.contains(i)
        <==> !doc::doomed(all, tops@, (#[trigger] before.entities@[i]).guid)) by {
        assert(all[i] == before.entities@[i]@);
        if places.contains(i) {
            let k = choose|k: int| 0 <= k < places.len() && places[k] == i;
            assert(keep(all[places[k]]));
        }
        if keep(all[i]) {
            let k = choose|k: int| 0 <= k < all.filter(keep).len() && #[trigger] places[k] == i;
            assert(places[k] == i);
        }
    }
    places
}

/// A stroke on an entity's tilemap changes its tilemap and nothing else: the map
/// is painted with what the stroke says came after, or going back with what it
/// says was there.
pub proof fn law_a_stroke_changes_one_tilemap(
    guid: Guid,
    cells: Vec<(i32, i32, u32, u32)>,
    before: SceneDoc,
    after: SceneDoc,
    revert: bool,
    i: int,
    x: i32,
    y: i32,
)
    requires
        after@ == (EditCommand::SetTiles { guid, cells }).effect(before@, revert),
        0 <= i < before.entities@.len(),
        before.entities@[i].guid == guid,
        forall|j: int| 0 <= j < i ==> (#[trigger] before.entities@[j]).guid != guid,
        before.entities@[i].parts.tilemap matches Some(tm) ==> tm@.settled(),
    ensures
        ({
            let e = before.entities@[i]@;
            let out = after.entities@;
            let at = |k: int| 0 <= k < cells@.len() && cells@[k].0 == x && cells@[k].1 == y;
            &&& out.len() == before.entities@.len()
            &&& forall|j: int|
                0 <= j < out.len() && j != i ==> (#[trigger] out[j])@ == before.entities@[j]@
            &&& out[i]@ == (EntityModel {
                parts: PartsModel { tilemap: out[i]@.parts.tilemap, ..e.parts },
                ..e
            })
            &&& after.title@ == before.title@ && after.settings == before.settings && after.dirty
            &&& match before.entities@[i].parts.tilemap {
                Some(tm) => out[i].parts.tilemap matches Some(now) && {
                    &&& now@.settled()
                    &&& (forall|k: int| !(#[trigger] at(k))) ==> now@.tile(x, y) == tm@.tile(x, y)
                    &&& forall|k: int| #[trigger]
                        at(k) && (forall|j: int| k < j ==> !(#[trigger] at(j))) ==> now@.tile(x, y)
                            == (if revert {
                            cells@[k].2
                        } else {
                            cells@[k].3
                        })
                },
                None => out[i].parts.tilemap is None,
            }
        }),
{
    let all = before@.entities;
    let got = after@.entities;
    assert forall|j: int| 0 <= j < all.len() implies #[trigger] all[j] == before.entities@[j]@ by {}
    assert forall|j: int| 0 <= j < i implies (#[trigger] all[j]).guid != all[i].guid by {
        assert(before.entities@[j].guid != guid);
    }
    lemma_first(all, i);
    assert(got.len() == after.entities@.len());
    assert forall|j: int| 0 <= j < got.len() implies #[trigger] after.entities@[j]@ == got[j] by {
        assert(got[j] == after.entities@[j]@);
    }
    assert forall|j: int| 0 <= j < got.len() && j != i implies (#[trigger] after.entities@[j])@
        == before.entities@[j]@ by {
        assert(all[j] == before.entities@[j]@);
    }
    match before.entities@[i].parts.tilemap {
        Some(tm) => {
            let s = paint::stroke_cells(cells@, revert);
            let last = paint::lemma_last_shows(tm@, s, s.len() as int, x, y);
            let now = tm@.with_tiles(s, s.len() as int);
            assert(got[i].parts.tilemap == Some(now));
            assert(after.entities@[i]@ == got[i]);
            let at = |k: int| 0 <= k < cells@.len() && cells@[k].0 == x && cells@[k].1 == y;
            assert forall|k: int| last < k implies !(#[trigger] at(k)) by {
                if 0 <= k < cells@.len() {
                    assert(s[k].0 == cells@[k].0 && s[k].1 == cells@[k].1);
                }
            }
            if last >= 0 {
                assert(at(last));
            }
            assert forall|k: int| #[trigger]
                at(k) && (forall|j: int| k < j ==> !(#[trigger] at(j))) implies k == last by {
                if k < last {
                    assert(at(last));
                }
            }
        },
        None => {},
    }
}

/// An edit of the settings puts the new ones in place, or going back the old, and
/// touches no entity.
pub proof fn law_the_settings_are_replaced(
    old_settings: LevelSettings,
    new_settings: LevelSettings,
    before: SceneDoc,
    after: SceneDoc,
    revert: bool,
)
    requires
        after@ == (EditCommand::SetLevelSettings { old: old_settings, new: new_settings }).effect(
            before@,
            revert,
        ),
    ensures
        after.settings == (if revert {
            old_settings
        } else {
            new_settings
        }),
        after.dirty,
        after.title@ == before.title@,
        after.entities@.len() == before.entities@.len(),
        forall|j: int|
            0 <= j < after.entities@.len() ==> (#[trigger] after.entities@[j])@ == before.entities@[j]@,
{
    assert(after@.entities == before@.entities);
    assert(after@.entities.len() == after.entities@.len());
    assert forall|j: int| 0 <= j < after.entities@.len() implies (#[trigger] after.entities@[j])@
        == before.entities@[j]@ by {
        assert(after@.entities[j] == after.entities@[j]@);
        assert(before@.entities[j] == before.entities@[j]@);
    }
}

/// A foliage stroke changes the scatter of one entity and nothing else. The
/// instances at the places it removes go, every other one stays in its order, and
/// those it adds follow at the end; `places` are where those that stay stood.
pub proof fn law_a_foliage_stroke_changes_one_scatter(
    guid: Guid,
    added: Vec<Component>,
    removed: Vec<(usize, Component)>,
    instance_bytes: usize,
    before: SceneDoc,
    after: SceneDoc,
    i: int,
) -> (places: Seq<int>)
    requires
        after@ == (EditCommand::PaintFoliage { guid, added, removed, instance_bytes }).effect(
            before@,
            false,
        ),
        0 <= i < before.entities@.len(),
        before.entities@[i].guid == guid,
        forall|j: int| 0 <= j < i ==> (#[trigger] before.entities@[j]).guid != guid,
        before.entities@[i].parts.foliage matches Some(f) ==> forall|k: int|
            0 <= k < removed@.len() ==> (#[trigger] removed@[k]).0 < f.instances@.len(),
        forall|j: int, k: int|
            #![trigger removed@[j], removed@[k]]
            0 <= j < k < removed@.len() ==> removed@[j].0 < removed@[k].0,
    ensures
        ({
            let e = before.entities@[i]@;
            let out = after.entities@;
            let n = places.len() as int;
            &&& out.len() == before.entities@.len()
            &&& forall|j: int|
                0 <= j < out.len() && j != i ==> (#[trigger] out[j])@ == before.entities@[j]@
            &&& out[i]@ == (EntityModel {
                parts: PartsModel { foliage: out[i]@.parts.foliage, ..e.parts },
                ..e
            })
            &&& after.title@ == before.title@ && after.settings == before.settings && after.dirty
            &&& match before.entities@[i].parts.foliage {
                Some(f) => out[i].parts.foliage matches Some(now) && {
                    &&& now@.palette == f@.palette
                    &&& now.instances@.len() == n + added@.len()
                    &&& forall|k: int|
                        0 <= k < n ==> 0 <= (#[trigger] places[k]) < f.instances@.len()
                            && now.instances@[k].bytes@ == f.instances@[places[k]].bytes@
                    &&& forall|j: int, k: int|
                        #![trigger places[j], places[k]]
                        0 <= j < k < n ==> places[j] < places[k]
                    &&& forall|p: int|
                        0 <= p < f.instances@.len() ==> (#[trigger] places.contains(p) <==> forall|k: int|
                            0 <= k < removed@.len() ==> (#[trigger] removed@[k]).0 != p)
                    &&& forall|k: int|
                        0 <= k < added@.len() ==> now.instances@[n + k].bytes@ == (#[trigger] added@[k]).bytes@
                },
                None => out[i].parts.foliage is None,
            }
        }),
{
    let all = before@.entities;
    let got = after@.entities;
    assert forall|j: int| 0 <= j < all.len() implies #[trigger] all[j] == before.entities@[j]@ by {}
    assert forall|j: int| 0 <= j < i implies (#[trigger] all[j]).guid != all[i].guid by {
        assert(before.entities@[j].guid != guid);
    }
    lemma_first(all, i);
    assert(got.len() == after.entities@.len());
    assert forall|j: int| 0 <= j < got.len() implies #[trigger] after.entities@[j]@ == got[j] by {
        assert(got[j] == after.entities@[j]@);
    }
    assert forall|j: int| 0 <= j < got.len() && j != i implies (#[trigger] after.entities@[j])@
        == before.entities@[j]@ by {
        assert(all[j] == before.entities@[j]@);
    }
    match before.entities@[i].parts.foliage {
        Some(f) => {
            let plants = blobs(added@);
            let gone = foliage::uprooted(removed@);
            assert forall|k: int| 0 <= k < gone.len() implies 0 <= (#[trigger] gone[k]).0 < f@.instances.len() by {
                assert(gone[k].0 == removed@[k].0);
            }
            assert forall|j: int, k: int|
                #![trigger gone[j], gone[k]]
                0 <= j < k < gone.len() implies gone[j].0 < gone[k].0 by {
                assert(removed@[j].0 < removed@[k].0);
            }
            let places = foliage::law_a_foliage_stroke(f@, plants, gone);
            let now = f@.painted(plants, gone);
            assert(got[i].parts.foliage == Some(now));
            assert(after.entities@[i]@ == got[i]);
            let kept = after.entities@[i].parts.foliage->0;
            let n = places.len() as int;
            assert forall|k: int| 0 <= k < n implies 0 <= (#[trigger] places[k]) < f.instances@.len()
                && kept.instances@[k].bytes@ == f.instances@[places[k]].bytes@ by {
                assert(kept@.instances[k] == f@.instances[places[k]]);
            }
            assert forall|p: int| 0 <= p < f.instances@.len() implies (#[trigger] places.contains(p)
                <==> forall|k: int| 0 <= k < removed@.len() ==> (#[trigger] removed@[k]).0 != p) by {
                if places.contains(p) {
                    assert forall|k: int| 0 <= k < removed@.len() implies (#[trigger] removed@[k]).0 != p by {
                        assert(gone[k].0 != p);
                    }
                }
                if forall|k: int| 0 <= k < removed@.len() ==> (#[trigger] removed@[k]).0 != p {
                    assert forall|k: int| 0 <= k < gone.len() implies (#[trigger] gone[k]).0 != p by {
                        assert(removed@[k].0 != p);
                    }
                }
            }
            assert forall|k: int| 0 <= k < added@.len() implies kept.instances@[n + k].bytes@ == (
            #[trigger] added@[k]).bytes@ by {
                assert(kept@.instances[n + k] == plants[k]);
            }
            places
        },
        None => Seq::empty(),
    }
}

} // verus!
