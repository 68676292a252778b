//! What a saved level holds of its document, and an opened document of its level.

use crate::scene::doc::SceneDoc;
use crate::scene::entity::EntityModel;
use crate::scene::file::SceneFile;
use crate::scene::lineage;
use crate::scene::lineage::{
    law_a_record_is_spawned_as_it_is, same_foliage, same_slot, same_terrain, same_tilemap,
};
use crate::scene::save;
use crate::scene::save::ScenePersist;
use crate::scene::terrain::Terrain;
use vstd::prelude::*;

verus! {

/// A terrain as it is saved: one that refers to an asset leaves its tiles to the
/// asset and keeps everything else; any other is saved whole.
pub open spec fn saved_terrain(old: Option<Terrain>, new: Option<Terrain>) -> bool {
    match (old, new) {
        (Some(a), Some(b)) => if a.asset is Some && a.data.tiles@.len() > 0 {
            &&& b.data.tiles@.len() == 0
            &&& b.data.tile_resolution == a.tile_resolution
            &&& b.data.meters_per_sample == a.meters_per_sample
            &&& b.meters_per_sample == a.meters_per_sample
            &&& b.tile_resolution == a.tile_resolution
            &&& b.layers.bytes@ == a.layers.bytes@
            &&& b.macro_variation == a.macro_variation
            &&& b.asset == a.asset
            &&& b.biome_set == a.biome_set
            &&& lineage::same_list(a.biome_population@, b.biome_population@)
        } else {
            same_terrain(old, new)
        },
        (None, None) => true,
        _ => false,
    }
}

/// A saved level holds the document: the title, the settings, and an entity for an
/// entity in their order, each as it is in every slot. Only what was paged in from
/// a terrain asset is left to the asset, and in a level kept in memory not even
/// that.
pub proof fn law_a_saved_level_holds_the_document(
    doc: SceneDoc,
    persist: ScenePersist,
    file: SceneFile,
)
    requires
        file@ == save::projected(doc@, persist),
    ensures
        file.schema_version == 19,
        file.title@ == doc.title@,
        file.settings == doc.settings,
        file.entities@.len() == doc.entities@.len(),
        forall|i: int|
            0 <= i < doc.entities@.len() ==> {
                let e = doc.entities@[i];
                let rec = #[trigger] file.entities@[i];
                {
                    &&& rec.guid == e.guid
                    &&& rec.parent == e.parent
                    &&& e.name matches Some(n) ==> rec.name@ == n@
                    &&& e.transform matches Some(t) ==> rec.transform == t
                    &&& e.visible matches Some(v) ==> rec.visible == v
                    &&& persist is Memory ==> same_terrain(e.parts.terrain, rec.terrain)
                    &&& persist is File ==> saved_terrain(e.parts.terrain, rec.terrain)
                    &&& rec.mesh == e.parts.mesh
                    &&& rec.material == e.parts.material
                    &&& rec.light == e.parts.light
                    &&& same_slot(e.parts.camera, rec.camera)
                    &&& same_slot(e.parts.sprite, rec.sprite)
                    &&& same_tilemap(e.parts.tilemap, rec.tilemap)
                    &&& same_slot(e.parts.nine_slice, rec.nine_slice)
                    &&& same_slot(e.parts.text2d, rec.text2d)
                    &&& same_slot(e.parts.light_2d, rec.light_2d)
                    &&& same_slot(e.parts.rigid_body_2d, rec.rigid_body_2d)
                    &&& same_slot(e.parts.collider_2d, rec.collider_2d)
                    &&& same_slot(e.parts.character_controller_2d, rec.character_controller_2d)
                    &&& same_slot(e.parts.rigid_body_3d, rec.rigid_body_3d)
                    &&& same_slot(e.parts.collider_3d, rec.collider_3d)
                    &&& same_slot(e.parts.character_controller_3d, rec.character_controller_3d)
                    &&& rec.actor == e.parts.actor
                    &&& same_slot(e.parts.pcg_volume, rec.pcg_volume)
                    &&& same_slot(e.parts.skeletal_mesh, rec.skeletal_mesh)
                    &&& same_slot(e.parts.anim_player, rec.anim_player)
                    &&& same_slot(e.parts.anim_state_machine, rec.anim_state_machine)
                    &&& same_slot(e.parts.root_motion, rec.root_motion)
                    &&& same_slot(e.parts.attached_to, rec.attached_to)
                    &&& same_slot(e.parts.joint_2d, rec.joint_2d)
                    &&& same_slot(e.parts.joint_3d, rec.joint_3d)
                    &&& same_slot(e.parts.audio_source, rec.audio_source)
                    &&& same_slot(e.parts.audio_listener, rec.audio_listener)
                    &&& same_slot(e.parts.decal, rec.decal)
                    &&& same_slot(e.parts.volume, rec.volume)
                    &&& same_slot(e.parts.spline, rec.spline)
                    &&& same_foliage(e.parts.foliage, rec.foliage)
                    &&& rec.streaming_source == e.parts.streaming_source
                    &&& rec.always_loaded == e.parts.always_loaded
                    &&& rec.time_of_day == e.parts.time_of_day
                    &&& rec.sky_atmosphere == e.parts.sky_atmosphere
                    &&& same_slot(e.parts.water_body, rec.water_body)
                    &&& same_slot(e.parts.buoyancy, rec.buoyancy)
                    &&& same_slot(e.parts.voxel_volume, rec.voxel_volume)
                }
            },
{
    let was = doc@.entities;
    let now = file@.entities;
    assert(now.len() == file.entities@.len());
    assert forall|i: int| 0 <= i < doc.entities@.len() implies {
        let e = doc.entities@[i];
        let rec = #[trigger] file.entities@[i];
        {
            &&& rec.guid == e.guid
            &&& rec.parent == e.parent
            &&& e.name matches Some(n) ==> rec.name@ == n@
            &&& e.transform matches Some(t) ==> rec.transform == t
            &&& e.visible matches Some(v) ==> rec.visible == v
            &&& persist is Memory ==> same_terrain(e.parts.terrain, rec.terrain)
            &&& persist is File ==> saved_terrain(e.parts.terrain, rec.terrain)
            &&& rec.mesh == e.parts.mesh
            &&& rec.material == e.parts.material
            &&& rec.light == e.parts.light
            &&& same_slot(e.parts.camera, rec.camera)
            &&& same_slot(e.parts.sprite, rec.sprite)
            &&& same_tilemap(e.parts.tilemap, rec.tilemap)
            &&& same_slot(e.parts.nine_slice, rec.nine_slice)
            &&& same_slot(e.parts.text2d, rec.text2d)
            &&& same_slot(e.parts.light_2d, rec.light_2d)
            &&& same_slot(e.parts.rigid_body_2d, rec.rigid_body_2d)
            &&& same_slot(e.parts.collider_2d, rec.collider_2d)
            &&& same_slot(e.parts.character_controller_2d, rec.character_controller_2d)
            &&& same_slot(e.parts.rigid_body_3d, rec.rigid_body_3d)
            &&& same_slot(e.parts.collider_3d, rec.collider_3d)
            &&& same_slot(e.parts.character_controller_3d, rec.character_controller_3d)
            &&& rec.actor == e.parts.actor
            &&& same_slot(e.parts.pcg_volume, rec.pcg_volume)
            &&& same_slot(e.parts.skeletal_mesh, rec.skeletal_mesh)
            &&& same_slot(e.parts.anim_player, rec.anim_player)
            &&& same_slot(e.parts.anim_state_machine, rec.anim_state_machine)
            &&& same_slot(e.parts.root_motion, rec.root_motion)
            &&& same_slot(e.parts.attached_to, rec.attached_to)
            &&& same_slot(e.parts.joint_2d, rec.joint_2d)
            &&& same_slot(e.parts.joint_3d, rec.joint_3d)
            &&& same_slot(e.parts.audio_source, rec.audio_source)
            &&& same_slot(e.parts.audio_listener, rec.audio_listener)
            &&& same_slot(e.parts.decal, rec.decal)
            &&& same_slot(e.parts.volume, rec.volume)
            &&& same_slot(e.parts.spline, rec.spline)
            &&& same_foliage(e.parts.foliage, rec.foliage)
            &&& rec.streaming_source == e.parts.streaming_source
            &&& rec.always_loaded == e.parts.always_loaded
            &&& rec.time_of_day == e.parts.time_of_day
            &&& rec.sky_atmosphere == e.parts.sky_atmosphere
            &&& same_slot(e.parts.water_body, rec.water_body)
            &&& same_slot(e.parts.buoyancy, rec.buoyancy)
            &&& same_slot(e.parts.voxel_volume, rec.voxel_volume)
        }
    } by {
        let e = doc.entities@[i];
        let rec = file.entities@[i];
        assert(was[i] == e@);
        assert(now[i] == rec@);
        assert(now[i] == save::outgoing(was[i], persist));
        lineage::lemma_same_tilemap(e.parts.tilemap, rec.tilemap);
        lineage::lemma_same_foliage(e.parts.foliage, rec.foliage);
        lemma_saved_terrain(e.parts.terrain, rec.terrain, persist);
    }
}

proof fn lemma_saved_terrain(old: Option<Terrain>, new: Option<Terrain>, persist: ScenePersist)
    requires
        match (old, new) {
            (Some(a), Some(b)) => b@ == (match persist {
                ScenePersist::File => save::stripped_terrain(a@),
                ScenePersist::Memory => a@,
            }),
            (None, None) => true,
            _ => false,
        },
    ensures
        persist is Memory ==> same_terrain(old, new),
        persist is File ==> saved_terrain(old, new),
{
    match (old, new) {
        (Some(a), Some(b)) => {
            assert(a@.data.tiles.len() == a.data.tiles@.len());
            assert(b@.data.tiles.len() == b.data.tiles@.len());
            if persist is File && a.asset is Some && a.data.tiles@.len() > 0 {
                lineage::lemma_same_list(a.biome_population@, b.biome_population@);
            } else {
                lineage::lemma_same_terrain(old, new);
            }
        },
        _ => {},
    }
}

/// An opened document holds its level: the title, the settings, and an entity for a
/// record in their order, each as it is in every slot. An entity stands below the
/// one its record names where that is in the level, whatever the order, and at the
/// root otherwise. Nothing is unsaved.
pub proof fn law_an_opened_document_holds_the_level(file: SceneFile, doc: SceneDoc)
    requires
        save::opened(file@, doc@),
        forall|i: int, j: int|
            #![trigger file.entities@[i], file.entities@[j]]
            0 <= i < j < file.entities@.len() ==> file.entities@[i].guid != file.entities@[j].guid,
    ensures
        doc.title@ == file.title@,
        doc.settings == file.settings,
        !doc.dirty,
        doc.entities@.len() == file.entities@.len(),
        forall|i: int|
            0 <= i < file.entities@.len() ==> {
                let rec = file.entities@[i];
                let e = #[trigger] doc.entities@[i];
                {
                    &&& e.guid == rec.guid
                    &&& e.name matches Some(n) && n@ == rec.name@
                    &&& e.transform == Some(rec.transform)
                    &&& e.visible == Some(rec.visible)
                    &&& rec.parent is None ==> e.parent is None
                    &&& rec.parent matches Some(p) ==> e.parent == (if exists|j: int|
                        0 <= j < file.entities@.len() && (#[trigger] file.entities@[j]).guid == p {
                        Some(p)
                    } else {
                        None
                    })
                    &&& e.parts.mesh == rec.mesh
                    &&& e.parts.material == rec.material
                    &&& e.parts.light == rec.light
                    &&& same_slot(rec.camera, e.parts.camera)
                    &&& same_slot(rec.sprite, e.parts.sprite)
                    &&& same_tilemap(rec.tilemap, e.parts.tilemap)
                    &&& same_slot(rec.nine_slice, e.parts.nine_slice)
                    &&& same_slot(rec.text2d, e.parts.text2d)
                    &&& same_slot(rec.light_2d, e.parts.light_2d)
                    &&& same_slot(rec.rigid_body_2d, e.parts.rigid_body_2d)
                    &&& same_slot(rec.collider_2d, e.parts.collider_2d)
                    &&& same_slot(rec.character_controller_2d, e.parts.character_controller_2d)
                    &&& same_slot(rec.rigid_body_3d, e.parts.rigid_body_3d)
                    &&& same_slot(rec.collider_3d, e.parts.collider_3d)
                    &&& same_slot(rec.character_controller_3d, e.parts.character_controller_3d)
                    &&& e.parts.actor == rec.actor
                    &&& same_terrain(rec.terrain, e.parts.terrain)
                    &&& same_slot(rec.pcg_volume, e.parts.pcg_volume)
                    &&& same_slot(rec.skeletal_mesh, e.parts.skeletal_mesh)
                    &&& same_slot(rec.anim_player, e.parts.anim_player)
                    &&& same_slot(rec.anim_state_machine, e.parts.anim_state_machine)
                    &&& same_slot(rec.root_motion, e.parts.root_motion)
                    &&& same_slot(rec.attached_to, e.parts.attached_to)
                    &&& same_slot(rec.joint_2d, e.parts.joint_2d)
                    &&& same_slot(rec.joint_3d, e.parts.joint_3d)
                    &&& same_slot(rec.audio_source, e.parts.audio_source)
                    &&& same_slot(rec.audio_listener, e.parts.audio_listener)
                    &&& same_slot(rec.decal, e.parts.decal)
                    &&& same_slot(rec.volume, e.parts.volume)
                    &&& same_slot(rec.spline, e.parts.spline)
                    &&& same_foliage(rec.foliage, e.parts.foliage)
                    &&& e.parts.streaming_source == rec.streaming_source
                    &&& e.parts.always_loaded == rec.always_loaded
                    &&& e.parts.time_of_day == rec.time_of_day
                    &&& e.parts.sky_atmosphere == rec.sky_atmosphere
                    &&& same_slot(rec.water_body, e.parts.water_body)
                    &&& same_slot(rec.buoyancy, e.parts.buoyancy)
                    &&& same_slot(rec.voxel_volume, e.parts.voxel_volume)
                }
            },
{
    let was = file@.entities;
    let now = doc@.entities;
    assert forall|i: int, j: int|
        #![trigger was[i], was[j]]
        0 <= i < j < was.len() implies was[i].guid != was[j].guid by {
        assert(was[i] == file.entities@[i]@ && was[j] == file.entities@[j]@);
    }
    save::law_distinct_records_load_as_described(was);
    assert(now.len() == doc.entities@.len());
    assert forall|i: int| 0 <= i < file.entities@.len() implies {
        let rec = file.entities@[i];
        let e = #[trigger] doc.entities@[i];
        {
            &&& e.guid == rec.guid
            &&& e.name matches Some(n) && n@ == rec.name@
            &&& e.transform == Some(rec.transform)
            &&& e.visible == Some(rec.visible)
            &&& rec.parent is None ==> e.parent is None
            &&& rec.parent matches Some(p) ==> e.parent == (if exists|j: int|
                0 <= j < file.entities@.len() && (#[trigger] file.entities@[j]).guid == p {
                Some(p)
            } else {
                None
            })
            &&& e.parts.mesh == rec.mesh
            &&& e.parts.material == rec.material
            &&& e.parts.light == rec.light
            &&& same_slot(rec.camera, e.parts.camera)
            &&& same_slot(rec.sprite, e.parts.sprite)
            &&& same_tilemap(rec.tilemap, e.parts.tilemap)
            &&& same_slot(rec.nine_slice, e.parts.nine_slice)
            &&& same_slot(rec.text2d, e.parts.text2d)
            &&& same_slot(rec.light_2d, e.parts.light_2d)
            &&& same_slot(rec.rigid_body_2d, e.parts.rigid_body_2d)
            &&& same_slot(rec.collider_2d, e.parts.collider_2d)
            &&& same_slot(rec.character_controller_2d, e.parts.character_controller_2d)
            &&& same_slot(rec.rigid_body_3d, e.parts.rigid_body_3d)
            &&& same_slot(rec.collider_3d, e.parts.collider_3d)
            &&& same_slot(rec.character_controller_3d, e.parts.character_controller_3d)
            &&& e.parts.actor == rec.actor
            &&& same_terrain(rec.terrain, e.parts.terrain)
            &&& same_slot(rec.pcg_volume, e.parts.pcg_volume)
            &&& same_slot(rec.skeletal_mesh, e.parts.skeletal_mesh)
            &&& same_slot(rec.anim_player, e.parts.anim_player)
            &&& same_slot(rec.anim_state_machine, e.parts.anim_state_machine)
            &&& same_slot(rec.root_motion, e.parts.root_motion)
            &&& same_slot(rec.attached_to, e.parts.attached_to)
            &&& same_slot(rec.joint_2d, e.parts.joint_2d)
            &&& same_slot(rec.joint_3d, e.parts.joint_3d)
            &&& same_slot(rec.audio_source, e.parts.audio_source)
            &&& same_slot(rec.audio_listener, e.parts.audio_listener)
            &&& same_slot(rec.decal, e.parts.decal)
            &&& same_slot(rec.volume, e.parts.volume)
            &&& same_slot(rec.spline, e.parts.spline)
            &&& same_foliage(rec.foliage, e.parts.foliage)
            &&& e.parts.streaming_source == rec.streaming_source
            &&& e.parts.always_loaded == rec.always_loaded
            &&& e.parts.time_of_day == rec.time_of_day
            &&& e.parts.sky_atmosphere == rec.sky_atmosphere
            &&& same_slot(rec.water_body, e.parts.water_body)
            &&& same_slot(rec.buoyancy, e.parts.buoyancy)
            &&& same_slot(rec.voxel_volume, e.parts.voxel_volume)
        }
    } by {
        let rec = file.entities@[i];
        let e = doc.entities@[i];
        assert(was[i] == rec@);
        assert(now[i] == e@);
        let parent = save::link(was, rec@.parent);
        assert(now[i] == EntityModel::of_record(rec@, parent));
        law_a_record_is_spawned_as_it_is(rec, parent, e);
        match rec.parent {
            Some(p) => {
                if save::recorded(was, p) {
                    let j = choose|j: int| 0 <= j < was.len() && (#[trigger] was[j]).guid == p;
                    assert(was[j] == file.entities@[j]@);
                    assert(file.entities@[j].guid == p);
                }
                if exists|j: int| 0 <= j < file.entities@.len() && (#[trigger] file.entities@[j]).guid
                    == p {
                    let j = choose|j: int|
                        0 <= j < file.entities@.len() && (#[trigger] file.entities@[j]).guid == p;
                    assert(was[j] == file.entities@[j]@);
                }
            },
            None => {},
        }
    }
}

} // verus!
