//! Entities of the open document, and the passage between an entity and its
//! record.

use crate::guid::Guid;
use crate::scene::component::{
    blob, clone_slot, AlwaysLoaded, Component, Light, Material, MeshRef, StreamingSource,
    TimeOfDay, Transform,
};
use crate::scene::foliage::{clone_foliage, foliage_now, Foliage};
use crate::scene::record::{EntityRecord, PartsModel, RecordModel};
use crate::scene::sky::{sky_now, SkyAtmosphere};
use crate::scene::terrain::{terrain_now, Terrain};
use crate::scene::tilemap::{tilemap_now, Tilemap};
use vstd::prelude::*;

verus! {

/// The optional components of an entity.
#[derive(Debug, PartialEq)]
pub struct Parts {
    pub mesh: Option<MeshRef>,
    pub material: Option<Material>,
    pub light: Option<Light>,
    pub camera: Option<Component>,
    pub sprite: Option<Component>,
    pub tilemap: Option<Tilemap>,
    pub nine_slice: Option<Component>,
    pub text2d: Option<Component>,
    pub light_2d: Option<Component>,
    pub rigid_body_2d: Option<Component>,
    pub collider_2d: Option<Component>,
    pub character_controller_2d: Option<Component>,
    pub rigid_body_3d: Option<Component>,
    pub collider_3d: Option<Component>,
    pub character_controller_3d: Option<Component>,
    pub actor: Option<Guid>,
    pub terrain: Option<Terrain>,
    pub pcg_volume: Option<Component>,
    pub skeletal_mesh: Option<Component>,
    pub anim_player: Option<Component>,
    pub anim_state_machine: Option<Component>,
    pub root_motion: Option<Component>,
    pub attached_to: Option<Component>,
    pub joint_2d: Option<Component>,
    pub joint_3d: Option<Component>,
    pub audio_source: Option<Component>,
    pub audio_listener: Option<Component>,
    pub decal: Option<Component>,
    pub volume: Option<Component>,
    pub spline: Option<Component>,
    pub foliage: Option<Foliage>,
    pub streaming_source: Option<StreamingSource>,
    pub always_loaded: Option<AlwaysLoaded>,
    pub time_of_day: Option<TimeOfDay>,
    pub sky_atmosphere: Option<SkyAtmosphere>,
    pub water_body: Option<Component>,
    pub buoyancy: Option<Component>,
    pub voxel_volume: Option<Component>,
}

impl View for Parts {
    type V = PartsModel;

    open spec fn view(&self) -> PartsModel {
        PartsModel {
            mesh: self.mesh,
            material: self.material,
            light: self.light,
            camera: blob(self.camera),
            sprite: blob(self.sprite),
            tilemap: tilemap_now(self.tilemap),
            nine_slice: blob(self.nine_slice),
            text2d: blob(self.text2d),
            light_2d: blob(self.light_2d),
            rigid_body_2d: blob(self.rigid_body_2d),
            collider_2d: blob(self.collider_2d),
            character_controller_2d: blob(self.character_controller_2d),
            rigid_body_3d: blob(self.rigid_body_3d),
            collider_3d: blob(self.collider_3d),
            character_controller_3d: blob(self.character_controller_3d),
            actor: self.actor,
            terrain: terrain_now(self.terrain),
            pcg_volume: blob(self.pcg_volume),
            skeletal_mesh: blob(self.skeletal_mesh),
            anim_player: blob(self.anim_player),
            anim_state_machine: blob(self.anim_state_machine),
            root_motion: blob(self.root_motion),
            attached_to: blob(self.attached_to),
            joint_2d: blob(self.joint_2d),
            joint_3d: blob(self.joint_3d),
            audio_source: blob(self.audio_source),
            audio_listener: blob(self.audio_listener),
            decal: blob(self.decal),
            volume: blob(self.volume),
            spline: blob(self.spline),
            foliage: foliage_now(self.foliage),
            streaming_source: self.streaming_source,
            always_loaded: self.always_loaded,
            time_of_day: self.time_of_day,
            sky_atmosphere: sky_now(self.sky_atmosphere),
            water_body: blob(self.water_body),
            buoyancy: blob(self.buoyancy),
            voxel_volume: blob(self.voxel_volume),
        }
    }
}

impl Parts {
    /// No component at all.
    pub fn bare() -> (r: Parts)
        ensures
            r@ == PartsModel::bare(),
    {
        Parts {
            mesh: None,
            material: None,
            light: None,
            camera: None,
            sprite: None,
            tilemap: None,
            nine_slice: None,
            text2d: None,
            light_2d: None,
            rigid_body_2d: None,
            collider_2d: None,
            character_controller_2d: None,
            rigid_body_3d: None,
            collider_3d: None,
            character_controller_3d: None,
            actor: None,
            terrain: None,
            pcg_volume: None,
            skeletal_mesh: None,
            anim_player: None,
            anim_state_machine: None,
            root_motion: None,
            attached_to: None,
            joint_2d: None,
            joint_3d: None,
            audio_source: None,
            audio_listener: None,
            decal: None,
            volume: None,
            spline: None,
            foliage: None,
            streaming_source: None,
            always_loaded: None,
            time_of_day: None,
            sky_atmosphere: None,
            water_body: None,
            buoyancy: None,
            voxel_volume: None,
        }
    }
}

/// An entity of the open document. Name, place and visibility are absent on an
/// entity that was spawned bare and not written yet.
#[derive(Debug, PartialEq)]
pub struct Entity {
    pub guid: Guid,
    pub name: Option<String>,
    pub parent: Option<Guid>,
    pub transform: Option<Transform>,
    pub visible: Option<bool>,
    pub parts: Parts,
}

/// What an entity holds.
pub struct EntityModel {
    pub guid: Guid,
    pub name: Option<Seq<char>>,
    pub parent: Option<Guid>,
    pub transform: Option<Transform>,
    pub visible: Option<bool>,
    pub parts: PartsModel,
}

impl View for Entity {
    type V = EntityModel;

    open spec fn view(&self) -> EntityModel {
        EntityModel {
            guid: self.guid,
            name: match self.name {
                Some(n) => Some(n@),
                None => None,
            },
            parent: self.parent,
            transform: self.transform,
            visible: self.visible,
            parts: self.parts@,
        }
    }
}

/// A component slot after a record was written over it: what the record holds,
/// and where it holds nothing, nothing if absent components are removed and
/// what was there if they are not.
pub open spec fn overlaid<T>(old: Option<T>, new: Option<T>, remove_absent: bool) -> Option<T> {
    if new is Some || remove_absent {
        new
    } else {
        old
    }
}

impl PartsModel {
    pub open spec fn overlaid(self, rec: PartsModel, remove_absent: bool) -> PartsModel {
        PartsModel {
            mesh: overlaid(self.mesh, rec.mesh, remove_absent),
            material: overlaid(self.material, rec.material, remove_absent),
            light: overlaid(self.light, rec.light, remove_absent),
            camera: overlaid(self.camera, rec.camera, remove_absent),
            sprite: overlaid(self.sprite, rec.sprite, remove_absent),
            tilemap: overlaid(self.tilemap, rec.tilemap, remove_absent),
            nine_slice: overlaid(self.nine_slice, rec.nine_slice, remove_absent),
            text2d: overlaid(self.text2d, rec.text2d, remove_absent),
            light_2d: overlaid(self.light_2d, rec.light_2d, remove_absent),
            rigid_body_2d: overlaid(self.rigid_body_2d, rec.rigid_body_2d, remove_absent),
            collider_2d: overlaid(self.collider_2d, rec.collider_2d, remove_absent),
            character_controller_2d: overlaid(self.character_controller_2d, rec.character_controller_2d, remove_absent),
            rigid_body_3d: overlaid(self.rigid_body_3d, rec.rigid_body_3d, remove_absent),
            collider_3d: overlaid(self.collider_3d, rec.collider_3d, remove_absent),
            character_controller_3d: overlaid(self.character_controller_3d, rec.character_controller_3d, remove_absent),
            actor: overlaid(self.actor, rec.actor, remove_absent),
            terrain: overlaid(self.terrain, rec.terrain, remove_absent),
            pcg_volume: overlaid(self.pcg_volume, rec.pcg_volume, remove_absent),
            skeletal_mesh: overlaid(self.skeletal_mesh, rec.skeletal_mesh, remove_absent),
            anim_player: overlaid(self.anim_player, rec.anim_player, remove_absent),
            anim_state_machine: overlaid(self.anim_state_machine, rec.anim_state_machine, remove_absent),
            root_motion: overlaid(self.root_motion, rec.root_motion, remove_absent),
            attached_to: overlaid(self.attached_to, rec.attached_to, remove_absent),
            joint_2d: overlaid(self.joint_2d, rec.joint_2d, remove_absent),
            joint_3d: overlaid(self.joint_3d, rec.joint_3d, remove_absent),
            audio_source: overlaid(self.audio_source, rec.audio_source, remove_absent),
            audio_listener: overlaid(self.audio_listener, rec.audio_listener, remove_absent),
            decal: overlaid(self.decal, rec.decal, remove_absent),
            volume: overlaid(self.volume, rec.volume, remove_absent),
            spline: overlaid(self.spline, rec.spline, remove_absent),
            foliage: overlaid(self.foliage, rec.foliage, remove_absent),
            streaming_source: overlaid(self.streaming_source, rec.streaming_source, remove_absent),
            always_loaded: overlaid(self.always_loaded, rec.always_loaded, remove_absent),
            time_of_day: overlaid(self.time_of_day, rec.time_of_day, remove_absent),
            sky_atmosphere: overlaid(self.sky_atmosphere, rec.sky_atmosphere, remove_absent),
            water_body: overlaid(self.water_body, rec.water_body, remove_absent),
            buoyancy: overlaid(self.buoyancy, rec.buoyancy, remove_absent),
            voxel_volume: overlaid(self.voxel_volume, rec.voxel_volume, remove_absent),
        }
    }
}

impl EntityModel {
    /// The entity as a record: without a name it is nameless, without a place
    /// at the origin, without a visibility visible.
    pub open spec fn record(self) -> RecordModel {
        RecordModel {
            guid: self.guid,
            name: match self.name {
                Some(n) => n,
                None => Seq::empty(),
            },
            parent: self.parent,
            transform: match self.transform {
                Some(t) => t,
                None => Transform::unmoved(),
            },
            visible: match self.visible {
                Some(v) => v,
                None => true,
            },
            parts: self.parts,
        }
    }

    /// An entity spawned with nothing but a name and a parent.
    pub open spec fn bare(guid: Guid, name: Seq<char>, parent: Option<Guid>) -> EntityModel {
        EntityModel {
            guid,
            name: Some(name),
            parent,
            transform: None,
            visible: None,
            parts: PartsModel::bare(),
        }
    }

    /// The entity after the components of a record were written onto it.
    pub open spec fn written(self, rec: RecordModel, remove_absent: bool) -> EntityModel {
        EntityModel {
            transform: Some(rec.transform),
            visible: Some(rec.visible),
            parts: self.parts.overlaid(rec.parts, remove_absent),
            ..self
        }
    }

    /// The entity that a record describes, below the given parent.
    pub open spec fn of_record(rec: RecordModel, parent: Option<Guid>) -> EntityModel {
        EntityModel {
            guid: rec.guid,
            name: Some(rec.name),
            parent,
            transform: Some(rec.transform),
            visible: Some(rec.visible),
            parts: rec.parts,
        }
    }

    /// Whether the entity has a name, a place and a visibility.
    pub open spec fn complete(self) -> bool {
        self.name is Some && self.transform is Some && self.visible is Some
    }
}

impl Entity {
    /// An entity with nothing but a name and a parent.
    pub fn bare(guid: Guid, name: String, parent: Option<Guid>) -> (r: Entity)
        ensures
            r@ == EntityModel::bare(guid, name@, parent),
    {
        Entity { guid, name: Some(name), parent, transform: None, visible: None, parts: Parts::bare() }
    }

    /// The entity as a record.
    pub fn record(&self) -> (r: EntityRecord)
        ensures
            r@ == self@.record(),
    {
        EntityRecord {
            guid: self.guid,
            name: match &self.name {
                Some(n) => n.clone(),
                None => String::new(),
            },
            parent: self.parent,
            transform: match self.transform {
                Some(t) => t,
                None => Transform::identity(),
            },
            visible: match self.visible {
                Some(v) => v,
                None => true,
            },
            mesh: self.parts.mesh,
            material: self.parts.material,
            light: self.parts.light,
            camera: clone_slot(&self.parts.camera),
            sprite: clone_slot(&self.parts.sprite),
            tilemap: match &self.parts.tilemap {
                Some(t) => Some(t.clone()),
                None => None,
            },
            nine_slice: clone_slot(&self.parts.nine_slice),
            text2d: clone_slot(&self.parts.text2d),
            light_2d: clone_slot(&self.parts.light_2d),
            rigid_body_2d: clone_slot(&self.parts.rigid_body_2d),
            collider_2d: clone_slot(&self.parts.collider_2d),
            character_controller_2d: clone_slot(&self.parts.character_controller_2d),
            rigid_body_3d: clone_slot(&self.parts.rigid_body_3d),
            collider_3d: clone_slot(&self.parts.collider_3d),
            character_controller_3d: clone_slot(&self.parts.character_controller_3d),
            actor: self.parts.actor,
            terrain: match &self.parts.terrain {
                Some(t) => Some(t.clone()),
                None => None,
            },
            pcg_volume: clone_slot(&self.parts.pcg_volume),
            skeletal_mesh: clone_slot(&self.parts.skeletal_mesh),
            anim_player: clone_slot(&self.parts.anim_player),
            anim_state_machine: clone_slot(&self.parts.anim_state_machine),
            root_motion: clone_slot(&self.parts.root_motion),
            attached_to: clone_slot(&self.parts.attached_to),
            joint_2d: clone_slot(&self.parts.joint_2d),
            joint_3d: clone_slot(&self.parts.joint_3d),
            audio_source: clone_slot(&self.parts.audio_source),
            audio_listener: clone_slot(&self.parts.audio_listener),
            decal: clone_slot(&self.parts.decal),
            volume: clone_slot(&self.parts.volume),
            spline: clone_slot(&self.parts.spline),
            foliage: clone_foliage(&self.parts.foliage),
            streaming_source: self.parts.streaming_source,
            always_loaded: self.parts.always_loaded,
            time_of_day: self.parts.time_of_day,
            sky_atmosphere: self.parts.sky_atmosphere,
            water_body: clone_slot(&self.parts.water_body),
            buoyancy: clone_slot(&self.parts.buoyancy),
            voxel_volume: clone_slot(&self.parts.voxel_volume),
        }
    }
}

impl Entity {
    /// Swap the whole sprite component.
    pub fn set_sprite(&mut self, sprite: &Option<Component>)
        ensures
            final(self)@ == (EntityModel {
                parts: PartsModel { sprite: blob(*sprite), ..old(self)@.parts },
                ..old(self)@
            }),
    {
        self.parts.sprite = clone_slot(sprite);
    }

    /// Bind the entity's material to a material asset, or to none.
    pub fn set_material_asset(&mut self, asset: Option<Guid>)
        ensures
            final(self)@ == (EntityModel {
                parts: PartsModel {
                    material: bound_material(old(self)@.parts.material, asset),
                    ..old(self)@.parts
                },
                ..old(self)@
            }),
    {
        self.parts.material = match self.parts.material {
            Some(m) => Some(Material { asset, ..m }),
            None => None,
        };
    }

    /// Bind the entity to an actor class, or to none.
    pub fn set_actor(&mut self, actor: Option<Guid>)
        ensures
            final(self)@ == (EntityModel {
                parts: PartsModel { actor, ..old(self)@.parts },
                ..old(self)@
            }),
    {
        self.parts.actor = actor;
    }
}

/// A material bound to an asset; where there is none, there is none after it
/// either.
pub open spec fn bound_material(material: Option<Material>, asset: Option<Guid>) -> Option<Material> {
    match material {
        Some(m) => Some(Material { asset, ..m }),
        None => None,
    }
}

/// The slot of a plain value after a record was written over it.
fn write_value<T: Copy>(old: Option<T>, new: Option<T>, remove_absent: bool) -> (r: Option<T>)
    ensures
        r == overlaid(old, new, remove_absent),
{
    if new.is_some() || remove_absent {
        new
    } else {
        old
    }
}

fn write_slot(old: Option<Component>, new: &Option<Component>, remove_absent: bool) -> (r: Option<Component>)
    ensures
        blob(r) == overlaid(blob(old), blob(*new), remove_absent),
{
    if new.is_some() || remove_absent {
        clone_slot(new)
    } else {
        old
    }
}

fn write_tilemap(old: Option<Tilemap>, new: &Option<Tilemap>, remove_absent: bool) -> (r: Option<Tilemap>)
    ensures
        tilemap_now(r) == overlaid(tilemap_now(old), tilemap_now(*new), remove_absent),
{
    match new {
        Some(t) => Some(t.clone()),
        None => if remove_absent {
            None
        } else {
            old
        },
    }
}

fn write_terrain(old: Option<Terrain>, new: &Option<Terrain>, remove_absent: bool) -> (r: Option<Terrain>)
    ensures
        terrain_now(r) == overlaid(terrain_now(old), terrain_now(*new), remove_absent),
{
    match new {
        Some(t) => Some(t.clone()),
        None => if remove_absent {
            None
        } else {
            old
        },
    }
}

fn write_foliage(old: Option<Foliage>, new: &Option<Foliage>, remove_absent: bool) -> (r: Option<Foliage>)
    ensures
        foliage_now(r) == overlaid(foliage_now(old), foliage_now(*new), remove_absent),
{
    if new.is_some() || remove_absent {
        clone_foliage(new)
    } else {
        old
    }
}

/// Write every component of a record onto an entity. Place and visibility are
/// always written; an optional component the record leaves out is removed where
/// `remove_absent` is set and stays otherwise. Identity, name and parent are no
/// components and stay.
pub fn write_record_components(entity: &mut Entity, rec: &EntityRecord, remove_absent: bool)
    ensures
        final(entity)@ == old(entity)@.written(rec@, remove_absent),
{
    let mut old_parts = Parts::bare();
    std::mem::swap(&mut old_parts, &mut entity.parts);
    entity.transform = Some(rec.transform);
    entity.visible = Some(rec.visible);
    entity.parts = Parts {
        mesh: write_value(old_parts.mesh, rec.mesh, remove_absent),
        material: write_value(old_parts.material, rec.material, remove_absent),
        light: write_value(old_parts.light, rec.light, remove_absent),
        camera: write_slot(old_parts.camera, &rec.camera, remove_absent),
        sprite: write_slot(old_parts.sprite, &rec.sprite, remove_absent),
        tilemap: write_tilemap(old_parts.tilemap, &rec.tilemap, remove_absent),
        nine_slice: write_slot(old_parts.nine_slice, &rec.nine_slice, remove_absent),
        text2d: write_slot(old_parts.text2d, &rec.text2d, remove_absent),
        light_2d: write_slot(old_parts.light_2d, &rec.light_2d, remove_absent),
        rigid_body_2d: write_slot(old_parts.rigid_body_2d, &rec.rigid_body_2d, remove_absent),
        collider_2d: write_slot(old_parts.collider_2d, &rec.collider_2d, remove_absent),
        character_controller_2d: write_slot(old_parts.character_controller_2d, &rec.character_controller_2d, remove_absent),
        rigid_body_3d: write_slot(old_parts.rigid_body_3d, &rec.rigid_body_3d, remove_absent),
        collider_3d: write_slot(old_parts.collider_3d, &rec.collider_3d, remove_absent),
        character_controller_3d: write_slot(old_parts.character_controller_3d, &rec.character_controller_3d, remove_absent),
        actor: write_value(old_parts.actor, rec.actor, remove_absent),
        terrain: write_terrain(old_parts.terrain, &rec.terrain, remove_absent),
        pcg_volume: write_slot(old_parts.pcg_volume, &rec.pcg_volume, remove_absent),
        skeletal_mesh: write_slot(old_parts.skeletal_mesh, &rec.skeletal_mesh, remove_absent),
        anim_player: write_slot(old_parts.anim_player, &rec.anim_player, remove_absent),
        anim_state_machine: write_slot(old_parts.anim_state_machine, &rec.anim_state_machine, remove_absent),
        root_motion: write_slot(old_parts.root_motion, &rec.root_motion, remove_absent),
        attached_to: write_slot(old_parts.attached_to, &rec.attached_to, remove_absent),
        joint_2d: write_slot(old_parts.joint_2d, &rec.joint_2d, remove_absent),
        joint_3d: write_slot(old_parts.joint_3d, &rec.joint_3d, remove_absent),
        audio_source: write_slot(old_parts.audio_source, &rec.audio_source, remove_absent),
        audio_listener: write_slot(old_parts.audio_listener, &rec.audio_listener, remove_absent),
        decal: write_slot(old_parts.decal, &rec.decal, remove_absent),
        volume: write_slot(old_parts.volume, &rec.volume, remove_absent),
        spline: write_slot(old_parts.spline, &rec.spline, remove_absent),
        foliage: write_foliage(old_parts.foliage, &rec.foliage, remove_absent),
        streaming_source: write_value(old_parts.streaming_source, rec.streaming_source, remove_absent),
        always_loaded: write_value(old_parts.always_loaded, rec.always_loaded, remove_absent),
        time_of_day: write_value(old_parts.time_of_day, rec.time_of_day, remove_absent),
        sky_atmosphere: write_value(old_parts.sky_atmosphere, rec.sky_atmosphere, remove_absent),
        water_body: write_slot(old_parts.water_body, &rec.water_body, remove_absent),
        buoyancy: write_slot(old_parts.buoyancy, &rec.buoyancy, remove_absent),
        voxel_volume: write_slot(old_parts.voxel_volume, &rec.voxel_volume, remove_absent),
    };
}

/// Written onto a bare entity, or with absent components removed, a record is
/// the whole truth about the components: the entity reads back as the record.
pub proof fn law_written_record_reads_back(e: EntityModel, rec: RecordModel, remove_absent: bool)
    requires
        remove_absent || e.parts == PartsModel::bare(),
    ensures
        e.written(rec, remove_absent).parts == rec.parts,
        e.written(rec, remove_absent).record() == (RecordModel {
            guid: e.guid,
            name: e.record().name,
            parent: e.parent,
            ..rec
        }),
{
    assert(e.written(rec, remove_absent).parts == rec.parts);
}

/// Swapping in one record and then another with absent components removed
/// leaves no trace of the first.
pub proof fn law_swapping_records_leaves_no_trace(e: EntityModel, a: RecordModel, b: RecordModel)
    ensures
        e.written(a, true).written(b, true) == e.written(b, true),
{
}

/// Without removal nothing is lost: a slot the record leaves out keeps what it
/// held.
pub proof fn law_insertion_keeps_what_is_absent(e: EntityModel, rec: RecordModel)
    ensures
        rec.parts.mesh is None ==> e.written(rec, false).parts.mesh == e.parts.mesh,
        rec.parts.material is None ==> e.written(rec, false).parts.material == e.parts.material,
        rec.parts.light is None ==> e.written(rec, false).parts.light == e.parts.light,
        rec.parts.camera is None ==> e.written(rec, false).parts.camera == e.parts.camera,
        rec.parts.sprite is None ==> e.written(rec, false).parts.sprite == e.parts.sprite,
        rec.parts.tilemap is None ==> e.written(rec, false).parts.tilemap == e.parts.tilemap,
        rec.parts.nine_slice is None ==> e.written(rec, false).parts.nine_slice == e.parts.nine_slice,
        rec.parts.text2d is None ==> e.written(rec, false).parts.text2d == e.parts.text2d,
        rec.parts.light_2d is None ==> e.written(rec, false).parts.light_2d == e.parts.light_2d,
        rec.parts.rigid_body_2d is None ==> e.written(rec, false).parts.rigid_body_2d == e.parts.rigid_body_2d,
        rec.parts.collider_2d is None ==> e.written(rec, false).parts.collider_2d == e.parts.collider_2d,
        rec.parts.character_controller_2d is None ==> e.written(rec, false).parts.character_controller_2d == e.parts.character_controller_2d,
        rec.parts.rigid_body_3d is None ==> e.written(rec, false).parts.rigid_body_3d == e.parts.rigid_body_3d,
        rec.parts.collider_3d is None ==> e.written(rec, false).parts.collider_3d == e.parts.collider_3d,
        rec.parts.character_controller_3d is None ==> e.written(rec, false).parts.character_controller_3d == e.parts.character_controller_3d,
        rec.parts.actor is None ==> e.written(rec, false).parts.actor == e.parts.actor,
        rec.parts.terrain is None ==> e.written(rec, false).parts.terrain == e.parts.terrain,
        rec.parts.pcg_volume is None ==> e.written(rec, false).parts.pcg_volume == e.parts.pcg_volume,
        rec.parts.skeletal_mesh is None ==> e.written(rec, false).parts.skeletal_mesh == e.parts.skeletal_mesh,
        rec.parts.anim_player is None ==> e.written(rec, false).parts.anim_player == e.parts.anim_player,
        rec.parts.anim_state_machine is None ==> e.written(rec, false).parts.anim_state_machine == e.parts.anim_state_machine,
        rec.parts.root_motion is None ==> e.written(rec, false).parts.root_motion == e.parts.root_motion,
        rec.parts.attached_to is None ==> e.written(rec, false).parts.attached_to == e.parts.attached_to,
        rec.parts.joint_2d is None ==> e.written(rec, false).parts.joint_2d == e.parts.joint_2d,
        rec.parts.joint_3d is None ==> e.written(rec, false).parts.joint_3d == e.parts.joint_3d,
        rec.parts.audio_source is None ==> e.written(rec, false).parts.audio_source == e.parts.audio_source,
        rec.parts.audio_listener is None ==> e.written(rec, false).parts.audio_listener == e.parts.audio_listener,
        rec.parts.decal is None ==> e.written(rec, false).parts.decal == e.parts.decal,
        rec.parts.volume is None ==> e.written(rec, false).parts.volume == e.parts.volume,
        rec.parts.spline is None ==> e.written(rec, false).parts.spline == e.parts.spline,
        rec.parts.foliage is None ==> e.written(rec, false).parts.foliage == e.parts.foliage,
        rec.parts.streaming_source is None ==> e.written(rec, false).parts.streaming_source == e.parts.streaming_source,
        rec.parts.always_loaded is None ==> e.written(rec, false).parts.always_loaded == e.parts.always_loaded,
        rec.parts.time_of_day is None ==> e.written(rec, false).parts.time_of_day == e.parts.time_of_day,
        rec.parts.sky_atmosphere is None ==> e.written(rec, false).parts.sky_atmosphere == e.parts.sky_atmosphere,
        rec.parts.water_body is None ==> e.written(rec, false).parts.water_body == e.parts.water_body,
        rec.parts.buoyancy is None ==> e.written(rec, false).parts.buoyancy == e.parts.buoyancy,
        rec.parts.voxel_volume is None ==> e.written(rec, false).parts.voxel_volume == e.parts.voxel_volume,
{
}

} // verus!
