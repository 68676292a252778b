//! The entity records of versions 10 to 18 of the file, their lifts and their
//! projections back from today's record.

use crate::guid::Guid;
use crate::scene::component::{
    blob, AlwaysLoaded, Component, Light, Material, MeshRef, StreamingSource, TimeOfDay, Transform,
};
use crate::scene::foliage::{foliage_now, Foliage};
use crate::scene::record::{EntityRecord, PartsModel, RecordModel};
use crate::scene::sky::{
    sky_now, sky_v11, sky_v12, sky_v13, SkyAtmosphere, SkyAtmosphereV11, SkyAtmosphereV12,
    SkyAtmosphereV13,
};
use crate::scene::terrain::{
    terrain_now, terrain_v14, terrain_v15, Terrain, TerrainV14, TerrainV15,
};
use crate::scene::tilemap::{tilemap_now, Tilemap};
use vstd::prelude::*;

verus! {

/// An entity in version 10 of the file.
#[derive(Debug, PartialEq)]
pub struct EntityRecordV10 {
    pub guid: Guid,
    pub name: String,
    pub parent: Option<Guid>,
    pub transform: Transform,
    pub visible: bool,
    pub mesh: Option<MeshRef>,
    pub material: Option<Material>,
    pub light: Option<Light>,
    pub camera: Option<Component>,
    pub sprite: Option<Component>,
    pub tilemap: Option<Tilemap>,
    pub nine_slice: Option<Component>,
    pub text2d: Option<Component>,
    pub light_2d: Option<Component>,
    pub rigid_body_2d: Option<Component>,
    pub collider_2d: Option<Component>,
    pub character_controller_2d: Option<Component>,
    pub rigid_body_3d: Option<Component>,
    pub collider_3d: Option<Component>,
    pub character_controller_3d: Option<Component>,
    pub actor: Option<Guid>,
    pub terrain: Option<TerrainV14>,
    pub pcg_volume: Option<Component>,
    pub skeletal_mesh: Option<Component>,
    pub anim_player: Option<Component>,
    pub anim_state_machine: Option<Component>,
    pub root_motion: Option<Component>,
    pub attached_to: Option<Component>,
    pub joint_2d: Option<Component>,
    pub joint_3d: Option<Component>,
    pub audio_source: Option<Component>,
    pub audio_listener: Option<Component>,
    pub decal: Option<Component>,
    pub volume: Option<Component>,
    pub spline: Option<Component>,
    pub foliage: Option<Foliage>,
    pub streaming_source: Option<StreamingSource>,
    pub always_loaded: Option<AlwaysLoaded>,
}

impl View for EntityRecordV10 {
    type V = RecordModel;

    open spec fn view(&self) -> RecordModel {
        RecordModel {
            guid: self.guid,
            name: self.name@,
            parent: self.parent,
            transform: self.transform,
            visible: self.visible,
            parts: PartsModel {
                mesh: self.mesh,
                material: self.material,
                light: self.light,
                camera: blob(self.camera),
                sprite: blob(self.sprite),
                tilemap: tilemap_now(self.tilemap),
                nine_slice: blob(self.nine_slice),
                text2d: blob(self.text2d),
                light_2d: blob(self.light_2d),
                rigid_body_2d: blob(self.rigid_body_2d),
                collider_2d: blob(self.collider_2d),
                character_controller_2d: blob(self.character_controller_2d),
                rigid_body_3d: blob(self.rigid_body_3d),
                collider_3d: blob(self.collider_3d),
                character_controller_3d: blob(self.character_controller_3d),
                actor: self.actor,
                terrain: terrain_v14(self.terrain),
                pcg_volume: blob(self.pcg_volume),
                skeletal_mesh: blob(self.skeletal_mesh),
                anim_player: blob(self.anim_player),
                anim_state_machine: blob(self.anim_state_machine),
                root_motion: blob(self.root_motion),
                attached_to: blob(self.attached_to),
                joint_2d: blob(self.joint_2d),
                joint_3d: blob(self.joint_3d),
                audio_source: blob(self.audio_source),
                audio_listener: blob(self.audio_listener),
                decal: blob(self.decal),
                volume: blob(self.volume),
                spline: blob(self.spline),
                foliage: foliage_now(self.foliage),
                streaming_source: self.streaming_source,
                always_loaded: self.always_loaded,
                ..PartsModel::bare()
            },
        }
    }
}

impl EntityRecordV10 {
    /// Lift to version 11: the entity means what it meant.
    pub fn into_v11(self) -> (r: EntityRecordV11)
        ensures
            r@ == self@,
    {
        EntityRecordV11 {
            guid: self.guid,
            name: self.name,
            parent: self.parent,
            transform: self.transform,
            visible: self.visible,
            mesh: self.mesh,
            material: self.material,
            light: self.light,
            camera: self.camera,
            sprite: self.sprite,
            tilemap: self.tilemap,
            nine_slice: self.nine_slice,
            text2d: self.text2d,
            light_2d: self.light_2d,
            rigid_body_2d: self.rigid_body_2d,
            collider_2d: self.collider_2d,
            character_controller_2d: self.character_controller_2d,
            rigid_body_3d: self.rigid_body_3d,
            collider_3d: self.collider_3d,
            character_controller_3d: self.character_controller_3d,
            actor: self.actor,
            terrain: self.terrain,
            pcg_volume: self.pcg_volume,
            skeletal_mesh: self.skeletal_mesh,
            anim_player: self.anim_player,
            anim_state_machine: self.anim_state_machine,
            root_motion: self.root_motion,
            attached_to: self.attached_to,
            joint_2d: self.joint_2d,
            joint_3d: self.joint_3d,
            audio_source: self.audio_source,
            audio_listener: self.audio_listener,
            decal: self.decal,
            volume: self.volume,
            spline: self.spline,
            foliage: self.foliage,
            streaming_source: self.streaming_source,
            always_loaded: self.always_loaded,
            time_of_day: None,
            sky_atmosphere: None,
        }
    }

    /// Project today's record back onto this layout; what has no place in it is
    /// dropped.
    pub fn from_current(r: EntityRecord) -> (back: EntityRecordV10)
        ensures
            back@ == r@.as_of(10),
    {
        EntityRecordV10 {
            guid: r.guid,
            name: r.name,
            parent: r.parent,
            transform: r.transform,
            visible: r.visible,
            mesh: r.mesh,
            material: r.material,
            light: r.light,
            camera: r.camera,
            sprite: r.sprite,
            tilemap: r.tilemap,
            nine_slice: r.nine_slice,
            text2d: r.text2d,
            light_2d: r.light_2d,
            rigid_body_2d: r.rigid_body_2d,
            collider_2d: r.collider_2d,
            character_controller_2d: r.character_controller_2d,
            rigid_body_3d: r.rigid_body_3d,
            collider_3d: r.collider_3d,
            character_controller_3d: r.character_controller_3d,
            actor: r.actor,
            terrain: match r.terrain {
                Some(c) => Some(TerrainV14::from_current(c)),
                None => None,
            },
            pcg_volume: r.pcg_volume,
            skeletal_mesh: r.skeletal_mesh,
            anim_player: r.anim_player,
            anim_state_machine: r.anim_state_machine,
            root_motion: r.root_motion,
            attached_to: r.attached_to,
            joint_2d: r.joint_2d,
            joint_3d: r.joint_3d,
            audio_source: r.audio_source,
            audio_listener: r.audio_listener,
            decal: r.decal,
            volume: r.volume,
            spline: r.spline,
            foliage: r.foliage,
            streaming_source: r.streaming_source,
            always_loaded: r.always_loaded,
        }
    }
}

/// An entity in version 11 of the file.
#[derive(Debug, PartialEq)]
pub struct EntityRecordV11 {
    pub guid: Guid,
    pub name: String,
    pub parent: Option<Guid>,
    pub transform: Transform,
    pub visible: bool,
    pub mesh: Option<MeshRef>,
    pub material: Option<Material>,
    pub light: Option<Light>,
    pub camera: Option<Component>,
    pub sprite: Option<Component>,
    pub tilemap: Option<Tilemap>,
    pub nine_slice: Option<Component>,
    pub text2d: Option<Component>,
    pub light_2d: Option<Component>,
    pub rigid_body_2d: Option<Component>,
    pub collider_2d: Option<Component>,
    pub character_controller_2d: Option<Component>,
    pub rigid_body_3d: Option<Component>,
    pub collider_3d: Option<Component>,
    pub character_controller_3d: Option<Component>,
    pub actor: Option<Guid>,
    pub terrain: Option<TerrainV14>,
    pub pcg_volume: Option<Component>,
    pub skeletal_mesh: Option<Component>,
    pub anim_player: Option<Component>,
    pub anim_state_machine: Option<Component>,
    pub root_motion: Option<Component>,
    pub attached_to: Option<Component>,
    pub joint_2d: Option<Component>,
    pub joint_3d: Option<Component>,
    pub audio_source: Option<Component>,
    pub audio_listener: Option<Component>,
    pub decal: Option<Component>,
    pub volume: Option<Component>,
    pub spline: Option<Component>,
    pub foliage: Option<Foliage>,
    pub streaming_source: Option<StreamingSource>,
    pub always_loaded: Option<AlwaysLoaded>,
    pub time_of_day: Option<TimeOfDay>,
    pub sky_atmosphere: Option<SkyAtmosphereV11>,
}

impl View for EntityRecordV11 {
    type V = RecordModel;

    open spec fn view(&self) -> RecordModel {
        RecordModel {
            guid: self.guid,
            name: self.name@,
            parent: self.parent,
            transform: self.transform,
            visible: self.visible,
            parts: PartsModel {
                mesh: self.mesh,
                material: self.material,
                light: self.light,
                camera: blob(self.camera),
                sprite: blob(self.sprite),
                tilemap: tilemap_now(self.tilemap),
                nine_slice: blob(self.nine_slice),
                text2d: blob(self.text2d),
                light_2d: blob(self.light_2d),
                rigid_body_2d: blob(self.rigid_body_2d),
                collider_2d: blob(self.collider_2d),
                character_controller_2d: blob(self.character_controller_2d),
                rigid_body_3d: blob(self.rigid_body_3d),
                collider_3d: blob(self.collider_3d),
                character_controller_3d: blob(self.character_controller_3d),
                actor: self.actor,
                terrain: terrain_v14(self.terrain),
                pcg_volume: blob(self.pcg_volume),
                skeletal_mesh: blob(self.skeletal_mesh),
                anim_player: blob(self.anim_player),
                anim_state_machine: blob(self.anim_state_machine),
                root_motion: blob(self.root_motion),
                attached_to: blob(self.attached_to),
                joint_2d: blob(self.joint_2d),
                joint_3d: blob(self.joint_3d),
                audio_source: blob(self.audio_source),
                audio_listener: blob(self.audio_listener),
                decal: blob(self.decal),
                volume: blob(self.volume),
                spline: blob(self.spline),
                foliage: foliage_now(self.foliage),
                streaming_source: self.streaming_source,
                always_loaded: self.always_loaded,
                time_of_day: self.time_of_day,
                sky_atmosphere: sky_v11(self.sky_atmosphere),
                ..PartsModel::bare()
            },
        }
    }
}

impl EntityRecordV11 {
    /// Lift to version 12: the entity means what it meant.
    pub fn into_v12(self) -> (r: EntityRecordV12)
        ensures
            r@ == self@,
    {
        EntityRecordV12 {
            guid: self.guid,
            name: self.name,
            parent: self.parent,
            transform: self.transform,
            visible: self.visible,
            mesh: self.mesh,
            material: self.material,
            light: self.light,
            camera: self.camera,
            sprite: self.sprite,
            tilemap: self.tilemap,
            nine_slice: self.nine_slice,
            text2d: self.text2d,
            light_2d: self.light_2d,
            rigid_body_2d: self.rigid_body_2d,
            collider_2d: self.collider_2d,
            character_controller_2d: self.character_controller_2d,
            rigid_body_3d: self.rigid_body_3d,
            collider_3d: self.collider_3d,
            character_controller_3d: self.character_controller_3d,
            actor: self.actor,
            terrain: self.terrain,
            pcg_volume: self.pcg_volume,
            skeletal_mesh: self.skeletal_mesh,
            anim_player: self.anim_player,
            anim_state_machine: self.anim_state_machine,
            root_motion: self.root_motion,
            attached_to: self.attached_to,
            joint_2d: self.joint_2d,
            joint_3d: self.joint_3d,
            audio_source: self.audio_source,
            audio_listener: self.audio_listener,
            decal: self.decal,
            volume: self.volume,
            spline: self.spline,
            foliage: self.foliage,
            streaming_source: self.streaming_source,
            always_loaded: self.always_loaded,
            time_of_day: self.time_of_day,
            sky_atmosphere: match self.sky_atmosphere {
                Some(c) => Some(c.into_v12()),
                None => None,
            },
        }
    }

    /// Project today's record back onto this layout; what has no place in it is
    /// dropped.
    pub fn from_current(r: EntityRecord) -> (back: EntityRecordV11)
        ensures
            back@ == r@.as_of(11),
    {
        EntityRecordV11 {
            guid: r.guid,
            name: r.name,
            parent: r.parent,
            transform: r.transform,
            visible: r.visible,
            mesh: r.mesh,
            material: r.material,
            light: r.light,
            camera: r.camera,
            sprite: r.sprite,
            tilemap: r.tilemap,
            nine_slice: r.nine_slice,
            text2d: r.text2d,
            light_2d: r.light_2d,
            rigid_body_2d: r.rigid_body_2d,
            collider_2d: r.collider_2d,
            character_controller_2d: r.character_controller_2d,
            rigid_body_3d: r.rigid_body_3d,
            collider_3d: r.collider_3d,
            character_controller_3d: r.character_controller_3d,
            actor: r.actor,
            terrain: match r.terrain {
                Some(c) => Some(TerrainV14::from_current(c)),
                None => None,
            },
            pcg_volume: r.pcg_volume,
            skeletal_mesh: r.skeletal_mesh,
            anim_player: r.anim_player,
            anim_state_machine: r.anim_state_machine,
            root_motion: r.root_motion,
            attached_to: r.attached_to,
            joint_2d: r.joint_2d,
            joint_3d: r.joint_3d,
            audio_source: r.audio_source,
            audio_listener: r.audio_listener,
            decal: r.decal,
            volume: r.volume,
            spline: r.spline,
            foliage: r.foliage,
            streaming_source: r.streaming_source,
            always_loaded: r.always_loaded,
            time_of_day: r.time_of_day,
            sky_atmosphere: match r.sky_atmosphere {
                Some(c) => Some(SkyAtmosphereV11::from_current(c)),
                None => None,
            },
        }
    }
}

/// An entity in version 12 of the file.
#[derive(Debug, PartialEq)]
pub struct EntityRecordV12 {
    pub guid: Guid,
    pub name: String,
    pub parent: Option<Guid>,
    pub transform: Transform,
    pub visible: bool,
    pub mesh: Option<MeshRef>,
    pub material: Option<Material>,
    pub light: Option<Light>,
    pub camera: Option<Component>,
    pub sprite: Option<Component>,
    pub tilemap: Option<Tilemap>,
    pub nine_slice: Option<Component>,
    pub text2d: Option<Component>,
    pub light_2d: Option<Component>,
    pub rigid_body_2d: Option<Component>,
    pub collider_2d: Option<Component>,
    pub character_controller_2d: Option<Component>,
    pub rigid_body_3d: Option<Component>,
    pub collider_3d: Option<Component>,
    pub character_controller_3d: Option<Component>,
    pub actor: Option<Guid>,
    pub terrain: Option<TerrainV14>,
    pub pcg_volume: Option<Component>,
    pub skeletal_mesh: Option<Component>,
    pub anim_player: Option<Component>,
    pub anim_state_machine: Option<Component>,
    pub root_motion: Option<Component>,
    pub attached_to: Option<Component>,
    pub joint_2d: Option<Component>,
    pub joint_3d: Option<Component>,
    pub audio_source: Option<Component>,
    pub audio_listener: Option<Component>,
    pub decal: Option<Component>,
    pub volume: Option<Component>,
    pub spline: Option<Component>,
    pub foliage: Option<Foliage>,
    pub streaming_source: Option<StreamingSource>,
    pub always_loaded: Option<AlwaysLoaded>,
    pub time_of_day: Option<TimeOfDay>,
    pub sky_atmosphere: Option<SkyAtmosphereV12>,
}

impl View for EntityRecordV12 {
    type V = RecordModel;

    open spec fn view(&self) -> RecordModel {
        RecordModel {
            guid: self.guid,
            name: self.name@,
            parent: self.parent,
            transform: self.transform,
            visible: self.visible,
            parts: PartsModel {
                mesh: self.mesh,
                material: self.material,
                light: self.light,
                camera: blob(self.camera),
                sprite: blob(self.sprite),
                tilemap: tilemap_now(self.tilemap),
                nine_slice: blob(self.nine_slice),
                text2d: blob(self.text2d),
                light_2d: blob(self.light_2d),
                rigid_body_2d: blob(self.rigid_body_2d),
                collider_2d: blob(self.collider_2d),
                character_controller_2d: blob(self.character_controller_2d),
                rigid_body_3d: blob(self.rigid_body_3d),
                collider_3d: blob(self.collider_3d),
                character_controller_3d: blob(self.character_controller_3d),
                actor: self.actor,
                terrain: terrain_v14(self.terrain),
                pcg_volume: blob(self.pcg_volume),
                skeletal_mesh: blob(self.skeletal_mesh),
                anim_player: blob(self.anim_player),
                anim_state_machine: blob(self.anim_state_machine),
                root_motion: blob(self.root_motion),
                attached_to: blob(self.attached_to),
                joint_2d: blob(self.joint_2d),
                joint_3d: blob(self.joint_3d),
                audio_source: blob(self.audio_source),
                audio_listener: blob(self.audio_listener),
                decal: blob(self.decal),
                volume: blob(self.volume),
                spline: blob(self.spline),
                foliage: foliage_now(self.foliage),
                streaming_source: self.streaming_source,
                always_loaded: self.always_loaded,
                time_of_day: self.time_of_day,
                sky_atmosphere: sky_v12(self.sky_atmosphere),
                ..PartsModel::bare()
            },
        }
    }
}

impl EntityRecordV12 {
    /// Lift to version 13: the entity means what it meant.
    pub fn into_v13(self) -> (r: EntityRecordV13)
        ensures
            r@ == self@,
    {
        EntityRecordV13 {
            guid: self.guid,
            name: self.name,
            parent: self.parent,
            transform: self.transform,
            visible: self.visible,
            mesh: self.mesh,
            material: self.material,
            light: self.light,
            camera: self.camera,
            sprite: self.sprite,
            tilemap: self.tilemap,
            nine_slice: self.nine_slice,
            text2d: self.text2d,
            light_2d: self.light_2d,
            rigid_body_2d: self.rigid_body_2d,
            collider_2d: self.collider_2d,
            character_controller_2d: self.character_controller_2d,
            rigid_body_3d: self.rigid_body_3d,
            collider_3d: self.collider_3d,
            character_controller_3d: self.character_controller_3d,
            actor: self.actor,
            terrain: self.terrain,
            pcg_volume: self.pcg_volume,
            skeletal_mesh: self.skeletal_mesh,
            anim_player: self.anim_player,
            anim_state_machine: self.anim_state_machine,
            root_motion: self.root_motion,
            attached_to: self.attached_to,
            joint_2d: self.joint_2d,
            joint_3d: self.joint_3d,
            audio_source: self.audio_source,
            audio_listener: self.audio_listener,
            decal: self.decal,
            volume: self.volume,
            spline: self.spline,
            foliage: self.foliage,
            streaming_source: self.streaming_source,
            always_loaded: self.always_loaded,
            time_of_day: self.time_of_day,
            sky_atmosphere: match self.sky_atmosphere {
                Some(c) => Some(c.into_v13()),
                None => None,
            },
        }
    }

    /// Project today's record back onto this layout; what has no place in it is
    /// dropped.
    pub fn from_current(r: EntityRecord) -> (back: EntityRecordV12)
        ensures
            back@ == r@.as_of(12),
    {
        EntityRecordV12 {
            guid: r.guid,
            name: r.name,
            parent: r.parent,
            transform: r.transform,
            visible: r.visible,
            mesh: r.mesh,
            material: r.material,
            light: r.light,
            camera: r.camera,
            sprite: r.sprite,
            tilemap: r.tilemap,
            nine_slice: r.nine_slice,
            text2d: r.text2d,
            light_2d: r.light_2d,
            rigid_body_2d: r.rigid_body_2d,
            collider_2d: r.collider_2d,
            character_controller_2d: r.character_controller_2d,
            rigid_body_3d: r.rigid_body_3d,
            collider_3d: r.collider_3d,
            character_controller_3d: r.character_controller_3d,
            actor: r.actor,
            terrain: match r.terrain {
                Some(c) => Some(TerrainV14::from_current(c)),
                None => None,
            },
            pcg_volume: r.pcg_volume,
            skeletal_mesh: r.skeletal_mesh,
            anim_player: r.anim_player,
            anim_state_machine: r.anim_state_machine,
            root_motion: r.root_motion,
            attached_to: r.attached_to,
            joint_2d: r.joint_2d,
            joint_3d: r.joint_3d,
            audio_source: r.audio_source,
            audio_listener: r.audio_listener,
            decal: r.decal,
            volume: r.volume,
            spline: r.spline,
            foliage: r.foliage,
            streaming_source: r.streaming_source,
            always_loaded: r.always_loaded,
            time_of_day: r.time_of_day,
            sky_atmosphere: match r.sky_atmosphere {
                Some(c) => Some(SkyAtmosphereV12::from_current(c)),
                None => None,
            },
        }
    }
}

/// An entity in version 13 of the file.
#[derive(Debug, PartialEq)]
pub struct EntityRecordV13 {
    pub guid: Guid,
    pub name: String,
    pub parent: Option<Guid>,
    pub transform: Transform,
    pub visible: bool,
    pub mesh: Option<MeshRef>,
    pub material: Option<Material>,
    pub light: Option<Light>,
    pub camera: Option<Component>,
    pub sprite: Option<Component>,
    pub tilemap: Option<Tilemap>,
    pub nine_slice: Option<Component>,
    pub text2d: Option<Component>,
    pub light_2d: Option<Component>,
    pub rigid_body_2d: Option<Component>,
    pub collider_2d: Option<Component>,
    pub character_controller_2d: Option<Component>,
    pub rigid_body_3d: Option<Component>,
    pub collider_3d: Option<Component>,
    pub character_controller_3d: Option<Component>,
    pub actor: Option<Guid>,
    pub terrain: Option<TerrainV14>,
    pub pcg_volume: Option<Component>,
    pub skeletal_mesh: Option<Component>,
    pub anim_player: Option<Component>,
    pub anim_state_machine: Option<Component>,
    pub root_motion: Option<Component>,
    pub attached_to: Option<Component>,
    pub joint_2d: Option<Component>,
    pub joint_3d: Option<Component>,
    pub audio_source: Option<Component>,
    pub audio_listener: Option<Component>,
    pub decal: Option<Component>,
    pub volume: Option<Component>,
    pub spline: Option<Component>,
    pub foliage: Option<Foliage>,
    pub streaming_source: Option<StreamingSource>,
    pub always_loaded: Option<AlwaysLoaded>,
    pub time_of_day: Option<TimeOfDay>,
    pub sky_atmosphere: Option<SkyAtmosphereV13>,
}

impl View for EntityRecordV13 {
    type V = RecordModel;

    open spec fn view(&self) -> RecordModel {
        RecordModel {
            guid: self.guid,
            name: self.name@,
            parent: self.parent,
            transform: self.transform,
            visible: self.visible,
            parts: PartsModel {
                mesh: self.mesh,
                material: self.material,
                light: self.light,
                camera: blob(self.camera),
                sprite: blob(self.sprite),
                tilemap: tilemap_now(self.tilemap),
                nine_slice: blob(self.nine_slice),
                text2d: blob(self.text2d),
                light_2d: blob(self.light_2d),
                rigid_body_2d: blob(self.rigid_body_2d),
                collider_2d: blob(self.collider_2d),
                character_controller_2d: blob(self.character_controller_2d),
                rigid_body_3d: blob(self.rigid_body_3d),
                collider_3d: blob(self.collider_3d),
                character_controller_3d: blob(self.character_controller_3d),
                actor: self.actor,
                terrain: terrain_v14(self.terrain),
                pcg_volume: blob(self.pcg_volume),
                skeletal_mesh: blob(self.skeletal_mesh),
                anim_player: blob(self.anim_player),
                anim_state_machine: blob(self.anim_state_machine),
                root_motion: blob(self.root_motion),
                attached_to: blob(self.attached_to),
                joint_2d: blob(self.joint_2d),
                joint_3d: blob(self.joint_3d),
                audio_source: blob(self.audio_source),
                audio_listener: blob(self.audio_listener),
                decal: blob(self.decal),
                volume: blob(self.volume),
                spline: blob(self.spline),
                foliage: foliage_now(self.foliage),
                streaming_source: self.streaming_source,
                always_loaded: self.always_loaded,
                time_of_day: self.time_of_day,
                sky_atmosphere: sky_v13(self.sky_atmosphere),
                ..PartsModel::bare()
            },
        }
    }
}

impl EntityRecordV13 {
    /// Lift to today's record: the weather is that of the living component's
    /// default, what came later is absent.
    pub fn into_current(self, standard: &SkyAtmosphere) -> (r: EntityRecord)
        ensures
            r@ == self@.with_weather(standard.weather()),
    {
        EntityRecord {
            guid: self.guid,
            name: self.name,
            parent: self.parent,
            transform: self.transform,
            visible: self.visible,
            mesh: self.mesh,
            material: self.material,
            light: self.light,
            camera: self.camera,
            sprite: self.sprite,
            tilemap: self.tilemap,
            nine_slice: self.nine_slice,
            text2d: self.text2d,
            light_2d: self.light_2d,
            rigid_body_2d: self.rigid_body_2d,
            collider_2d: self.collider_2d,
            character_controller_2d: self.character_controller_2d,
            rigid_body_3d: self.rigid_body_3d,
            collider_3d: self.collider_3d,
            character_controller_3d: self.character_controller_3d,
            actor: self.actor,
            terrain: match self.terrain {
                Some(c) => Some(c.into_current()),
                None => None,
            },
            pcg_volume: self.pcg_volume,
            skeletal_mesh: self.skeletal_mesh,
            anim_player: self.anim_player,
            anim_state_machine: self.anim_state_machine,
            root_motion: self.root_motion,
            attached_to: self.attached_to,
            joint_2d: self.joint_2d,
            joint_3d: self.joint_3d,
            audio_source: self.audio_source,
            audio_listener: self.audio_listener,
            decal: self.decal,
            volume: self.volume,
            spline: self.spline,
            foliage: self.foliage,
            streaming_source: self.streaming_source,
            always_loaded: self.always_loaded,
            time_of_day: self.time_of_day,
            sky_atmosphere: match self.sky_atmosphere {
                Some(c) => Some(c.into_current(standard)),
                None => None,
            },
            water_body: None,
            buoyancy: None,
            voxel_volume: None,
        }
    }

    /// Project today's record back onto this layout; what has no place in it is
    /// dropped.
    pub fn from_current(r: EntityRecord) -> (back: EntityRecordV13)
        ensures
            back@ == r@.as_of(13),
    {
        EntityRecordV13 {
            guid: r.guid,
            name: r.name,
            parent: r.parent,
            transform: r.transform,
            visible: r.visible,
            mesh: r.mesh,
            material: r.material,
            light: r.light,
            camera: r.camera,
            sprite: r.sprite,
            tilemap: r.tilemap,
            nine_slice: r.nine_slice,
            text2d: r.text2d,
            light_2d: r.light_2d,
            rigid_body_2d: r.rigid_body_2d,
            collider_2d: r.collider_2d,
            character_controller_2d: r.character_controller_2d,
            rigid_body_3d: r.rigid_body_3d,
            collider_3d: r.collider_3d,
            character_controller_3d: r.character_controller_3d,
            actor: r.actor,
            terrain: match r.terrain {
                Some(c) => Some(TerrainV14::from_current(c)),
                None => None,
            },
            pcg_volume: r.pcg_volume,
            skeletal_mesh: r.skeletal_mesh,
            anim_player: r.anim_player,
            anim_state_machine: r.anim_state_machine,
            root_motion: r.root_motion,
            attached_to: r.attached_to,
            joint_2d: r.joint_2d,
            joint_3d: r.joint_3d,
            audio_source: r.audio_source,
            audio_listener: r.audio_listener,
            decal: r.decal,
            volume: r.volume,
            spline: r.spline,
            foliage: r.foliage,
            streaming_source: r.streaming_source,
            always_loaded: r.always_loaded,
            time_of_day: r.time_of_day,
            sky_atmosphere: match r.sky_atmosphere {
                Some(c) => Some(SkyAtmosphereV13::from_current(c)),
                None => None,
            },
        }
    }
}

/// An entity in version 14 of the file.
#[derive(Debug, PartialEq)]
pub struct EntityRecordV14 {
    pub guid: Guid,
    pub name: String,
    pub parent: Option<Guid>,
    pub transform: Transform,
    pub visible: bool,
    pub mesh: Option<MeshRef>,
    pub material: Option<Material>,
    pub light: Option<Light>,
    pub camera: Option<Component>,
    pub sprite: Option<Component>,
    pub tilemap: Option<Tilemap>,
    pub nine_slice: Option<Component>,
    pub text2d: Option<Component>,
    pub light_2d: Option<Component>,
    pub rigid_body_2d: Option<Component>,
    pub collider_2d: Option<Component>,
    pub character_controller_2d: Option<Component>,
    pub rigid_body_3d: Option<Component>,
    pub collider_3d: Option<Component>,
    pub character_controller_3d: Option<Component>,
    pub actor: Option<Guid>,
    pub terrain: Option<TerrainV14>,
    pub pcg_volume: Option<Component>,
    pub skeletal_mesh: Option<Component>,
    pub anim_player: Option<Component>,
    pub anim_state_machine: Option<Component>,
    pub root_motion: Option<Component>,
    pub attached_to: Option<Component>,
    pub joint_2d: Option<Component>,
    pub joint_3d: Option<Component>,
    pub audio_source: Option<Component>,
    pub audio_listener: Option<Component>,
    pub decal: Option<Component>,
    pub volume: Option<Component>,
    pub spline: Option<Component>,
    pub foliage: Option<Foliage>,
    pub streaming_source: Option<StreamingSource>,
    pub always_loaded: Option<AlwaysLoaded>,
    pub time_of_day: Option<TimeOfDay>,
    pub sky_atmosphere: Option<SkyAtmosphere>,
}

impl View for EntityRecordV14 {
    type V = RecordModel;

    open spec fn view(&self) -> RecordModel {
        RecordModel {
            guid: self.guid,
            name: self.name@,
            parent: self.parent,
            transform: self.transform,
            visible: self.visible,
            parts: PartsModel {
                mesh: self.mesh,
                material: self.material,
                light: self.light,
                camera: blob(self.camera),
                sprite: blob(self.sprite),
                tilemap: tilemap_now(self.tilemap),
                nine_slice: blob(self.nine_slice),
                text2d: blob(self.text2d),
                light_2d: blob(self.light_2d),
                rigid_body_2d: blob(self.rigid_body_2d),
                collider_2d: blob(self.collider_2d),
                character_controller_2d: blob(self.character_controller_2d),
                rigid_body_3d: blob(self.rigid_body_3d),
                collider_3d: blob(self.collider_3d),
                character_controller_3d: blob(self.character_controller_3d),
                actor: self.actor,
                terrain: terrain_v14(self.terrain),
                pcg_volume: blob(self.pcg_volume),
                skeletal_mesh: blob(self.skeletal_mesh),
                anim_player: blob(self.anim_player),
                anim_state_machine: blob(self.anim_state_machine),
                root_motion: blob(self.root_motion),
                attached_to: blob(self.attached_to),
                joint_2d: blob(self.joint_2d),
                joint_3d: blob(self.joint_3d),
                audio_source: blob(self.audio_source),
                audio_listener: blob(self.audio_listener),
                decal: blob(self.decal),
                volume: blob(self.volume),
                spline: blob(self.spline),
                foliage: foliage_now(self.foliage),
                streaming_source: self.streaming_source,
                always_loaded: self.always_loaded,
                time_of_day: self.time_of_day,
                sky_atmosphere: sky_now(self.sky_atmosphere),
                ..PartsModel::bare()
            },
        }
    }
}

impl EntityRecordV14 {
    /// Lift to version 15: the entity means what it meant.
    pub fn into_v15(self) -> (r: EntityRecordV15)
        ensures
            r@ == self@,
    {
        EntityRecordV15 {
            guid: self.guid,
            name: self.name,
            parent: self.parent,
            transform: self.transform,
            visible: self.visible,
            mesh: self.mesh,
            material: self.material,
            light: self.light,
            camera: self.camera,
            sprite: self.sprite,
            tilemap: self.tilemap,
            nine_slice: self.nine_slice,
            text2d: self.text2d,
            light_2d: self.light_2d,
            rigid_body_2d: self.rigid_body_2d,
            collider_2d: self.collider_2d,
            character_controller_2d: self.character_controller_2d,
            rigid_body_3d: self.rigid_body_3d,
            collider_3d: self.collider_3d,
            character_controller_3d: self.character_controller_3d,
            actor: self.actor,
            terrain: match self.terrain {
                Some(c) => Some(c.into_v15()),
                None => None,
            },
            pcg_volume: self.pcg_volume,
            skeletal_mesh: self.skeletal_mesh,
            anim_player: self.anim_player,
            anim_state_machine: self.anim_state_machine,
            root_motion: self.root_motion,
            attached_to: self.attached_to,
            joint_2d: self.joint_2d,
            joint_3d: self.joint_3d,
            audio_source: self.audio_source,
            audio_listener: self.audio_listener,
            decal: self.decal,
            volume: self.volume,
            spline: self.spline,
            foliage: self.foliage,
            streaming_source: self.streaming_source,
            always_loaded: self.always_loaded,
            time_of_day: self.time_of_day,
            sky_atmosphere: self.sky_atmosphere,
        }
    }

    /// Project today's record back onto this layout; what has no place in it is
    /// dropped.
    pub fn from_current(r: EntityRecord) -> (back: EntityRecordV14)
        ensures
            back@ == r@.as_of(14),
    {
        EntityRecordV14 {
            guid: r.guid,
            name: r.name,
            parent: r.parent,
            transform: r.transform,
            visible: r.visible,
            mesh: r.mesh,
            material: r.material,
            light: r.light,
            camera: r.camera,
            sprite: r.sprite,
            tilemap: r.tilemap,
            nine_slice: r.nine_slice,
            text2d: r.text2d,
            light_2d: r.light_2d,
            rigid_body_2d: r.rigid_body_2d,
            collider_2d: r.collider_2d,
            character_controller_2d: r.character_controller_2d,
            rigid_body_3d: r.rigid_body_3d,
            collider_3d: r.collider_3d,
            character_controller_3d: r.character_controller_3d,
            actor: r.actor,
            terrain: match r.terrain {
                Some(c) => Some(TerrainV14::from_current(c)),
                None => None,
            },
            pcg_volume: r.pcg_volume,
            skeletal_mesh: r.skeletal_mesh,
            anim_player: r.anim_player,
            anim_state_machine: r.anim_state_machine,
            root_motion: r.root_motion,
            attached_to: r.attached_to,
            joint_2d: r.joint_2d,
            joint_3d: r.joint_3d,
            audio_source: r.audio_source,
            audio_listener: r.audio_listener,
            decal: r.decal,
            volume: r.volume,
            spline: r.spline,
            foliage: r.foliage,
            streaming_source: r.streaming_source,
            always_loaded: r.always_loaded,
            time_of_day: r.time_of_day,
            sky_atmosphere: r.sky_atmosphere,
        }
    }
}

/// An entity in version 15 of the file.
#[derive(Debug, PartialEq)]
pub struct EntityRecordV15 {
    pub guid: Guid,
    pub name: String,
    pub parent: Option<Guid>,
    pub transform: Transform,
    pub visible: bool,
    pub mesh: Option<MeshRef>,
    pub material: Option<Material>,
    pub light: Option<Light>,
    pub camera: Option<Component>,
    pub sprite: Option<Component>,
    pub tilemap: Option<Tilemap>,
    pub nine_slice: Option<Component>,
    pub text2d: Option<Component>,
    pub light_2d: Option<Component>,
    pub rigid_body_2d: Option<Component>,
    pub collider_2d: Option<Component>,
    pub character_controller_2d: Option<Component>,
    pub rigid_body_3d: Option<Component>,
    pub collider_3d: Option<Component>,
    pub character_controller_3d: Option<Component>,
    pub actor: Option<Guid>,
    pub terrain: Option<TerrainV15>,
    pub pcg_volume: Option<Component>,
    pub skeletal_mesh: Option<Component>,
    pub anim_player: Option<Component>,
    pub anim_state_machine: Option<Component>,
    pub root_motion: Option<Component>,
    pub attached_to: Option<Component>,
    pub joint_2d: Option<Component>,
    pub joint_3d: Option<Component>,
    pub audio_source: Option<Component>,
    pub audio_listener: Option<Component>,
    pub decal: Option<Component>,
    pub volume: Option<Component>,
    pub spline: Option<Component>,
    pub foliage: Option<Foliage>,
    pub streaming_source: Option<StreamingSource>,
    pub always_loaded: Option<AlwaysLoaded>,
    pub time_of_day: Option<TimeOfDay>,
    pub sky_atmosphere: Option<SkyAtmosphere>,
}

impl View for EntityRecordV15 {
    type V = RecordModel;

    open spec fn view(&self) -> RecordModel {
        RecordModel {
            guid: self.guid,
            name: self.name@,
            parent: self.parent,
            transform: self.transform,
            visible: self.visible,
            parts: PartsModel {
                mesh: self.mesh,
                material: self.material,
                light: self.light,
                camera: blob(self.camera),
                sprite: blob(self.sprite),
                tilemap: tilemap_now(self.tilemap),
                nine_slice: blob(self.nine_slice),
                text2d: blob(self.text2d),
                light_2d: blob(self.light_2d),
                rigid_body_2d: blob(self.rigid_body_2d),
                collider_2d: blob(self.collider_2d),
                character_controller_2d: blob(self.character_controller_2d),
                rigid_body_3d: blob(self.rigid_body_3d),
                collider_3d: blob(self.collider_3d),
                character_controller_3d: blob(self.character_controller_3d),
                actor: self.actor,
                terrain: terrain_v15(self.terrain),
                pcg_volume: blob(self.pcg_volume),
                skeletal_mesh: blob(self.skeletal_mesh),
                anim_player: blob(self.anim_player),
                anim_state_machine: blob(self.anim_state_machine),
                root_motion: blob(self.root_motion),
                attached_to: blob(self.attached_to),
                joint_2d: blob(self.joint_2d),
                joint_3d: blob(self.joint_3d),
                audio_source: blob(self.audio_source),
                audio_listener: blob(self.audio_listener),
                decal: blob(self.decal),
                volume: blob(self.volume),
                spline: blob(self.spline),
                foliage: foliage_now(self.foliage),
                streaming_source: self.streaming_source,
                always_loaded: self.always_loaded,
                time_of_day: self.time_of_day,
                sky_atmosphere: sky_now(self.sky_atmosphere),
                ..PartsModel::bare()
            },
        }
    }
}

impl EntityRecordV15 {
    /// Lift to version 16: the entity means what it meant.
    pub fn into_v16(self) -> (r: EntityRecordV16)
        ensures
            r@ == self@,
    {
        EntityRecordV16 {
            guid: self.guid,
            name: self.name,
            parent: self.parent,
            transform: self.transform,
            visible: self.visible,
            mesh: self.mesh,
            material: self.material,
            light: self.light,
            camera: self.camera,
            sprite: self.sprite,
            tilemap: self.tilemap,
            nine_slice: self.nine_slice,
            text2d: self.text2d,
            light_2d: self.light_2d,
            rigid_body_2d: self.rigid_body_2d,
            collider_2d: self.collider_2d,
            character_controller_2d: self.character_controller_2d,
            rigid_body_3d: self.rigid_body_3d,
            collider_3d: self.collider_3d,
            character_controller_3d: self.character_controller_3d,
            actor: self.actor,
            terrain: match self.terrain {
                Some(c) => Some(c.into_current()),
                None => None,
            },
            pcg_volume: self.pcg_volume,
            skeletal_mesh: self.skeletal_mesh,
            anim_player: self.anim_player,
            anim_state_machine: self.anim_state_machine,
            root_motion: self.root_motion,
            attached_to: self.attached_to,
            joint_2d: self.joint_2d,
            joint_3d: self.joint_3d,
            audio_source: self.audio_source,
            audio_listener: self.audio_listener,
            decal: self.decal,
            volume: self.volume,
            spline: self.spline,
            foliage: self.foliage,
            streaming_source: self.streaming_source,
            always_loaded: self.always_loaded,
            time_of_day: self.time_of_day,
            sky_atmosphere: self.sky_atmosphere,
        }
    }

    /// Project today's record back onto this layout; what has no place in it is
    /// dropped.
    pub fn from_current(r: EntityRecord) -> (back: EntityRecordV15)
        ensures
            back@ == r@.as_of(15),
    {
        EntityRecordV15 {
            guid: r.guid,
            name: r.name,
            parent: r.parent,
            transform: r.transform,
            visible: r.visible,
            mesh: r.mesh,
            material: r.material,
            light: r.light,
            camera: r.camera,
            sprite: r.sprite,
            tilemap: r.tilemap,
            nine_slice: r.nine_slice,
            text2d: r.text2d,
            light_2d: r.light_2d,
            rigid_body_2d: r.rigid_body_2d,
            collider_2d: r.collider_2d,
            character_controller_2d: r.character_controller_2d,
            rigid_body_3d: r.rigid_body_3d,
            collider_3d: r.collider_3d,
            character_controller_3d: r.character_controller_3d,
            actor: r.actor,
            terrain: match r.terrain {
                Some(c) => Some(TerrainV15::from_current(c)),
                None => None,
            },
            pcg_volume: r.pcg_volume,
            skeletal_mesh: r.skeletal_mesh,
            anim_player: r.anim_player,
            anim_state_machine: r.anim_state_machine,
            root_motion: r.root_motion,
            attached_to: r.attached_to,
            joint_2d: r.joint_2d,
            joint_3d: r.joint_3d,
            audio_source: r.audio_source,
            audio_listener: r.audio_listener,
            decal: r.decal,
            volume: r.volume,
            spline: r.spline,
            foliage: r.foliage,
            streaming_source: r.streaming_source,
            always_loaded: r.always_loaded,
            time_of_day: r.time_of_day,
            sky_atmosphere: r.sky_atmosphere,
        }
    }
}

/// An entity in version 16 of the file.
#[derive(Debug, PartialEq)]
pub struct EntityRecordV16 {
    pub guid: Guid,
    pub name: String,
    pub parent: Option<Guid>,
    pub transform: Transform,
    pub visible: bool,
    pub mesh: Option<MeshRef>,
    pub material: Option<Material>,
    pub light: Option<Light>,
    pub camera: Option<Component>,
    pub sprite: Option<Component>,
    pub tilemap: Option<Tilemap>,
    pub nine_slice: Option<Component>,
    pub text2d: Option<Component>,
    pub light_2d: Option<Component>,
    pub rigid_body_2d: Option<Component>,
    pub collider_2d: Option<Component>,
    pub character_controller_2d: Option<Component>,
    pub rigid_body_3d: Option<Component>,
    pub collider_3d: Option<Component>,
    pub character_controller_3d: Option<Component>,
    pub actor: Option<Guid>,
    pub terrain: Option<Terrain>,
    pub pcg_volume: Option<Component>,
    pub skeletal_mesh: Option<Component>,
    pub anim_player: Option<Component>,
    pub anim_state_machine: Option<Component>,
    pub root_motion: Option<Component>,
    pub attached_to: Option<Component>,
    pub joint_2d: Option<Component>,
    pub joint_3d: Option<Component>,
    pub audio_source: Option<Component>,
    pub audio_listener: Option<Component>,
    pub decal: Option<Component>,
    pub volume: Option<Component>,
    pub spline: Option<Component>,
    pub foliage: Option<Foliage>,
    pub streaming_source: Option<StreamingSource>,
    pub always_loaded: Option<AlwaysLoaded>,
    pub time_of_day: Option<TimeOfDay>,
    pub sky_atmosphere: Option<SkyAtmosphere>,
}

impl View for EntityRecordV16 {
    type V = RecordModel;

    open spec fn view(&self) -> RecordModel {
        RecordModel {
            guid: self.guid,
            name: self.name@,
            parent: self.parent,
            transform: self.transform,
            visible: self.visible,
            parts: PartsModel {
                mesh: self.mesh,
                material: self.material,
                light: self.light,
                camera: blob(self.camera),
                sprite: blob(self.sprite),
                tilemap: tilemap_now(self.tilemap),
                nine_slice: blob(self.nine_slice),
                text2d: blob(self.text2d),
                light_2d: blob(self.light_2d),
                rigid_body_2d: blob(self.rigid_body_2d),
                collider_2d: blob(self.collider_2d),
                character_controller_2d: blob(self.character_controller_2d),
                rigid_body_3d: blob(self.rigid_body_3d),
                collider_3d: blob(self.collider_3d),
                character_controller_3d: blob(self.character_controller_3d),
                actor: self.actor,
                terrain: terrain_now(self.terrain),
                pcg_volume: blob(self.pcg_volume),
                skeletal_mesh: blob(self.skeletal_mesh),
                anim_player: blob(self.anim_player),
                anim_state_machine: blob(self.anim_state_machine),
                root_motion: blob(self.root_motion),
                attached_to: blob(self.attached_to),
                joint_2d: blob(self.joint_2d),
                joint_3d: blob(self.joint_3d),
                audio_source: blob(self.audio_source),
                audio_listener: blob(self.audio_listener),
                decal: blob(self.decal),
                volume: blob(self.volume),
                spline: blob(self.spline),
                foliage: foliage_now(self.foliage),
                streaming_source: self.streaming_source,
                always_loaded: self.always_loaded,
                time_of_day: self.time_of_day,
                sky_atmosphere: sky_now(self.sky_atmosphere),
                ..PartsModel::bare()
            },
        }
    }
}

impl EntityRecordV16 {
    /// Lift to version 17: the entity means what it meant.
    pub fn into_v17(self) -> (r: EntityRecordV17)
        ensures
            r@ == self@,
    {
        EntityRecordV17 {
            guid: self.guid,
            name: self.name,
            parent: self.parent,
            transform: self.transform,
            visible: self.visible,
            mesh: self.mesh,
            material: self.material,
            light: self.light,
            camera: self.camera,
            sprite: self.sprite,
            tilemap: self.tilemap,
            nine_slice: self.nine_slice,
            text2d: self.text2d,
            light_2d: self.light_2d,
            rigid_body_2d: self.rigid_body_2d,
            collider_2d: self.collider_2d,
            character_controller_2d: self.character_controller_2d,
            rigid_body_3d: self.rigid_body_3d,
            collider_3d: self.collider_3d,
            character_controller_3d: self.character_controller_3d,
            actor: self.actor,
            terrain: self.terrain,
            pcg_volume: self.pcg_volume,
            skeletal_mesh: self.skeletal_mesh,
            anim_player: self.anim_player,
            anim_state_machine: self.anim_state_machine,
            root_motion: self.root_motion,
            attached_to: self.attached_to,
            joint_2d: self.joint_2d,
            joint_3d: self.joint_3d,
            audio_source: self.audio_source,
            audio_listener: self.audio_listener,
            decal: self.decal,
            volume: self.volume,
            spline: self.spline,
            foliage: self.foliage,
            streaming_source: self.streaming_source,
            always_loaded: self.always_loaded,
            time_of_day: self.time_of_day,
            sky_atmosphere: self.sky_atmosphere,
            water_body: None,
        }
    }

    /// Project today's record back onto this layout; what has no place in it is
    /// dropped.
    pub fn from_current(r: EntityRecord) -> (back: EntityRecordV16)
        ensures
            back@ == r@.as_of(16),
    {
        EntityRecordV16 {
            guid: r.guid,
            name: r.name,
            parent: r.parent,
            transform: r.transform,
            visible: r.visible,
            mesh: r.mesh,
            material: r.material,
            light: r.light,
            camera: r.camera,
            sprite: r.sprite,
            tilemap: r.tilemap,
            nine_slice: r.nine_slice,
            text2d: r.text2d,
            light_2d: r.light_2d,
            rigid_body_2d: r.rigid_body_2d,
            collider_2d: r.collider_2d,
            character_controller_2d: r.character_controller_2d,
            rigid_body_3d: r.rigid_body_3d,
            collider_3d: r.collider_3d,
            character_controller_3d: r.character_controller_3d,
            actor: r.actor,
            terrain: r.terrain,
            pcg_volume: r.pcg_volume,
            skeletal_mesh: r.skeletal_mesh,
            anim_player: r.anim_player,
            anim_state_machine: r.anim_state_machine,
            root_motion: r.root_motion,
            attached_to: r.attached_to,
            joint_2d: r.joint_2d,
            joint_3d: r.joint_3d,
            audio_source: r.audio_source,
            audio_listener: r.audio_listener,
            decal: r.decal,
            volume: r.volume,
            spline: r.spline,
            foliage: r.foliage,
            streaming_source: r.streaming_source,
            always_loaded: r.always_loaded,
            time_of_day: r.time_of_day,
            sky_atmosphere: r.sky_atmosphere,
        }
    }
}

/// An entity in version 17 of the file.
#[derive(Debug, PartialEq)]
pub struct EntityRecordV17 {
    pub guid: Guid,
    pub name: String,
    pub parent: Option<Guid>,
    pub transform: Transform,
    pub visible: bool,
    pub mesh: Option<MeshRef>,
    pub material: Option<Material>,
    pub light: Option<Light>,
    pub camera: Option<Component>,
    pub sprite: Option<Component>,
    pub tilemap: Option<Tilemap>,
    pub nine_slice: Option<Component>,
    pub text2d: Option<Component>,
    pub light_2d: Option<Component>,
    pub rigid_body_2d: Option<Component>,
    pub collider_2d: Option<Component>,
    pub character_controller_2d: Option<Component>,
    pub rigid_body_3d: Option<Component>,
    pub collider_3d: Option<Component>,
    pub character_controller_3d: Option<Component>,
    pub actor: Option<Guid>,
    pub terrain: Option<Terrain>,
    pub pcg_volume: Option<Component>,
    pub skeletal_mesh: Option<Component>,
    pub anim_player: Option<Component>,
    pub anim_state_machine: Option<Component>,
    pub root_motion: Option<Component>,
    pub attached_to: Option<Component>,
    pub joint_2d: Option<Component>,
    pub joint_3d: Option<Component>,
    pub audio_source: Option<Component>,
    pub audio_listener: Option<Component>,
    pub decal: Option<Component>,
    pub volume: Option<Component>,
    pub spline: Option<Component>,
    pub foliage: Option<Foliage>,
    pub streaming_source: Option<StreamingSource>,
    pub always_loaded: Option<AlwaysLoaded>,
    pub time_of_day: Option<TimeOfDay>,
    pub sky_atmosphere: Option<SkyAtmosphere>,
    pub water_body: Option<Component>,
}

impl View for EntityRecordV17 {
    type V = RecordModel;

    open spec fn view(&self) -> RecordModel {
        RecordModel {
            guid: self.guid,
            name: self.name@,
            parent: self.parent,
            transform: self.transform,
            visible: self.visible,
            parts: PartsModel {
                mesh: self.mesh,
                material: self.material,
                light: self.light,
                camera: blob(self.camera),
                sprite: blob(self.sprite),
                tilemap: tilemap_now(self.tilemap),
                nine_slice: blob(self.nine_slice),
                text2d: blob(self.text2d),
                light_2d: blob(self.light_2d),
                rigid_body_2d: blob(self.rigid_body_2d),
                collider_2d: blob(self.collider_2d),
                character_controller_2d: blob(self.character_controller_2d),
                rigid_body_3d: blob(self.rigid_body_3d),
                collider_3d: blob(self.collider_3d),
                character_controller_3d: blob(self.character_controller_3d),
                actor: self.actor,
                terrain: terrain_now(self.terrain),
                pcg_volume: blob(self.pcg_volume),
                skeletal_mesh: blob(self.skeletal_mesh),
                anim_player: blob(self.anim_player),
                anim_state_machine: blob(self.anim_state_machine),
                root_motion: blob(self.root_motion),
                attached_to: blob(self.attached_to),
                joint_2d: blob(self.joint_2d),
                joint_3d: blob(self.joint_3d),
                audio_source: blob(self.audio_source),
                audio_listener: blob(self.audio_listener),
                decal: blob(self.decal),
                volume: blob(self.volume),
                spline: blob(self.spline),
                foliage: foliage_now(self.foliage),
                streaming_source: self.streaming_source,
                always_loaded: self.always_loaded,
                time_of_day: self.time_of_day,
                sky_atmosphere: sky_now(self.sky_atmosphere),
                water_body: blob(self.water_body),
                ..PartsModel::bare()
            },
        }
    }
}

impl EntityRecordV17 {
    /// Lift to version 18: the entity means what it meant.
    pub fn into_v18(self) -> (r: EntityRecordV18)
        ensures
            r@ == self@,
    {
        EntityRecordV18 {
            guid: self.guid,
            name: self.name,
            parent: self.parent,
            transform: self.transform,
            visible: self.visible,
            mesh: self.mesh,
            material: self.material,
            light: self.light,
            camera: self.camera,
            sprite: self.sprite,
            tilemap: self.tilemap,
            nine_slice: self.nine_slice,
            text2d: self.text2d,
            light_2d: self.light_2d,
            rigid_body_2d: self.rigid_body_2d,
            collider_2d: self.collider_2d,
            character_controller_2d: self.character_controller_2d,
            rigid_body_3d: self.rigid_body_3d,
            collider_3d: self.collider_3d,
            character_controller_3d: self.character_controller_3d,
            actor: self.actor,
            terrain: self.terrain,
            pcg_volume: self.pcg_volume,
            skeletal_mesh: self.skeletal_mesh,
            anim_player: self.anim_player,
            anim_state_machine: self.anim_state_machine,
            root_motion: self.root_motion,
            attached_to: self.attached_to,
            joint_2d: self.joint_2d,
            joint_3d: self.joint_3d,
            audio_source: self.audio_source,
            audio_listener: self.audio_listener,
            decal: self.decal,
            volume: self.volume,
            spline: self.spline,
            foliage: self.foliage,
            streaming_source: self.streaming_source,
            always_loaded: self.always_loaded,
            time_of_day: self.time_of_day,
            sky_atmosphere: self.sky_atmosphere,
            water_body: self.water_body,
            buoyancy: None,
        }
    }

    /// Project today's record back onto this layout; what has no place in it is
    /// dropped.
    pub fn from_current(r: EntityRecord) -> (back: EntityRecordV17)
        ensures
            back@ == r@.as_of(17),
    {
        EntityRecordV17 {
            guid: r.guid,
            name: r.name,
            parent: r.parent,
            transform: r.transform,
            visible: r.visible,
            mesh: r.mesh,
            material: r.material,
            light: r.light,
            camera: r.camera,
            sprite: r.sprite,
            tilemap: r.tilemap,
            nine_slice: r.nine_slice,
            text2d: r.text2d,
            light_2d: r.light_2d,
            rigid_body_2d: r.rigid_body_2d,
            collider_2d: r.collider_2d,
            character_controller_2d: r.character_controller_2d,
            rigid_body_3d: r.rigid_body_3d,
            collider_3d: r.collider_3d,
            character_controller_3d: r.character_controller_3d,
            actor: r.actor,
            terrain: r.terrain,
            pcg_volume: r.pcg_volume,
            skeletal_mesh: r.skeletal_mesh,
            anim_player: r.anim_player,
            anim_state_machine: r.anim_state_machine,
            root_motion: r.root_motion,
            attached_to: r.attached_to,
            joint_2d: r.joint_2d,
            joint_3d: r.joint_3d,
            audio_source: r.audio_source,
            audio_listener: r.audio_listener,
            decal: r.decal,
            volume: r.volume,
            spline: r.spline,
            foliage: r.foliage,
            streaming_source: r.streaming_source,
            always_loaded: r.always_loaded,
            time_of_day: r.time_of_day,
            sky_atmosphere: r.sky_atmosphere,
            water_body: r.water_body,
        }
    }
}

/// An entity in version 18 of the file.
#[derive(Debug, PartialEq)]
pub struct EntityRecordV18 {
    pub guid: Guid,
    pub name: String,
    pub parent: Option<Guid>,
    pub transform: Transform,
    pub visible: bool,
    pub mesh: Option<MeshRef>,
    pub material: Option<Material>,
    pub light: Option<Light>,
    pub camera: Option<Component>,
    pub sprite: Option<Component>,
    pub tilemap: Option<Tilemap>,
    pub nine_slice: Option<Component>,
    pub text2d: Option<Component>,
    pub light_2d: Option<Component>,
    pub rigid_body_2d: Option<Component>,
    pub collider_2d: Option<Component>,
    pub character_controller_2d: Option<Component>,
    pub rigid_body_3d: Option<Component>,
    pub collider_3d: Option<Component>,
    pub character_controller_3d: Option<Component>,
    pub actor: Option<Guid>,
    pub terrain: Option<Terrain>,
    pub pcg_volume: Option<Component>,
    pub skeletal_mesh: Option<Component>,
    pub anim_player: Option<Component>,
    pub anim_state_machine: Option<Component>,
    pub root_motion: Option<Component>,
    pub attached_to: Option<Component>,
    pub joint_2d: Option<Component>,
    pub joint_3d: Option<Component>,
    pub audio_source: Option<Component>,
    pub audio_listener: Option<Component>,
    pub decal: Option<Component>,
    pub volume: Option<Component>,
    pub spline: Option<Component>,
    pub foliage: Option<Foliage>,
    pub streaming_source: Option<StreamingSource>,
    pub always_loaded: Option<AlwaysLoaded>,
    pub time_of_day: Option<TimeOfDay>,
    pub sky_atmosphere: Option<SkyAtmosphere>,
    pub water_body: Option<Component>,
    pub buoyancy: Option<Component>,
}

impl View for EntityRecordV18 {
    type V = RecordModel;

    open spec fn view(&self) -> RecordModel {
        RecordModel {
            guid: self.guid,
            name: self.name@,
            parent: self.parent,
            transform: self.transform,
            visible: self.visible,
            parts: PartsModel {
                mesh: self.mesh,
                material: self.material,
                light: self.light,
                camera: blob(self.camera),
                sprite: blob(self.sprite),
                tilemap: tilemap_now(self.tilemap),
                nine_slice: blob(self.nine_slice),
                text2d: blob(self.text2d),
                light_2d: blob(self.light_2d),
                rigid_body_2d: blob(self.rigid_body_2d),
                collider_2d: blob(self.collider_2d),
                character_controller_2d: blob(self.character_controller_2d),
                rigid_body_3d: blob(self.rigid_body_3d),
                collider_3d: blob(self.collider_3d),
                character_controller_3d: blob(self.character_controller_3d),
                actor: self.actor,
                terrain: terrain_now(self.terrain),
                pcg_volume: blob(self.pcg_volume),
                skeletal_mesh: blob(self.skeletal_mesh),
                anim_player: blob(self.anim_player),
                anim_state_machine: blob(self.anim_state_machine),
                root_motion: blob(self.root_motion),
                attached_to: blob(self.attached_to),
                joint_2d: blob(self.joint_2d),
                joint_3d: blob(self.joint_3d),
                audio_source: blob(self.audio_source),
                audio_listener: blob(self.audio_listener),
                decal: blob(self.decal),
                volume: blob(self.volume),
                spline: blob(self.spline),
                foliage: foliage_now(self.foliage),
                streaming_source: self.streaming_source,
                always_loaded: self.always_loaded,
                time_of_day: self.time_of_day,
                sky_atmosphere: sky_now(self.sky_atmosphere),
                water_body: blob(self.water_body),
                buoyancy: blob(self.buoyancy),
                ..PartsModel::bare()
            },
        }
    }
}

impl EntityRecordV18 {
    /// Lift to today's record: the entity means what it meant.
    pub fn into_current(self) -> (r: EntityRecord)
        ensures
            r@ == self@,
    {
        EntityRecord {
            guid: self.guid,
            name: self.name,
            parent: self.parent,
            transform: self.transform,
            visible: self.visible,
            mesh: self.mesh,
            material: self.material,
            light: self.light,
            camera: self.camera,
            sprite: self.sprite,
            tilemap: self.tilemap,
            nine_slice: self.nine_slice,
            text2d: self.text2d,
            light_2d: self.light_2d,
            rigid_body_2d: self.rigid_body_2d,
            collider_2d: self.collider_2d,
            character_controller_2d: self.character_controller_2d,
            rigid_body_3d: self.rigid_body_3d,
            collider_3d: self.collider_3d,
            character_controller_3d: self.character_controller_3d,
            actor: self.actor,
            terrain: self.terrain,
            pcg_volume: self.pcg_volume,
            skeletal_mesh: self.skeletal_mesh,
            anim_player: self.anim_player,
            anim_state_machine: self.anim_state_machine,
            root_motion: self.root_motion,
            attached_to: self.attached_to,
            joint_2d: self.joint_2d,
            joint_3d: self.joint_3d,
            audio_source: self.audio_source,
            audio_listener: self.audio_listener,
            decal: self.decal,
            volume: self.volume,
            spline: self.spline,
            foliage: self.foliage,
            streaming_source: self.streaming_source,
            always_loaded: self.always_loaded,
            time_of_day: self.time_of_day,
            sky_atmosphere: self.sky_atmosphere,
            water_body: self.water_body,
            buoyancy: self.buoyancy,
            voxel_volume: None,
        }
    }

    /// Project today's record back onto this layout; what has no place in it is
    /// dropped.
    pub fn from_current(r: EntityRecord) -> (back: EntityRecordV18)
        ensures
            back@ == r@.as_of(18),
    {
        EntityRecordV18 {
            guid: r.guid,
            name: r.name,
            parent: r.parent,
            transform: r.transform,
            visible: r.visible,
            mesh: r.mesh,
            material: r.material,
            light: r.light,
            camera: r.camera,
            sprite: r.sprite,
            tilemap: r.tilemap,
            nine_slice: r.nine_slice,
            text2d: r.text2d,
            light_2d: r.light_2d,
            rigid_body_2d: r.rigid_body_2d,
            collider_2d: r.collider_2d,
            character_controller_2d: r.character_controller_2d,
            rigid_body_3d: r.rigid_body_3d,
            collider_3d: r.collider_3d,
            character_controller_3d: r.character_controller_3d,
            actor: r.actor,
            terrain: r.terrain,
            pcg_volume: r.pcg_volume,
            skeletal_mesh: r.skeletal_mesh,
            anim_player: r.anim_player,
            anim_state_machine: r.anim_state_machine,
            root_motion: r.root_motion,
            attached_to: r.attached_to,
            joint_2d: r.joint_2d,
            joint_3d: r.joint_3d,
            audio_source: r.audio_source,
            audio_listener: r.audio_listener,
            decal: r.decal,
            volume: r.volume,
            spline: r.spline,
            foliage: r.foliage,
            streaming_source: r.streaming_source,
            always_loaded: r.always_loaded,
            time_of_day: r.time_of_day,
            sky_atmosphere: r.sky_atmosphere,
            water_body: r.water_body,
            buoyancy: r.buoyancy,
        }
    }
}

} // verus!
