//! The entity records of versions 1 to 9 of the file, and their lifts.
//!
//! Each layout is frozen: it reads the files of its version forever. Its view
//! is what the record means today, and a lift by one version keeps it.

use crate::guid::Guid;
use crate::scene::component::{
    blob, Component, Light, LightV7, Material, MaterialV7, MeshRef, MeshRefV6, Transform,
};
use crate::scene::foliage::{foliage_now, Foliage};
use crate::scene::ladder_late::EntityRecordV10;
use crate::scene::record::{light_v7, material_v7, mesh_v6, PartsModel, RecordModel};
use crate::scene::terrain::{terrain_v14, terrain_v8, TerrainV14, TerrainV8};
use crate::scene::tilemap::{tilemap_now, Tilemap};
use vstd::prelude::*;

verus! {

/// An entity in version 1 of the file.
#[derive(Debug, PartialEq)]
pub struct EntityRecordV1 {
    pub guid: Guid,
    pub name: String,
    pub parent: Option<Guid>,
    pub transform: Transform,
    pub visible: bool,
    pub mesh: Option<MeshRefV6>,
    pub material: Option<MaterialV7>,
    pub light: Option<LightV7>,
    pub camera: Option<Component>,
}

impl View for EntityRecordV1 {
    type V = RecordModel;

    open spec fn view(&self) -> RecordModel {
        RecordModel {
            guid: self.guid,
            name: self.name@,
            parent: self.parent,
            transform: self.transform,
            visible: self.visible,
            parts: PartsModel {
                mesh: mesh_v6(self.mesh),
                material: material_v7(self.material),
                light: light_v7(self.light),
                camera: blob(self.camera),
                ..PartsModel::bare()
            },
        }
    }
}

impl EntityRecordV1 {
    /// Lift to version 2: the entity means what it meant.
    pub fn into_v2(self) -> (r: EntityRecordV2)
        ensures
            r@ == self@,
    {
        EntityRecordV2 {
            guid: self.guid,
            name: self.name,
            parent: self.parent,
            transform: self.transform,
            visible: self.visible,
            mesh: self.mesh,
            material: self.material,
            light: self.light,
            camera: self.camera,
            sprite: None,
            tilemap: None,
            nine_slice: None,
            text2d: None,
            light_2d: None,
        }
    }
}

/// An entity in version 2 of the file.
#[derive(Debug, PartialEq)]
pub struct EntityRecordV2 {
    pub guid: Guid,
    pub name: String,
    pub parent: Option<Guid>,
    pub transform: Transform,
    pub visible: bool,
    pub mesh: Option<MeshRefV6>,
    pub material: Option<MaterialV7>,
    pub light: Option<LightV7>,
    pub camera: Option<Component>,
    pub sprite: Option<Component>,
    pub tilemap: Option<Tilemap>,
    pub nine_slice: Option<Component>,
    pub text2d: Option<Component>,
    pub light_2d: Option<Component>,
}

impl View for EntityRecordV2 {
    type V = RecordModel;

    open spec fn view(&self) -> RecordModel {
        RecordModel {
            guid: self.guid,
            name: self.name@,
            parent: self.parent,
            transform: self.transform,
            visible: self.visible,
            parts: PartsModel {
                mesh: mesh_v6(self.mesh),
                material: material_v7(self.material),
                light: light_v7(self.light),
                camera: blob(self.camera),
                sprite: blob(self.sprite),
                tilemap: tilemap_now(self.tilemap),
                nine_slice: blob(self.nine_slice),
                text2d: blob(self.text2d),
                light_2d: blob(self.light_2d),
                ..PartsModel::bare()
            },
        }
    }
}

impl EntityRecordV2 {
    /// Lift to version 3: the entity means what it meant.
    pub fn into_v3(self) -> (r: EntityRecordV3)
        ensures
            r@ == self@,
    {
        EntityRecordV3 {
            guid: self.guid,
            name: self.name,
            parent: self.parent,
            transform: self.transform,
            visible: self.visible,
            mesh: self.mesh,
            material: self.material,
            light: self.light,
            camera: self.camera,
            sprite: self.sprite,
            tilemap: self.tilemap,
            nine_slice: self.nine_slice,
            text2d: self.text2d,
            light_2d: self.light_2d,
            rigid_body_2d: None,
            collider_2d: None,
            character_controller_2d: None,
            rigid_body_3d: None,
            collider_3d: None,
            character_controller_3d: None,
            actor: None,
        }
    }
}

/// An entity in version 3 of the file.
#[derive(Debug, PartialEq)]
pub struct EntityRecordV3 {
    pub guid: Guid,
    pub name: String,
    pub parent: Option<Guid>,
    pub transform: Transform,
    pub visible: bool,
    pub mesh: Option<MeshRefV6>,
    pub material: Option<MaterialV7>,
    pub light: Option<LightV7>,
    pub camera: Option<Component>,
    pub sprite: Option<Component>,
    pub tilemap: Option<Tilemap>,
    pub nine_slice: Option<Component>,
    pub text2d: Option<Component>,
    pub light_2d: Option<Component>,
    pub rigid_body_2d: Option<Component>,
    pub collider_2d: Option<Component>,
    pub character_controller_2d: Option<Component>,
    pub rigid_body_3d: Option<Component>,
    pub collider_3d: Option<Component>,
    pub character_controller_3d: Option<Component>,
    pub actor: Option<Guid>,
}

impl View for EntityRecordV3 {
    type V = RecordModel;

    open spec fn view(&self) -> RecordModel {
        RecordModel {
            guid: self.guid,
            name: self.name@,
            parent: self.parent,
            transform: self.transform,
            visible: self.visible,
            parts: PartsModel {
                mesh: mesh_v6(self.mesh),
                material: material_v7(self.material),
                light: light_v7(self.light),
                camera: blob(self.camera),
                sprite: blob(self.sprite),
                tilemap: tilemap_now(self.tilemap),
                nine_slice: blob(self.nine_slice),
                text2d: blob(self.text2d),
                light_2d: blob(self.light_2d),
                rigid_body_2d: blob(self.rigid_body_2d),
                collider_2d: blob(self.collider_2d),
                character_controller_2d: blob(self.character_controller_2d),
                rigid_body_3d: blob(self.rigid_body_3d),
                collider_3d: blob(self.collider_3d),
                character_controller_3d: blob(self.character_controller_3d),
                actor: self.actor,
                ..PartsModel::bare()
            },
        }
    }
}

impl EntityRecordV3 {
    /// Lift to version 4: the entity means what it meant.
    pub fn into_v4(self) -> (r: EntityRecordV4)
        ensures
            r@ == self@,
    {
        EntityRecordV4 {
            guid: self.guid,
            name: self.name,
            parent: self.parent,
            transform: self.transform,
            visible: self.visible,
            mesh: self.mesh,
            material: self.material,
            light: self.light,
            camera: self.camera,
            sprite: self.sprite,
            tilemap: self.tilemap,
            nine_slice: self.nine_slice,
            text2d: self.text2d,
            light_2d: self.light_2d,
            rigid_body_2d: self.rigid_body_2d,
            collider_2d: self.collider_2d,
            character_controller_2d: self.character_controller_2d,
            rigid_body_3d: self.rigid_body_3d,
            collider_3d: self.collider_3d,
            character_controller_3d: self.character_controller_3d,
            actor: self.actor,
            terrain: None,
            pcg_volume: None,
        }
    }
}

/// An entity in version 4 of the file.
#[derive(Debug, PartialEq)]
pub struct EntityRecordV4 {
    pub guid: Guid,
    pub name: String,
    pub parent: Option<Guid>,
    pub transform: Transform,
    pub visible: bool,
    pub mesh: Option<MeshRefV6>,
    pub material: Option<MaterialV7>,
    pub light: Option<LightV7>,
    pub camera: Option<Component>,
    pub sprite: Option<Component>,
    pub tilemap: Option<Tilemap>,
    pub nine_slice: Option<Component>,
    pub text2d: Option<Component>,
    pub light_2d: Option<Component>,
    pub rigid_body_2d: Option<Component>,
    pub collider_2d: Option<Component>,
    pub character_controller_2d: Option<Component>,
    pub rigid_body_3d: Option<Component>,
    pub collider_3d: Option<Component>,
    pub character_controller_3d: Option<Component>,
    pub actor: Option<Guid>,
    pub terrain: Option<TerrainV8>,
    pub pcg_volume: Option<Component>,
}

impl View for EntityRecordV4 {
    type V = RecordModel;

    open spec fn view(&self) -> RecordModel {
        RecordModel {
            guid: self.guid,
            name: self.name@,
            parent: self.parent,
            transform: self.transform,
            visible: self.visible,
            parts: PartsModel {
                mesh: mesh_v6(self.mesh),
                material: material_v7(self.material),
                light: light_v7(self.light),
                camera: blob(self.camera),
                sprite: blob(self.sprite),
                tilemap: tilemap_now(self.tilemap),
                nine_slice: blob(self.nine_slice),
                text2d: blob(self.text2d),
                light_2d: blob(self.light_2d),
                rigid_body_2d: blob(self.rigid_body_2d),
                collider_2d: blob(self.collider_2d),
                character_controller_2d: blob(self.character_controller_2d),
                rigid_body_3d: blob(self.rigid_body_3d),
                collider_3d: blob(self.collider_3d),
                character_controller_3d: blob(self.character_controller_3d),
                actor: self.actor,
                terrain: terrain_v8(self.terrain),
                pcg_volume: blob(self.pcg_volume),
                ..PartsModel::bare()
            },
        }
    }
}

impl EntityRecordV4 {
    /// Lift to version 5: the entity means what it meant.
    pub fn into_v5(self) -> (r: EntityRecordV5)
        ensures
            r@ == self@,
    {
        EntityRecordV5 {
            guid: self.guid,
            name: self.name,
            parent: self.parent,
            transform: self.transform,
            visible: self.visible,
            mesh: self.mesh,
            material: self.material,
            light: self.light,
            camera: self.camera,
            sprite: self.sprite,
            tilemap: self.tilemap,
            nine_slice: self.nine_slice,
            text2d: self.text2d,
            light_2d: self.light_2d,
            rigid_body_2d: self.rigid_body_2d,
            collider_2d: self.collider_2d,
            character_controller_2d: self.character_controller_2d,
            rigid_body_3d: self.rigid_body_3d,
            collider_3d: self.collider_3d,
            character_controller_3d: self.character_controller_3d,
            actor: self.actor,
            terrain: self.terrain,
            pcg_volume: self.pcg_volume,
            skeletal_mesh: None,
            anim_player: None,
            anim_state_machine: None,
            root_motion: None,
            attached_to: None,
        }
    }
}

/// An entity in version 5 of the file.
#[derive(Debug, PartialEq)]
pub struct EntityRecordV5 {
    pub guid: Guid,
    pub name: String,
    pub parent: Option<Guid>,
    pub transform: Transform,
    pub visible: bool,
    pub mesh: Option<MeshRefV6>,
    pub material: Option<MaterialV7>,
    pub light: Option<LightV7>,
    pub camera: Option<Component>,
    pub sprite: Option<Component>,
    pub tilemap: Option<Tilemap>,
    pub nine_slice: Option<Component>,
    pub text2d: Option<Component>,
    pub light_2d: Option<Component>,
    pub rigid_body_2d: Option<Component>,
    pub collider_2d: Option<Component>,
    pub character_controller_2d: Option<Component>,
    pub rigid_body_3d: Option<Component>,
    pub collider_3d: Option<Component>,
    pub character_controller_3d: Option<Component>,
    pub actor: Option<Guid>,
    pub terrain: Option<TerrainV8>,
    pub pcg_volume: Option<Component>,
    pub skeletal_mesh: Option<Component>,
    pub anim_player: Option<Component>,
    pub anim_state_machine: Option<Component>,
    pub root_motion: Option<Component>,
    pub attached_to: Option<Component>,
}

impl View for EntityRecordV5 {
    type V = RecordModel;

    open spec fn view(&self) -> RecordModel {
        RecordModel {
            guid: self.guid,
            name: self.name@,
            parent: self.parent,
            transform: self.transform,
            visible: self.visible,
            parts: PartsModel {
                mesh: mesh_v6(self.mesh),
                material: material_v7(self.material),
                light: light_v7(self.light),
                camera: blob(self.camera),
                sprite: blob(self.sprite),
                tilemap: tilemap_now(self.tilemap),
                nine_slice: blob(self.nine_slice),
                text2d: blob(self.text2d),
                light_2d: blob(self.light_2d),
                rigid_body_2d: blob(self.rigid_body_2d),
                collider_2d: blob(self.collider_2d),
                character_controller_2d: blob(self.character_controller_2d),
                rigid_body_3d: blob(self.rigid_body_3d),
                collider_3d: blob(self.collider_3d),
                character_controller_3d: blob(self.character_controller_3d),
                actor: self.actor,
                terrain: terrain_v8(self.terrain),
                pcg_volume: blob(self.pcg_volume),
                skeletal_mesh: blob(self.skeletal_mesh),
                anim_player: blob(self.anim_player),
                anim_state_machine: blob(self.anim_state_machine),
                root_motion: blob(self.root_motion),
                attached_to: blob(self.attached_to),
                ..PartsModel::bare()
            },
        }
    }
}

impl EntityRecordV5 {
    /// Lift to version 6: the entity means what it meant.
    pub fn into_v6(self) -> (r: EntityRecordV6)
        ensures
            r@ == self@,
    {
        EntityRecordV6 {
            guid: self.guid,
            name: self.name,
            parent: self.parent,
            transform: self.transform,
            visible: self.visible,
            mesh: self.mesh,
            material: self.material,
            light: self.light,
            camera: self.camera,
            sprite: self.sprite,
            tilemap: self.tilemap,
            nine_slice: self.nine_slice,
            text2d: self.text2d,
            light_2d: self.light_2d,
            rigid_body_2d: self.rigid_body_2d,
            collider_2d: self.collider_2d,
            character_controller_2d: self.character_controller_2d,
            rigid_body_3d: self.rigid_body_3d,
            collider_3d: self.collider_3d,
            character_controller_3d: self.character_controller_3d,
            actor: self.actor,
            terrain: self.terrain,
            pcg_volume: self.pcg_volume,
            skeletal_mesh: self.skeletal_mesh,
            anim_player: self.anim_player,
            anim_state_machine: self.anim_state_machine,
            root_motion: self.root_motion,
            attached_to: self.attached_to,
            joint_2d: None,
            joint_3d: None,
            audio_source: None,
            audio_listener: None,
        }
    }
}

/// An entity in version 6 of the file.
#[derive(Debug, PartialEq)]
pub struct EntityRecordV6 {
    pub guid: Guid,
    pub name: String,
    pub parent: Option<Guid>,
    pub transform: Transform,
    pub visible: bool,
    pub mesh: Option<MeshRefV6>,
    pub material: Option<MaterialV7>,
    pub light: Option<LightV7>,
    pub camera: Option<Component>,
    pub sprite: Option<Component>,
    pub tilemap: Option<Tilemap>,
    pub nine_slice: Option<Component>,
    pub text2d: Option<Component>,
    pub light_2d: Option<Component>,
    pub rigid_body_2d: Option<Component>,
    pub collider_2d: Option<Component>,
    pub character_controller_2d: Option<Component>,
    pub rigid_body_3d: Option<Component>,
    pub collider_3d: Option<Component>,
    pub character_controller_3d: Option<Component>,
    pub actor: Option<Guid>,
    pub terrain: Option<TerrainV8>,
    pub pcg_volume: Option<Component>,
    pub skeletal_mesh: Option<Component>,
    pub anim_player: Option<Component>,
    pub anim_state_machine: Option<Component>,
    pub root_motion: Option<Component>,
    pub attached_to: Option<Component>,
    pub joint_2d: Option<Component>,
    pub joint_3d: Option<Component>,
    pub audio_source: Option<Component>,
    pub audio_listener: Option<Component>,
}

impl View for EntityRecordV6 {
    type V = RecordModel;

    open spec fn view(&self) -> RecordModel {
        RecordModel {
            guid: self.guid,
            name: self.name@,
            parent: self.parent,
            transform: self.transform,
            visible: self.visible,
            parts: PartsModel {
                mesh: mesh_v6(self.mesh),
                material: material_v7(self.material),
                light: light_v7(self.light),
                camera: blob(self.camera),
                sprite: blob(self.sprite),
                tilemap: tilemap_now(self.tilemap),
                nine_slice: blob(self.nine_slice),
                text2d: blob(self.text2d),
                light_2d: blob(self.light_2d),
                rigid_body_2d: blob(self.rigid_body_2d),
                collider_2d: blob(self.collider_2d),
                character_controller_2d: blob(self.character_controller_2d),
                rigid_body_3d: blob(self.rigid_body_3d),
                collider_3d: blob(self.collider_3d),
                character_controller_3d: blob(self.character_controller_3d),
                actor: self.actor,
                terrain: terrain_v8(self.terrain),
                pcg_volume: blob(self.pcg_volume),
                skeletal_mesh: blob(self.skeletal_mesh),
                anim_player: blob(self.anim_player),
                anim_state_machine: blob(self.anim_state_machine),
                root_motion: blob(self.root_motion),
                attached_to: blob(self.attached_to),
                joint_2d: blob(self.joint_2d),
                joint_3d: blob(self.joint_3d),
                audio_source: blob(self.audio_source),
                audio_listener: blob(self.audio_listener),
                ..PartsModel::bare()
            },
        }
    }
}

impl EntityRecordV6 {
    /// Lift to version 7: the entity means what it meant.
    pub fn into_v7(self) -> (r: EntityRecordV7)
        ensures
            r@ == self@,
    {
        EntityRecordV7 {
            guid: self.guid,
            name: self.name,
            parent: self.parent,
            transform: self.transform,
            visible: self.visible,
            mesh: match self.mesh {
                Some(c) => Some(c.into_current()),
                None => None,
            },
            material: self.material,
            light: self.light,
            camera: self.camera,
            sprite: self.sprite,
            tilemap: self.tilemap,
            nine_slice: self.nine_slice,
            text2d: self.text2d,
            light_2d: self.light_2d,
            rigid_body_2d: self.rigid_body_2d,
            collider_2d: self.collider_2d,
            character_controller_2d: self.character_controller_2d,
            rigid_body_3d: self.rigid_body_3d,
            collider_3d: self.collider_3d,
            character_controller_3d: self.character_controller_3d,
            actor: self.actor,
            terrain: self.terrain,
            pcg_volume: self.pcg_volume,
            skeletal_mesh: self.skeletal_mesh,
            anim_player: self.anim_player,
            anim_state_machine: self.anim_state_machine,
            root_motion: self.root_motion,
            attached_to: self.attached_to,
            joint_2d: self.joint_2d,
            joint_3d: self.joint_3d,
            audio_source: self.audio_source,
            audio_listener: self.audio_listener,
        }
    }
}

/// An entity in version 7 of the file.
#[derive(Debug, PartialEq)]
pub struct EntityRecordV7 {
    pub guid: Guid,
    pub name: String,
    pub parent: Option<Guid>,
    pub transform: Transform,
    pub visible: bool,
    pub mesh: Option<MeshRef>,
    pub material: Option<MaterialV7>,
    pub light: Option<LightV7>,
    pub camera: Option<Component>,
    pub sprite: Option<Component>,
    pub tilemap: Option<Tilemap>,
    pub nine_slice: Option<Component>,
    pub text2d: Option<Component>,
    pub light_2d: Option<Component>,
    pub rigid_body_2d: Option<Component>,
    pub collider_2d: Option<Component>,
    pub character_controller_2d: Option<Component>,
    pub rigid_body_3d: Option<Component>,
    pub collider_3d: Option<Component>,
    pub character_controller_3d: Option<Component>,
    pub actor: Option<Guid>,
    pub terrain: Option<TerrainV8>,
    pub pcg_volume: Option<Component>,
    pub skeletal_mesh: Option<Component>,
    pub anim_player: Option<Component>,
    pub anim_state_machine: Option<Component>,
    pub root_motion: Option<Component>,
    pub attached_to: Option<Component>,
    pub joint_2d: Option<Component>,
    pub joint_3d: Option<Component>,
    pub audio_source: Option<Component>,
    pub audio_listener: Option<Component>,
}

impl View for EntityRecordV7 {
    type V = RecordModel;

    open spec fn view(&self) -> RecordModel {
        RecordModel {
            guid: self.guid,
            name: self.name@,
            parent: self.parent,
            transform: self.transform,
            visible: self.visible,
            parts: PartsModel {
                mesh: self.mesh,
                material: material_v7(self.material),
                light: light_v7(self.light),
                camera: blob(self.camera),
                sprite: blob(self.sprite),
                tilemap: tilemap_now(self.tilemap),
                nine_slice: blob(self.nine_slice),
                text2d: blob(self.text2d),
                light_2d: blob(self.light_2d),
                rigid_body_2d: blob(self.rigid_body_2d),
                collider_2d: blob(self.collider_2d),
                character_controller_2d: blob(self.character_controller_2d),
                rigid_body_3d: blob(self.rigid_body_3d),
                collider_3d: blob(self.collider_3d),
                character_controller_3d: blob(self.character_controller_3d),
                actor: self.actor,
                terrain: terrain_v8(self.terrain),
                pcg_volume: blob(self.pcg_volume),
                skeletal_mesh: blob(self.skeletal_mesh),
                anim_player: blob(self.anim_player),
                anim_state_machine: blob(self.anim_state_machine),
                root_motion: blob(self.root_motion),
                attached_to: blob(self.attached_to),
                joint_2d: blob(self.joint_2d),
                joint_3d: blob(self.joint_3d),
                audio_source: blob(self.audio_source),
                audio_listener: blob(self.audio_listener),
                ..PartsModel::bare()
            },
        }
    }
}

impl EntityRecordV7 {
    /// Lift to version 8: the entity means what it meant.
    pub fn into_v8(self) -> (r: EntityRecordV8)
        ensures
            r@ == self@,
    {
        EntityRecordV8 {
            guid: self.guid,
            name: self.name,
            parent: self.parent,
            transform: self.transform,
            visible: self.visible,
            mesh: self.mesh,
            material: match self.material {
                Some(c) => Some(c.into_current()),
                None => None,
            },
            light: match self.light {
                Some(c) => Some(c.into_current()),
                None => None,
            },
            camera: self.camera,
            sprite: self.sprite,
            tilemap: self.tilemap,
            nine_slice: self.nine_slice,
            text2d: self.text2d,
            light_2d: self.light_2d,
            rigid_body_2d: self.rigid_body_2d,
            collider_2d: self.collider_2d,
            character_controller_2d: self.character_controller_2d,
            rigid_body_3d: self.rigid_body_3d,
            collider_3d: self.collider_3d,
            character_controller_3d: self.character_controller_3d,
            actor: self.actor,
            terrain: self.terrain,
            pcg_volume: self.pcg_volume,
            skeletal_mesh: self.skeletal_mesh,
            anim_player: self.anim_player,
            anim_state_machine: self.anim_state_machine,
            root_motion: self.root_motion,
            attached_to: self.attached_to,
            joint_2d: self.joint_2d,
            joint_3d: self.joint_3d,
            audio_source: self.audio_source,
            audio_listener: self.audio_listener,
            decal: None,
            volume: None,
            spline: None,
            foliage: None,
        }
    }
}

/// An entity in version 8 of the file.
#[derive(Debug, PartialEq)]
pub struct EntityRecordV8 {
    pub guid: Guid,
    pub name: String,
    pub parent: Option<Guid>,
    pub transform: Transform,
    pub visible: bool,
    pub mesh: Option<MeshRef>,
    pub material: Option<Material>,
    pub light: Option<Light>,
    pub camera: Option<Component>,
    pub sprite: Option<Component>,
    pub tilemap: Option<Tilemap>,
    pub nine_slice: Option<Component>,
    pub text2d: Option<Component>,
    pub light_2d: Option<Component>,
    pub rigid_body_2d: Option<Component>,
    pub collider_2d: Option<Component>,
    pub character_controller_2d: Option<Component>,
    pub rigid_body_3d: Option<Component>,
    pub collider_3d: Option<Component>,
    pub character_controller_3d: Option<Component>,
    pub actor: Option<Guid>,
    pub terrain: Option<TerrainV8>,
    pub pcg_volume: Option<Component>,
    pub skeletal_mesh: Option<Component>,
    pub anim_player: Option<Component>,
    pub anim_state_machine: Option<Component>,
    pub root_motion: Option<Component>,
    pub attached_to: Option<Component>,
    pub joint_2d: Option<Component>,
    pub joint_3d: Option<Component>,
    pub audio_source: Option<Component>,
    pub audio_listener: Option<Component>,
    pub decal: Option<Component>,
    pub volume: Option<Component>,
    pub spline: Option<Component>,
    pub foliage: Option<Foliage>,
}

impl View for EntityRecordV8 {
    type V = RecordModel;

    open spec fn view(&self) -> RecordModel {
        RecordModel {
            guid: self.guid,
            name: self.name@,
            parent: self.parent,
            transform: self.transform,
            visible: self.visible,
            parts: PartsModel {
                mesh: self.mesh,
                material: self.material,
                light: self.light,
                camera: blob(self.camera),
                sprite: blob(self.sprite),
                tilemap: tilemap_now(self.tilemap),
                nine_slice: blob(self.nine_slice),
                text2d: blob(self.text2d),
                light_2d: blob(self.light_2d),
                rigid_body_2d: blob(self.rigid_body_2d),
                collider_2d: blob(self.collider_2d),
                character_controller_2d: blob(self.character_controller_2d),
                rigid_body_3d: blob(self.rigid_body_3d),
                collider_3d: blob(self.collider_3d),
                character_controller_3d: blob(self.character_controller_3d),
                actor: self.actor,
                terrain: terrain_v8(self.terrain),
                pcg_volume: blob(self.pcg_volume),
                skeletal_mesh: blob(self.skeletal_mesh),
                anim_player: blob(self.anim_player),
                anim_state_machine: blob(self.anim_state_machine),
                root_motion: blob(self.root_motion),
                attached_to: blob(self.attached_to),
                joint_2d: blob(self.joint_2d),
                joint_3d: blob(self.joint_3d),
                audio_source: blob(self.audio_source),
                audio_listener: blob(self.audio_listener),
                decal: blob(self.decal),
                volume: blob(self.volume),
                spline: blob(self.spline),
                foliage: foliage_now(self.foliage),
                ..PartsModel::bare()
            },
        }
    }
}

impl EntityRecordV8 {
    /// Lift to version 9: the entity means what it meant.
    pub fn into_v9(self) -> (r: EntityRecordV9)
        ensures
            r@ == self@,
    {
        EntityRecordV9 {
            guid: self.guid,
            name: self.name,
            parent: self.parent,
            transform: self.transform,
            visible: self.visible,
            mesh: self.mesh,
            material: self.material,
            light: self.light,
            camera: self.camera,
            sprite: self.sprite,
            tilemap: self.tilemap,
            nine_slice: self.nine_slice,
            text2d: self.text2d,
            light_2d: self.light_2d,
            rigid_body_2d: self.rigid_body_2d,
            collider_2d: self.collider_2d,
            character_controller_2d: self.character_controller_2d,
            rigid_body_3d: self.rigid_body_3d,
            collider_3d: self.collider_3d,
            character_controller_3d: self.character_controller_3d,
            actor: self.actor,
            terrain: match self.terrain {
                Some(c) => Some(c.into_v14()),
                None => None,
            },
            pcg_volume: self.pcg_volume,
            skeletal_mesh: self.skeletal_mesh,
            anim_player: self.anim_player,
            anim_state_machine: self.anim_state_machine,
            root_motion: self.root_motion,
            attached_to: self.attached_to,
            joint_2d: self.joint_2d,
            joint_3d: self.joint_3d,
            audio_source: self.audio_source,
            audio_listener: self.audio_listener,
            decal: self.decal,
            volume: self.volume,
            spline: self.spline,
            foliage: self.foliage,
        }
    }
}

/// An entity in version 9 of the file.
#[derive(Debug, PartialEq)]
pub struct EntityRecordV9 {
    pub guid: Guid,
    pub name: String,
    pub parent: Option<Guid>,
    pub transform: Transform,
    pub visible: bool,
    pub mesh: Option<MeshRef>,
    pub material: Option<Material>,
    pub light: Option<Light>,
    pub camera: Option<Component>,
    pub sprite: Option<Component>,
    pub tilemap: Option<Tilemap>,
    pub nine_slice: Option<Component>,
    pub text2d: Option<Component>,
    pub light_2d: Option<Component>,
    pub rigid_body_2d: Option<Component>,
    pub collider_2d: Option<Component>,
    pub character_controller_2d: Option<Component>,
    pub rigid_body_3d: Option<Component>,
    pub collider_3d: Option<Component>,
    pub character_controller_3d: Option<Component>,
    pub actor: Option<Guid>,
    pub terrain: Option<TerrainV14>,
    pub pcg_volume: Option<Component>,
    pub skeletal_mesh: Option<Component>,
    pub anim_player: Option<Component>,
    pub anim_state_machine: Option<Component>,
    pub root_motion: Option<Component>,
    pub attached_to: Option<Component>,
    pub joint_2d: Option<Component>,
    pub joint_3d: Option<Component>,
    pub audio_source: Option<Component>,
    pub audio_listener: Option<Component>,
    pub decal: Option<Component>,
    pub volume: Option<Component>,
    pub spline: Option<Component>,
    pub foliage: Option<Foliage>,
}

impl View for EntityRecordV9 {
    type V = RecordModel;

    open spec fn view(&self) -> RecordModel {
        RecordModel {
            guid: self.guid,
            name: self.name@,
            parent: self.parent,
            transform: self.transform,
            visible: self.visible,
            parts: PartsModel {
                mesh: self.mesh,
                material: self.material,
                light: self.light,
                camera: blob(self.camera),
                sprite: blob(self.sprite),
                tilemap: tilemap_now(self.tilemap),
                nine_slice: blob(self.nine_slice),
                text2d: blob(self.text2d),
                light_2d: blob(self.light_2d),
                rigid_body_2d: blob(self.rigid_body_2d),
                collider_2d: blob(self.collider_2d),
                character_controller_2d: blob(self.character_controller_2d),
                rigid_body_3d: blob(self.rigid_body_3d),
                collider_3d: blob(self.collider_3d),
                character_controller_3d: blob(self.character_controller_3d),
                actor: self.actor,
                terrain: terrain_v14(self.terrain),
                pcg_volume: blob(self.pcg_volume),
                skeletal_mesh: blob(self.skeletal_mesh),
                anim_player: blob(self.anim_player),
                anim_state_machine: blob(self.anim_state_machine),
                root_motion: blob(self.root_motion),
                attached_to: blob(self.attached_to),
                joint_2d: blob(self.joint_2d),
                joint_3d: blob(self.joint_3d),
                audio_source: blob(self.audio_source),
                audio_listener: blob(self.audio_listener),
                decal: blob(self.decal),
                volume: blob(self.volume),
                spline: blob(self.spline),
                foliage: foliage_now(self.foliage),
                ..PartsModel::bare()
            },
        }
    }
}

impl EntityRecordV9 {
    /// Lift to version 10: the entity means what it meant.
    pub fn into_v10(self) -> (r: EntityRecordV10)
        ensures
            r@ == self@,
    {
        EntityRecordV10 {
            guid: self.guid,
            name: self.name,
            parent: self.parent,
            transform: self.transform,
            visible: self.visible,
            mesh: self.mesh,
            material: self.material,
            light: self.light,
            camera: self.camera,
            sprite: self.sprite,
            tilemap: self.tilemap,
            nine_slice: self.nine_slice,
            text2d: self.text2d,
            light_2d: self.light_2d,
            rigid_body_2d: self.rigid_body_2d,
            collider_2d: self.collider_2d,
            character_controller_2d: self.character_controller_2d,
            rigid_body_3d: self.rigid_body_3d,
            collider_3d: self.collider_3d,
            character_controller_3d: self.character_controller_3d,
            actor: self.actor,
            terrain: self.terrain,
            pcg_volume: self.pcg_volume,
            skeletal_mesh: self.skeletal_mesh,
            anim_player: self.anim_player,
            anim_state_machine: self.anim_state_machine,
            root_motion: self.root_motion,
            attached_to: self.attached_to,
            joint_2d: self.joint_2d,
            joint_3d: self.joint_3d,
            audio_source: self.audio_source,
            audio_listener: self.audio_listener,
            decal: self.decal,
            volume: self.volume,
            spline: self.spline,
            foliage: self.foliage,
            streaming_source: None,
            always_loaded: None,
        }
    }
}

} // verus!
