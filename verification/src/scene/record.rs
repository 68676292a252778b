//! The record of one entity, as the newest version of the file holds it.

use crate::guid::Guid;
use crate::scene::component::{
    blob, clone_slot, AlwaysLoaded, Component, Light, LightV7, Material, MaterialV7, MeshRef,
    MeshRefV6, StreamingSource, TimeOfDay, Transform,
};
use crate::scene::foliage::{clone_foliage, foliage_now, Foliage, FoliageModel};
use crate::scene::sky::{sky_now, SkyAtmosphere, SkyModel, Weather};
use crate::scene::terrain::{terrain_now, Terrain, TerrainModel};
use crate::scene::tilemap::{tilemap_now, Tilemap, TilemapModel};
use vstd::prelude::*;

verus! {

/// The optional components of an entity.
pub struct PartsModel {
    pub mesh: Option<MeshRef>,
    pub material: Option<Material>,
    pub light: Option<Light>,
    pub camera: Option<Seq<u8>>,
    pub sprite: Option<Seq<u8>>,
    pub tilemap: Option<TilemapModel>,
    pub nine_slice: Option<Seq<u8>>,
    pub text2d: Option<Seq<u8>>,
    pub light_2d: Option<Seq<u8>>,
    pub rigid_body_2d: Option<Seq<u8>>,
    pub collider_2d: Option<Seq<u8>>,
    pub character_controller_2d: Option<Seq<u8>>,
    pub rigid_body_3d: Option<Seq<u8>>,
    pub collider_3d: Option<Seq<u8>>,
    pub character_controller_3d: Option<Seq<u8>>,
    pub actor: Option<Guid>,
    pub terrain: Option<TerrainModel>,
    pub pcg_volume: Option<Seq<u8>>,
    pub skeletal_mesh: Option<Seq<u8>>,
    pub anim_player: Option<Seq<u8>>,
    pub anim_state_machine: Option<Seq<u8>>,
    pub root_motion: Option<Seq<u8>>,
    pub attached_to: Option<Seq<u8>>,
    pub joint_2d: Option<Seq<u8>>,
    pub joint_3d: Option<Seq<u8>>,
    pub audio_source: Option<Seq<u8>>,
    pub audio_listener: Option<Seq<u8>>,
    pub decal: Option<Seq<u8>>,
    pub volume: Option<Seq<u8>>,
    pub spline: Option<Seq<u8>>,
    pub foliage: Option<FoliageModel>,
    pub streaming_source: Option<StreamingSource>,
    pub always_loaded: Option<AlwaysLoaded>,
    pub time_of_day: Option<TimeOfDay>,
    pub sky_atmosphere: Option<SkyModel>,
    pub water_body: Option<Seq<u8>>,
    pub buoyancy: Option<Seq<u8>>,
    pub voxel_volume: Option<Seq<u8>>,
}

/// What a record of any version says of its entity.
pub struct RecordModel {
    pub guid: Guid,
    pub name: Seq<char>,
    pub parent: Option<Guid>,
    pub transform: Transform,
    pub visible: bool,
    pub parts: PartsModel,
}

/// The meaning of a filled mesh, material or light slot of the early versions.
pub open spec fn mesh_v6(m: Option<MeshRefV6>) -> Option<MeshRef> {
    match m {
        Some(m) => Some(m.lifted()),
        None => None,
    }
}

pub open spec fn material_v7(m: Option<MaterialV7>) -> Option<Material> {
    match m {
        Some(m) => Some(m.lifted()),
        None => None,
    }
}

pub open spec fn light_v7(l: Option<LightV7>) -> Option<Light> {
    match l {
        Some(l) => Some(l.lifted()),
        None => None,
    }
}

impl PartsModel {
    /// No component at all.
    pub open spec fn bare() -> PartsModel {
        PartsModel {
            mesh: None,
            material: None,
            light: None,
            camera: None,
            sprite: None,
            tilemap: None,
            nine_slice: None,
            text2d: None,
            light_2d: None,
            rigid_body_2d: None,
            collider_2d: None,
            character_controller_2d: None,
            rigid_body_3d: None,
            collider_3d: None,
            character_controller_3d: None,
            actor: None,
            terrain: None,
            pcg_volume: None,
            skeletal_mesh: None,
            anim_player: None,
            anim_state_machine: None,
            root_motion: None,
            attached_to: None,
            joint_2d: None,
            joint_3d: None,
            audio_source: None,
            audio_listener: None,
            decal: None,
            volume: None,
            spline: None,
            foliage: None,
            streaming_source: None,
            always_loaded: None,
            time_of_day: None,
            sky_atmosphere: None,
            water_body: None,
            buoyancy: None,
            voxel_volume: None,
        }
    }

    /// The components with the weather filled in where the version knew none.
    pub open spec fn with_weather(self, w: Weather) -> PartsModel {
        PartsModel {
            sky_atmosphere: match self.sky_atmosphere {
                Some(s) => Some(s.with_weather(w)),
                None => None,
            },
            ..self
        }
    }

    /// What version 18 of the file could hold of them; no voxel volume.
    pub open spec fn as_of_v18(self) -> PartsModel {
        PartsModel { voxel_volume: None, ..self }
    }

    /// Version 17: no buoyancy either.
    pub open spec fn as_of_v17(self) -> PartsModel {
        PartsModel { buoyancy: None, ..self.as_of_v18() }
    }

    /// Version 16: no water body.
    pub open spec fn as_of_v16(self) -> PartsModel {
        PartsModel { water_body: None, ..self.as_of_v17() }
    }

    /// Version 15: no biomes.
    pub open spec fn as_of_v15(self) -> PartsModel {
        PartsModel {
            terrain: match self.terrain {
                Some(t) => Some(t.as_of_v15()),
                None => None,
            },
            ..self.as_of_v16()
        }
    }

    /// Version 14: no data maps.
    pub open spec fn as_of_v14(self) -> PartsModel {
        PartsModel {
            terrain: match self.terrain {
                Some(t) => Some(t.as_of_v14()),
                None => None,
            },
            ..self.as_of_v16()
        }
    }

    /// Version 13: no weather.
    pub open spec fn as_of_v13(self) -> PartsModel {
        PartsModel {
            sky_atmosphere: match self.sky_atmosphere {
                Some(s) => Some(s.as_of_v13()),
                None => None,
            },
            ..self.as_of_v14()
        }
    }

    /// Version 12: no clouds.
    pub open spec fn as_of_v12(self) -> PartsModel {
        PartsModel {
            sky_atmosphere: match self.sky_atmosphere {
                Some(s) => Some(s.as_of_v12()),
                None => None,
            },
            ..self.as_of_v14()
        }
    }

    /// Version 11: no physical atmosphere.
    pub open spec fn as_of_v11(self) -> PartsModel {
        PartsModel {
            sky_atmosphere: match self.sky_atmosphere {
                Some(s) => Some(s.as_of_v11()),
                None => None,
            },
            ..self.as_of_v14()
        }
    }

    /// Version 10: no sky and no clock.
    pub open spec fn as_of_v10(self) -> PartsModel {
        PartsModel { time_of_day: None, sky_atmosphere: None, ..self.as_of_v14() }
    }

    /// What version `v` of the file could hold of the components, for the
    /// versions that a record can be projected back to.
    pub open spec fn as_of(self, v: int) -> PartsModel {
        if v <= 10 {
            self.as_of_v10()
        } else if v == 11 {
            self.as_of_v11()
        } else if v == 12 {
            self.as_of_v12()
        } else if v == 13 {
            self.as_of_v13()
        } else if v == 14 {
            self.as_of_v14()
        } else if v == 15 {
            self.as_of_v15()
        } else if v == 16 {
            self.as_of_v16()
        } else if v == 17 {
            self.as_of_v17()
        } else if v == 18 {
            self.as_of_v18()
        } else {
            self
        }
    }
}

impl RecordModel {
    pub open spec fn with_weather(self, w: Weather) -> RecordModel {
        RecordModel { parts: self.parts.with_weather(w), ..self }
    }

    /// What version `v` of the file could hold of the record.
    pub open spec fn as_of(self, v: int) -> RecordModel {
        RecordModel { parts: self.parts.as_of(v), ..self }
    }
}

/// An entity: identity, name, parent, place, visibility and components.
#[derive(Debug, PartialEq)]
pub struct EntityRecord {
    pub guid: Guid,
    pub name: String,
    pub parent: Option<Guid>,
    pub transform: Transform,
    pub visible: bool,
    pub mesh: Option<MeshRef>,
    pub material: Option<Material>,
    pub light: Option<Light>,
    pub camera: Option<Component>,
    pub sprite: Option<Component>,
    pub tilemap: Option<Tilemap>,
    pub nine_slice: Option<Component>,
    pub text2d: Option<Component>,
    pub light_2d: Option<Component>,
    pub rigid_body_2d: Option<Component>,
    pub collider_2d: Option<Component>,
    pub character_controller_2d: Option<Component>,
    pub rigid_body_3d: Option<Component>,
    pub collider_3d: Option<Component>,
    pub character_controller_3d: Option<Component>,
    pub actor: Option<Guid>,
    pub terrain: Option<Terrain>,
    pub pcg_volume: Option<Component>,
    pub skeletal_mesh: Option<Component>,
    pub anim_player: Option<Component>,
    pub anim_state_machine: Option<Component>,
    pub root_motion: Option<Component>,
    pub attached_to: Option<Component>,
    pub joint_2d: Option<Component>,
    pub joint_3d: Option<Component>,
    pub audio_source: Option<Component>,
    pub audio_listener: Option<Component>,
    pub decal: Option<Component>,
    pub volume: Option<Component>,
    pub spline: Option<Component>,
    pub foliage: Option<Foliage>,
    pub streaming_source: Option<StreamingSource>,
    pub always_loaded: Option<AlwaysLoaded>,
    pub time_of_day: Option<TimeOfDay>,
    pub sky_atmosphere: Option<SkyAtmosphere>,
    pub water_body: Option<Component>,
    pub buoyancy: Option<Component>,
    pub voxel_volume: Option<Component>,
}

impl View for EntityRecord {
    type V = RecordModel;

    open spec fn view(&self) -> RecordModel {
        RecordModel {
            guid: self.guid,
            name: self.name@,
            parent: self.parent,
            transform: self.transform,
            visible: self.visible,
            parts: PartsModel {
                mesh: self.mesh,
                material: self.material,
                light: self.light,
                camera: blob(self.camera),
                sprite: blob(self.sprite),
                tilemap: tilemap_now(self.tilemap),
                nine_slice: blob(self.nine_slice),
                text2d: blob(self.text2d),
                light_2d: blob(self.light_2d),
                rigid_body_2d: blob(self.rigid_body_2d),
                collider_2d: blob(self.collider_2d),
                character_controller_2d: blob(self.character_controller_2d),
                rigid_body_3d: blob(self.rigid_body_3d),
                collider_3d: blob(self.collider_3d),
                character_controller_3d: blob(self.character_controller_3d),
                actor: self.actor,
                terrain: terrain_now(self.terrain),
                pcg_volume: blob(self.pcg_volume),
                skeletal_mesh: blob(self.skeletal_mesh),
                anim_player: blob(self.anim_player),
                anim_state_machine: blob(self.anim_state_machine),
                root_motion: blob(self.root_motion),
                attached_to: blob(self.attached_to),
                joint_2d: blob(self.joint_2d),
                joint_3d: blob(self.joint_3d),
                audio_source: blob(self.audio_source),
                audio_listener: blob(self.audio_listener),
                decal: blob(self.decal),
                volume: blob(self.volume),
                spline: blob(self.spline),
                foliage: foliage_now(self.foliage),
                streaming_source: self.streaming_source,
                always_loaded: self.always_loaded,
                time_of_day: self.time_of_day,
                sky_atmosphere: sky_now(self.sky_atmosphere),
                water_body: blob(self.water_body),
                buoyancy: blob(self.buoyancy),
                voxel_volume: blob(self.voxel_volume),
            },
        }
    }
}

impl Clone for EntityRecord {
    fn clone(&self) -> (r: Self)
        ensures
            r@ == self@,
    {
        EntityRecord {
            guid: self.guid,
            name: self.name.clone(),
            parent: self.parent,
            transform: self.transform,
            visible: self.visible,
            mesh: self.mesh,
            material: self.material,
            light: self.light,
            camera: clone_slot(&self.camera),
            sprite: clone_slot(&self.sprite),
            tilemap: match &self.tilemap {
                Some(t) => Some(t.clone()),
                None => None,
            },
            nine_slice: clone_slot(&self.nine_slice),
            text2d: clone_slot(&self.text2d),
            light_2d: clone_slot(&self.light_2d),
            rigid_body_2d: clone_slot(&self.rigid_body_2d),
            collider_2d: clone_slot(&self.collider_2d),
            character_controller_2d: clone_slot(&self.character_controller_2d),
            rigid_body_3d: clone_slot(&self.rigid_body_3d),
            collider_3d: clone_slot(&self.collider_3d),
            character_controller_3d: clone_slot(&self.character_controller_3d),
            actor: self.actor,
            terrain: match &self.terrain {
                Some(t) => Some(t.clone()),
                None => None,
            },
            pcg_volume: clone_slot(&self.pcg_volume),
            skeletal_mesh: clone_slot(&self.skeletal_mesh),
            anim_player: clone_slot(&self.anim_player),
            anim_state_machine: clone_slot(&self.anim_state_machine),
            root_motion: clone_slot(&self.root_motion),
            attached_to: clone_slot(&self.attached_to),
            joint_2d: clone_slot(&self.joint_2d),
            joint_3d: clone_slot(&self.joint_3d),
            audio_source: clone_slot(&self.audio_source),
            audio_listener: clone_slot(&self.audio_listener),
            decal: clone_slot(&self.decal),
            volume: clone_slot(&self.volume),
            spline: clone_slot(&self.spline),
            foliage: clone_foliage(&self.foliage),
            streaming_source: self.streaming_source,
            always_loaded: self.always_loaded,
            time_of_day: self.time_of_day,
            sky_atmosphere: self.sky_atmosphere,
            water_body: clone_slot(&self.water_body),
            buoyancy: clone_slot(&self.buoyancy),
            voxel_volume: clone_slot(&self.voxel_volume),
        }
    }
}

impl EntityRecord {
    /// A record with nothing but an identity and a name.
    pub fn named(guid: Guid, name: String, parent: Option<Guid>, transform: Transform) -> (r: EntityRecord)
        ensures
            r@ == (RecordModel {
                guid,
                name: name@,
                parent,
                transform,
                visible: true,
                parts: PartsModel::bare(),
            }),
    {
        EntityRecord {
            guid,
            name,
            parent,
            transform,
            visible: true,
            mesh: None,
            material: None,
            light: None,
            camera: None,
            sprite: None,
            tilemap: None,
            nine_slice: None,
            text2d: None,
            light_2d: None,
            rigid_body_2d: None,
            collider_2d: None,
            character_controller_2d: None,
            rigid_body_3d: None,
            collider_3d: None,
            character_controller_3d: None,
            actor: None,
            terrain: None,
            pcg_volume: None,
            skeletal_mesh: None,
            anim_player: None,
            anim_state_machine: None,
            root_motion: None,
            attached_to: None,
            joint_2d: None,
            joint_3d: None,
            audio_source: None,
            audio_listener: None,
            decal: None,
            volume: None,
            spline: None,
            foliage: None,
            streaming_source: None,
            always_loaded: None,
            time_of_day: None,
            sky_atmosphere: None,
            water_body: None,
            buoyancy: None,
            voxel_volume: None,
        }
    }
}

} // verus!
