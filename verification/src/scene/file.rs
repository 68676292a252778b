//! The level file in every version, and the lifts from one to the next.
//!
//! A lift keeps the title, the settings and the entities as they are meant and
//! stamps the version it leads to.

use crate::scene::ladder_early::{
    EntityRecordV1, EntityRecordV2, EntityRecordV3, EntityRecordV4, EntityRecordV5, EntityRecordV6,
    EntityRecordV7, EntityRecordV8, EntityRecordV9,
};
use crate::scene::ladder_late::{
    EntityRecordV10, EntityRecordV11, EntityRecordV12, EntityRecordV13, EntityRecordV14,
    EntityRecordV15, EntityRecordV16, EntityRecordV17, EntityRecordV18,
};
use crate::scene::record::{EntityRecord, RecordModel};
use crate::scene::settings::{LevelSettings, LevelSettingsV7, LevelSettingsV9};
use crate::scene::sky::{SkyAtmosphere, Weather};
use vstd::prelude::*;

verus! {

/// The version of the file that is written today.
pub const SCHEMA_VERSION: u32 = 19;

/// What a file of any version says of its level.
pub struct SceneFileModel {
    pub schema_version: u32,
    pub title: Seq<char>,
    pub entities: Seq<RecordModel>,
    pub settings: LevelSettings,
}

impl SceneFileModel {
    /// The same level under another version number.
    pub open spec fn stamped(self, schema_version: u32) -> SceneFileModel {
        SceneFileModel { schema_version, ..self }
    }

    /// The same level with the weather filled in where the version knew none.
    pub open spec fn with_weather(self, w: Weather) -> SceneFileModel {
        SceneFileModel {
            entities: self.entities.map_values(|r: RecordModel| r.with_weather(w)),
            ..self
        }
    }
}

/// The level file of version 1.
#[derive(Debug, PartialEq)]
pub struct SceneFileV1 {
    pub schema_version: u32,
    pub title: String,
    pub entities: Vec<EntityRecordV1>,
}

impl View for SceneFileV1 {
    type V = SceneFileModel;

    open spec fn view(&self) -> SceneFileModel {
        SceneFileModel {
            schema_version: self.schema_version,
            title: self.title@,
            entities: self.entities@.map_values(|r: EntityRecordV1| r@),
            settings: LevelSettings::standard(),
        }
    }
}

impl SceneFileV1 {
    /// Lift to version 2.
    pub fn into_v2(self) -> (r: SceneFileV2)
        ensures
            r@ == self@.stamped(2),
    {
        let ghost whole = self@;
        let source = self.entities;
        let ghost records = source@;
        let mut entities: Vec<EntityRecordV2> = Vec::new();
        for rec in it: source
            invariant
                it.seq() == records,
                entities.len() == it.index(),
                forall|j: int|
                    0 <= j < entities.len() ==> (#[trigger] entities@[j])@ == records[j]@,
        {
            entities.push(rec.into_v2());
        }
        let r = SceneFileV2 {
            schema_version: 2,
            title: self.title,
            entities,
        };
        proof {
            assert(r@.entities =~= whole.entities);
        }
        r
    }
}

/// The level file of version 2.
#[derive(Debug, PartialEq)]
pub struct SceneFileV2 {
    pub schema_version: u32,
    pub title: String,
    pub entities: Vec<EntityRecordV2>,
}

impl View for SceneFileV2 {
    type V = SceneFileModel;

    open spec fn view(&self) -> SceneFileModel {
        SceneFileModel {
            schema_version: self.schema_version,
            title: self.title@,
            entities: self.entities@.map_values(|r: EntityRecordV2| r@),
            settings: LevelSettings::standard(),
        }
    }
}

impl SceneFileV2 {
    /// Lift to version 3.
    pub fn into_v3(self) -> (r: SceneFileV3)
        ensures
            r@ == self@.stamped(3),
    {
        let ghost whole = self@;
        let source = self.entities;
        let ghost records = source@;
        let mut entities: Vec<EntityRecordV3> = Vec::new();
        for rec in it: source
            invariant
                it.seq() == records,
                entities.len() == it.index(),
                forall|j: int|
                    0 <= j < entities.len() ==> (#[trigger] entities@[j])@ == records[j]@,
        {
            entities.push(rec.into_v3());
        }
        let r = SceneFileV3 {
            schema_version: 3,
            title: self.title,
            entities,
            settings: LevelSettingsV7::default(),
        };
        proof {
            assert(r@.entities =~= whole.entities);
        }
        r
    }
}

/// The level file of version 3.
#[derive(Debug, PartialEq)]
pub struct SceneFileV3 {
    pub schema_version: u32,
    pub title: String,
    pub entities: Vec<EntityRecordV3>,
    pub settings: LevelSettingsV7,
}

impl View for SceneFileV3 {
    type V = SceneFileModel;

    open spec fn view(&self) -> SceneFileModel {
        SceneFileModel {
            schema_version: self.schema_version,
            title: self.title@,
            entities: self.entities@.map_values(|r: EntityRecordV3| r@),
            settings: self.settings@,
        }
    }
}

impl SceneFileV3 {
    /// Lift to version 4.
    pub fn into_v4(self) -> (r: SceneFileV4)
        ensures
            r@ == self@.stamped(4),
    {
        let ghost whole = self@;
        let source = self.entities;
        let ghost records = source@;
        let mut entities: Vec<EntityRecordV4> = Vec::new();
        for rec in it: source
            invariant
                it.seq() == records,
                entities.len() == it.index(),
                forall|j: int|
                    0 <= j < entities.len() ==> (#[trigger] entities@[j])@ == records[j]@,
        {
            entities.push(rec.into_v4());
        }
        let r = SceneFileV4 {
            schema_version: 4,
            title: self.title,
            entities,
            settings: self.settings,
        };
        proof {
            assert(r@.entities =~= whole.entities);
        }
        r
    }
}

/// The level file of version 4.
#[derive(Debug, PartialEq)]
pub struct SceneFileV4 {
    pub schema_version: u32,
    pub title: String,
    pub entities: Vec<EntityRecordV4>,
    pub settings: LevelSettingsV7,
}

impl View for SceneFileV4 {
    type V = SceneFileModel;

    open spec fn view(&self) -> SceneFileModel {
        SceneFileModel {
            schema_version: self.schema_version,
            title: self.title@,
            entities: self.entities@.map_values(|r: EntityRecordV4| r@),
            settings: self.settings@,
        }
    }
}

impl SceneFileV4 {
    /// Lift to version 5.
    pub fn into_v5(self) -> (r: SceneFileV5)
        ensures
            r@ == self@.stamped(5),
    {
        let ghost whole = self@;
        let source = self.entities;
        let ghost records = source@;
        let mut entities: Vec<EntityRecordV5> = Vec::new();
        for rec in it: source
            invariant
                it.seq() == records,
                entities.len() == it.index(),
                forall|j: int|
                    0 <= j < entities.len() ==> (#[trigger] entities@[j])@ == records[j]@,
        {
            entities.push(rec.into_v5());
        }
        let r = SceneFileV5 {
            schema_version: 5,
            title: self.title,
            entities,
            settings: self.settings,
        };
        proof {
            assert(r@.entities =~= whole.entities);
        }
        r
    }
}

/// The level file of version 5.
#[derive(Debug, PartialEq)]
pub struct SceneFileV5 {
    pub schema_version: u32,
    pub title: String,
    pub entities: Vec<EntityRecordV5>,
    pub settings: LevelSettingsV7,
}

impl View for SceneFileV5 {
    type V = SceneFileModel;

    open spec fn view(&self) -> SceneFileModel {
        SceneFileModel {
            schema_version: self.schema_version,
            title: self.title@,
            entities: self.entities@.map_values(|r: EntityRecordV5| r@),
            settings: self.settings@,
        }
    }
}

impl SceneFileV5 {
    /// Lift to version 6.
    pub fn into_v6(self) -> (r: SceneFileV6)
        ensures
            r@ == self@.stamped(6),
    {
        let ghost whole = self@;
        let source = self.entities;
        let ghost records = source@;
        let mut entities: Vec<EntityRecordV6> = Vec::new();
        for rec in it: source
            invariant
                it.seq() == records,
                entities.len() == it.index(),
                forall|j: int|
                    0 <= j < entities.len() ==> (#[trigger] entities@[j])@ == records[j]@,
        {
            entities.push(rec.into_v6());
        }
        let r = SceneFileV6 {
            schema_version: 6,
            title: self.title,
            entities,
            settings: self.settings,
        };
        proof {
            assert(r@.entities =~= whole.entities);
        }
        r
    }
}

/// The level file of version 6.
#[derive(Debug, PartialEq)]
pub struct SceneFileV6 {
    pub schema_version: u32,
    pub title: String,
    pub entities: Vec<EntityRecordV6>,
    pub settings: LevelSettingsV7,
}

impl View for SceneFileV6 {
    type V = SceneFileModel;

    open spec fn view(&self) -> SceneFileModel {
        SceneFileModel {
            schema_version: self.schema_version,
            title: self.title@,
            entities: self.entities@.map_values(|r: EntityRecordV6| r@),
            settings: self.settings@,
        }
    }
}

impl SceneFileV6 {
    /// Lift to version 7.
    pub fn into_v7(self) -> (r: SceneFileV7)
        ensures
            r@ == self@.stamped(7),
    {
        let ghost whole = self@;
        let source = self.entities;
        let ghost records = source@;
        let mut entities: Vec<EntityRecordV7> = Vec::new();
        for rec in it: source
            invariant
                it.seq() == records,
                entities.len() == it.index(),
                forall|j: int|
                    0 <= j < entities.len() ==> (#[trigger] entities@[j])@ == records[j]@,
        {
            entities.push(rec.into_v7());
        }
        let r = SceneFileV7 {
            schema_version: 7,
            title: self.title,
            entities,
            settings: self.settings,
        };
        proof {
            assert(r@.entities =~= whole.entities);
        }
        r
    }
}

/// The level file of version 7.
#[derive(Debug, PartialEq)]
pub struct SceneFileV7 {
    pub schema_version: u32,
    pub title: String,
    pub entities: Vec<EntityRecordV7>,
    pub settings: LevelSettingsV7,
}

impl View for SceneFileV7 {
    type V = SceneFileModel;

    open spec fn view(&self) -> SceneFileModel {
        SceneFileModel {
            schema_version: self.schema_version,
            title: self.title@,
            entities: self.entities@.map_values(|r: EntityRecordV7| r@),
            settings: self.settings@,
        }
    }
}

impl SceneFileV7 {
    /// Lift to version 8.
    pub fn into_v8(self) -> (r: SceneFileV8)
        ensures
            r@ == self@.stamped(8),
    {
        let ghost whole = self@;
        let source = self.entities;
        let ghost records = source@;
        let mut entities: Vec<EntityRecordV8> = Vec::new();
        for rec in it: source
            invariant
                it.seq() == records,
                entities.len() == it.index(),
                forall|j: int|
                    0 <= j < entities.len() ==> (#[trigger] entities@[j])@ == records[j]@,
        {
            entities.push(rec.into_v8());
        }
        let r = SceneFileV8 {
            schema_version: 8,
            title: self.title,
            entities,
            settings: self.settings.into_v9(),
        };
        proof {
            assert(r@.entities =~= whole.entities);
        }
        r
    }
}

/// The level file of version 8.
#[derive(Debug, PartialEq)]
pub struct SceneFileV8 {
    pub schema_version: u32,
    pub title: String,
    pub entities: Vec<EntityRecordV8>,
    pub settings: LevelSettingsV9,
}

impl View for SceneFileV8 {
    type V = SceneFileModel;

    open spec fn view(&self) -> SceneFileModel {
        SceneFileModel {
            schema_version: self.schema_version,
            title: self.title@,
            entities: self.entities@.map_values(|r: EntityRecordV8| r@),
            settings: self.settings@,
        }
    }
}

impl SceneFileV8 {
    /// Lift to version 9.
    pub fn into_v9(self) -> (r: SceneFileV9)
        ensures
            r@ == self@.stamped(9),
    {
        let ghost whole = self@;
        let source = self.entities;
        let ghost records = source@;
        let mut entities: Vec<EntityRecordV9> = Vec::new();
        for rec in it: source
            invariant
                it.seq() == records,
                entities.len() == it.index(),
                forall|j: int|
                    0 <= j < entities.len() ==> (#[trigger] entities@[j])@ == records[j]@,
        {
            entities.push(rec.into_v9());
        }
        let r = SceneFileV9 {
            schema_version: 9,
            title: self.title,
            entities,
            settings: self.settings,
        };
        proof {
            assert(r@.entities =~= whole.entities);
        }
        r
    }
}

/// The level file of version 9.
#[derive(Debug, PartialEq)]
pub struct SceneFileV9 {
    pub schema_version: u32,
    pub title: String,
    pub entities: Vec<EntityRecordV9>,
    pub settings: LevelSettingsV9,
}

impl View for SceneFileV9 {
    type V = SceneFileModel;

    open spec fn view(&self) -> SceneFileModel {
        SceneFileModel {
            schema_version: self.schema_version,
            title: self.title@,
            entities: self.entities@.map_values(|r: EntityRecordV9| r@),
            settings: self.settings@,
        }
    }
}

impl SceneFileV9 {
    /// Lift to version 10.
    pub fn into_v10(self) -> (r: SceneFileV10)
        ensures
            r@ == self@.stamped(10),
    {
        let ghost whole = self@;
        let source = self.entities;
        let ghost records = source@;
        let mut entities: Vec<EntityRecordV10> = Vec::new();
        for rec in it: source
            invariant
                it.seq() == records,
                entities.len() == it.index(),
                forall|j: int|
                    0 <= j < entities.len() ==> (#[trigger] entities@[j])@ == records[j]@,
        {
            entities.push(rec.into_v10());
        }
        let r = SceneFileV10 {
            schema_version: 10,
            title: self.title,
            entities,
            settings: self.settings.into_current(),
        };
        proof {
            assert(r@.entities =~= whole.entities);
        }
        r
    }
}

/// The level file of version 10.
#[derive(Debug, PartialEq)]
pub struct SceneFileV10 {
    pub schema_version: u32,
    pub title: String,
    pub entities: Vec<EntityRecordV10>,
    pub settings: LevelSettings,
}

impl View for SceneFileV10 {
    type V = SceneFileModel;

    open spec fn view(&self) -> SceneFileModel {
        SceneFileModel {
            schema_version: self.schema_version,
            title: self.title@,
            entities: self.entities@.map_values(|r: EntityRecordV10| r@),
            settings: self.settings,
        }
    }
}

impl SceneFileV10 {
    /// Lift to version 11.
    pub fn into_v11(self) -> (r: SceneFileV11)
        ensures
            r@ == self@.stamped(11),
    {
        let ghost whole = self@;
        let source = self.entities;
        let ghost records = source@;
        let mut entities: Vec<EntityRecordV11> = Vec::new();
        for rec in it: source
            invariant
                it.seq() == records,
                entities.len() == it.index(),
                forall|j: int|
                    0 <= j < entities.len() ==> (#[trigger] entities@[j])@ == records[j]@,
        {
            entities.push(rec.into_v11());
        }
        let r = SceneFileV11 {
            schema_version: 11,
            title: self.title,
            entities,
            settings: self.settings,
        };
        proof {
            assert(r@.entities =~= whole.entities);
        }
        r
    }
}

/// The level file of version 11.
#[derive(Debug, PartialEq)]
pub struct SceneFileV11 {
    pub schema_version: u32,
    pub title: String,
    pub entities: Vec<EntityRecordV11>,
    pub settings: LevelSettings,
}

impl View for SceneFileV11 {
    type V = SceneFileModel;

    open spec fn view(&self) -> SceneFileModel {
        SceneFileModel {
            schema_version: self.schema_version,
            title: self.title@,
            entities: self.entities@.map_values(|r: EntityRecordV11| r@),
            settings: self.settings,
        }
    }
}

impl SceneFileV11 {
    /// Lift to version 12.
    pub fn into_v12(self) -> (r: SceneFileV12)
        ensures
            r@ == self@.stamped(12),
    {
        let ghost whole = self@;
        let source = self.entities;
        let ghost records = source@;
        let mut entities: Vec<EntityRecordV12> = Vec::new();
        for rec in it: source
            invariant
                it.seq() == records,
                entities.len() == it.index(),
                forall|j: int|
                    0 <= j < entities.len() ==> (#[trigger] entities@[j])@ == records[j]@,
        {
            entities.push(rec.into_v12());
        }
        let r = SceneFileV12 {
            schema_version: 12,
            title: self.title,
            entities,
            settings: self.settings,
        };
        proof {
            assert(r@.entities =~= whole.entities);
        }
        r
    }
}

/// The level file of version 12.
#[derive(Debug, PartialEq)]
pub struct SceneFileV12 {
    pub schema_version: u32,
    pub title: String,
    pub entities: Vec<EntityRecordV12>,
    pub settings: LevelSettings,
}

impl View for SceneFileV12 {
    type V = SceneFileModel;

    open spec fn view(&self) -> SceneFileModel {
        SceneFileModel {
            schema_version: self.schema_version,
            title: self.title@,
            entities: self.entities@.map_values(|r: EntityRecordV12| r@),
            settings: self.settings,
        }
    }
}

impl SceneFileV12 {
    /// Lift to version 13.
    pub fn into_v13(self) -> (r: SceneFileV13)
        ensures
            r@ == self@.stamped(SCHEMA_VERSION),
    {
        let ghost whole = self@;
        let source = self.entities;
        let ghost records = source@;
        let mut entities: Vec<EntityRecordV13> = Vec::new();
        for rec in it: source
            invariant
                it.seq() == records,
                entities.len() == it.index(),
                forall|j: int|
                    0 <= j < entities.len() ==> (#[trigger] entities@[j])@ == records[j]@,
        {
            entities.push(rec.into_v13());
        }
        let r = SceneFileV13 {
            schema_version: SCHEMA_VERSION,
            title: self.title,
            entities,
            settings: self.settings,
        };
        proof {
            assert(r@.entities =~= whole.entities);
        }
        r
    }
}

/// The level file of version 13.
#[derive(Debug, PartialEq)]
pub struct SceneFileV13 {
    pub schema_version: u32,
    pub title: String,
    pub entities: Vec<EntityRecordV13>,
    pub settings: LevelSettings,
}

impl View for SceneFileV13 {
    type V = SceneFileModel;

    open spec fn view(&self) -> SceneFileModel {
        SceneFileModel {
            schema_version: self.schema_version,
            title: self.title@,
            entities: self.entities@.map_values(|r: EntityRecordV13| r@),
            settings: self.settings,
        }
    }
}

impl SceneFileV13 {
    /// Lift to today's file; the weather is that of `sky`, the living component's default.
    pub fn into_current(self, sky: &SkyAtmosphere) -> (r: SceneFile)
        ensures
            r@ == self@.with_weather(sky.weather()).stamped(SCHEMA_VERSION),
    {
        let ghost whole = self@;
        let source = self.entities;
        let ghost records = source@;
        let mut entities: Vec<EntityRecord> = Vec::new();
        for rec in it: source
            invariant
                it.seq() == records,
                entities.len() == it.index(),
                forall|j: int|
                    0 <= j < entities.len() ==> (#[trigger] entities@[j])@ == records[j]@.with_weather(sky.weather()),
        {
            entities.push(rec.into_current(sky));
        }
        let r = SceneFile {
            schema_version: SCHEMA_VERSION,
            title: self.title,
            entities,
            settings: self.settings,
        };
        proof {
            assert(r@.entities =~= whole.with_weather(sky.weather()).entities);
        }
        r
    }
}

/// The level file of version 14.
#[derive(Debug, PartialEq)]
pub struct SceneFileV14 {
    pub schema_version: u32,
    pub title: String,
    pub entities: Vec<EntityRecordV14>,
    pub settings: LevelSettings,
}

impl View for SceneFileV14 {
    type V = SceneFileModel;

    open spec fn view(&self) -> SceneFileModel {
        SceneFileModel {
            schema_version: self.schema_version,
            title: self.title@,
            entities: self.entities@.map_values(|r: EntityRecordV14| r@),
            settings: self.settings,
        }
    }
}

impl SceneFileV14 {
    /// Lift to version 15.
    pub fn into_v15(self) -> (r: SceneFileV15)
        ensures
            r@ == self@.stamped(15),
    {
        let ghost whole = self@;
        let source = self.entities;
        let ghost records = source@;
        let mut entities: Vec<EntityRecordV15> = Vec::new();
        for rec in it: source
            invariant
                it.seq() == records,
                entities.len() == it.index(),
                forall|j: int|
                    0 <= j < entities.len() ==> (#[trigger] entities@[j])@ == records[j]@,
        {
            entities.push(rec.into_v15());
        }
        let r = SceneFileV15 {
            schema_version: 15,
            title: self.title,
            entities,
            settings: self.settings,
        };
        proof {
            assert(r@.entities =~= whole.entities);
        }
        r
    }
}

/// The level file of version 15.
#[derive(Debug, PartialEq)]
pub struct SceneFileV15 {
    pub schema_version: u32,
    pub title: String,
    pub entities: Vec<EntityRecordV15>,
    pub settings: LevelSettings,
}

impl View for SceneFileV15 {
    type V = SceneFileModel;

    open spec fn view(&self) -> SceneFileModel {
        SceneFileModel {
            schema_version: self.schema_version,
            title: self.title@,
            entities: self.entities@.map_values(|r: EntityRecordV15| r@),
            settings: self.settings,
        }
    }
}

impl SceneFileV15 {
    /// Lift to version 16.
    pub fn into_v16(self) -> (r: SceneFileV16)
        ensures
            r@ == self@.stamped(16),
    {
        let ghost whole = self@;
        let source = self.entities;
        let ghost records = source@;
        let mut entities: Vec<EntityRecordV16> = Vec::new();
        for rec in it: source
            invariant
                it.seq() == records,
                entities.len() == it.index(),
                forall|j: int|
                    0 <= j < entities.len() ==> (#[trigger] entities@[j])@ == records[j]@,
        {
            entities.push(rec.into_v16());
        }
        let r = SceneFileV16 {
            schema_version: 16,
            title: self.title,
            entities,
            settings: self.settings,
        };
        proof {
            assert(r@.entities =~= whole.entities);
        }
        r
    }
}

/// The level file of version 16.
#[derive(Debug, PartialEq)]
pub struct SceneFileV16 {
    pub schema_version: u32,
    pub title: String,
    pub entities: Vec<EntityRecordV16>,
    pub settings: LevelSettings,
}

impl View for SceneFileV16 {
    type V = SceneFileModel;

    open spec fn view(&self) -> SceneFileModel {
        SceneFileModel {
            schema_version: self.schema_version,
            title: self.title@,
            entities: self.entities@.map_values(|r: EntityRecordV16| r@),
            settings: self.settings,
        }
    }
}

impl SceneFileV16 {
    /// Lift to version 17.
    pub fn into_v17(self) -> (r: SceneFileV17)
        ensures
            r@ == self@.stamped(17),
    {
        let ghost whole = self@;
        let source = self.entities;
        let ghost records = source@;
        let mut entities: Vec<EntityRecordV17> = Vec::new();
        for rec in it: source
            invariant
                it.seq() == records,
                entities.len() == it.index(),
                forall|j: int|
                    0 <= j < entities.len() ==> (#[trigger] entities@[j])@ == records[j]@,
        {
            entities.push(rec.into_v17());
        }
        let r = SceneFileV17 {
            schema_version: 17,
            title: self.title,
            entities,
            settings: self.settings,
        };
        proof {
            assert(r@.entities =~= whole.entities);
        }
        r
    }
}

/// The level file of version 17.
#[derive(Debug, PartialEq)]
pub struct SceneFileV17 {
    pub schema_version: u32,
    pub title: String,
    pub entities: Vec<EntityRecordV17>,
    pub settings: LevelSettings,
}

impl View for SceneFileV17 {
    type V = SceneFileModel;

    open spec fn view(&self) -> SceneFileModel {
        SceneFileModel {
            schema_version: self.schema_version,
            title: self.title@,
            entities: self.entities@.map_values(|r: EntityRecordV17| r@),
            settings: self.settings,
        }
    }
}

impl SceneFileV17 {
    /// Lift to version 18.
    pub fn into_v18(self) -> (r: SceneFileV18)
        ensures
            r@ == self@.stamped(18),
    {
        let ghost whole = self@;
        let source = self.entities;
        let ghost records = source@;
        let mut entities: Vec<EntityRecordV18> = Vec::new();
        for rec in it: source
            invariant
                it.seq() == records,
                entities.len() == it.index(),
                forall|j: int|
                    0 <= j < entities.len() ==> (#[trigger] entities@[j])@ == records[j]@,
        {
            entities.push(rec.into_v18());
        }
        let r = SceneFileV18 {
            schema_version: 18,
            title: self.title,
            entities,
            settings: self.settings,
        };
        proof {
            assert(r@.entities =~= whole.entities);
        }
        r
    }
}

/// The level file of version 18.
#[derive(Debug, PartialEq)]
pub struct SceneFileV18 {
    pub schema_version: u32,
    pub title: String,
    pub entities: Vec<EntityRecordV18>,
    pub settings: LevelSettings,
}

impl View for SceneFileV18 {
    type V = SceneFileModel;

    open spec fn view(&self) -> SceneFileModel {
        SceneFileModel {
            schema_version: self.schema_version,
            title: self.title@,
            entities: self.entities@.map_values(|r: EntityRecordV18| r@),
            settings: self.settings,
        }
    }
}

impl SceneFileV18 {
    /// Lift to today's file.
    pub fn into_current(self) -> (r: SceneFile)
        ensures
            r@ == self@.stamped(SCHEMA_VERSION),
    {
        let ghost whole = self@;
        let source = self.entities;
        let ghost records = source@;
        let mut entities: Vec<EntityRecord> = Vec::new();
        for rec in it: source
            invariant
                it.seq() == records,
                entities.len() == it.index(),
                forall|j: int|
                    0 <= j < entities.len() ==> (#[trigger] entities@[j])@ == records[j]@,
        {
            entities.push(rec.into_current());
        }
        let r = SceneFile {
            schema_version: SCHEMA_VERSION,
            title: self.title,
            entities,
            settings: self.settings,
        };
        proof {
            assert(r@.entities =~= whole.entities);
        }
        r
    }
}

/// The level file.
#[derive(Debug, PartialEq)]
pub struct SceneFile {
    pub schema_version: u32,
    pub title: String,
    pub entities: Vec<EntityRecord>,
    pub settings: LevelSettings,
}

impl View for SceneFile {
    type V = SceneFileModel;

    open spec fn view(&self) -> SceneFileModel {
        SceneFileModel {
            schema_version: self.schema_version,
            title: self.title@,
            entities: self.entities@.map_values(|r: EntityRecord| r@),
            settings: self.settings,
        }
    }
}

impl Clone for SceneFile {
    fn clone(&self) -> (r: Self)
        ensures
            r@ == self@,
    {
        let mut entities: Vec<EntityRecord> = Vec::new();
        let mut i: usize = 0;
        while i < self.entities.len()
            invariant
                i <= self.entities.len(),
                entities.len() == i,
                forall|j: int| 0 <= j < i ==> (#[trigger] entities@[j])@ == self.entities@[j]@,
            decreases self.entities.len() - i,
        {
            entities.push(self.entities[i].clone());
            i = i + 1;
        }
        let r = SceneFile {
            schema_version: self.schema_version,
            title: self.title.clone(),
            entities,
            settings: self.settings,
        };
        proof {
            assert(r@.entities =~= self@.entities);
        }
        r
    }
}

} // verus!
