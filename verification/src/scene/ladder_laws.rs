//! What the versions of an entity record promise together.

use crate::scene::ladder_late::{
    EntityRecordV10, EntityRecordV11, EntityRecordV12, EntityRecordV13, EntityRecordV14,
    EntityRecordV15, EntityRecordV16, EntityRecordV17, EntityRecordV18,
};
use crate::scene::record::{PartsModel, RecordModel};
use crate::scene::sky;
use crate::scene::sky::{SkyModel, Weather};
use crate::scene::terrain;
use crate::scene::terrain::TerrainModel;
use vstd::prelude::*;

verus! {

/// Whether version `v` could hold everything the terrain has.
pub open spec fn terrain_fits(t: TerrainModel, v: int) -> bool {
    &&& v <= 15 ==> {
        &&& t.biome_set is None
        &&& t.biome_population.len() == 0
        &&& forall|i: int|
            0 <= i < t.data.tiles.len() ==> (#[trigger] t.data.tiles[i]).biome_ids.len() == 0
    }
    &&& v <= 14 ==> forall|i: int|
        0 <= i < t.data.tiles.len() ==> (#[trigger] t.data.tiles[i]).data_maps.len() == 0
}

/// Whether version `v` could hold everything the sky has, its weather aside.
pub open spec fn sky_fits(s: SkyModel, v: int) -> bool {
    &&& v == 12 ==> s.as_of_v12().base == s.base
    &&& v == 11 ==> s.as_of_v11().base == s.base
}

/// Whether version `v` could hold every component, the weather aside.
pub open spec fn fits(p: PartsModel, v: int) -> bool {
    &&& v <= 18 ==> p.voxel_volume is None
    &&& v <= 17 ==> p.buoyancy is None
    &&& v <= 16 ==> p.water_body is None
    &&& p.terrain matches Some(t) ==> terrain_fits(t, v)
    &&& p.sky_atmosphere matches Some(s) ==> sky_fits(s, v)
    &&& v <= 10 ==> p.sky_atmosphere is None && p.time_of_day is None
}

/// The weather of the sky, where there is one.
pub open spec fn weather_of(p: PartsModel) -> Option<Weather> {
    match p.sky_atmosphere {
        Some(s) => s.weather,
        None => None,
    }
}

/// Projecting back to a version is settled by one application, and projecting
/// further back does not depend on the stops in between.
pub proof fn law_projections_nest(p: PartsModel, older: int, newer: int)
    requires
        10 <= older <= newer <= 18,
    ensures
        p.as_of(newer).as_of(older) == p.as_of(older),
{
    match p.terrain {
        Some(t) => {
            terrain::law_terrain_projections_nest(t);
        },
        None => {},
    }
    match p.sky_atmosphere {
        Some(s) => {
            sky::law_sky_projections_nest(s);
            assert(s.as_of_v13().as_of_v11() == s.as_of_v11());
        },
        None => {},
    }
    assert(p.as_of(newer).as_of(older) == p.as_of(older));
}

/// A record that a version could hold survives the way back to it and the lift
/// from there unchanged: from version 14 on exactly, before that up to the
/// weather, which comes back as the living component's default.
pub proof fn law_way_back_is_lossless_on_what_fits(m: RecordModel, v: int, w: Weather)
    requires
        10 <= v <= 18,
        fits(m.parts, v),
    ensures
        v >= 14 ==> m.as_of(v) == m,
        v <= 13 && (m.parts.sky_atmosphere is None || weather_of(m.parts) == Some(w)) ==> m.as_of(
            v,
        ).with_weather(w) == m,
{
    match m.parts.terrain {
        Some(t) => {
            if v <= 15 {
                terrain::law_terrain_projection_is_lossless_on_what_fits(t);
            }
        },
        None => {},
    }
    if v >= 14 {
        assert(m.as_of(v).parts == m.parts);
    } else if m.parts.sky_atmosphere is None || weather_of(m.parts) == Some(w) {
        assert(m.as_of(v).with_weather(w).parts == m.parts);
    }
}

/// What the way back to a version loses, and nothing else: identity, name,
/// parent, place, visibility and every component that the version knew stay.
pub proof fn law_way_back_keeps_what_the_version_knew(m: RecordModel, v: int, w: Weather)
    requires
        10 <= v <= 18,
    ensures
        ({
            let b = m.as_of(v).with_weather(w);
            &&& b == (RecordModel { parts: b.parts, ..m })
            &&& b.parts == (PartsModel {
                terrain: b.parts.terrain,
                time_of_day: b.parts.time_of_day,
                sky_atmosphere: b.parts.sky_atmosphere,
                water_body: b.parts.water_body,
                buoyancy: b.parts.buoyancy,
                voxel_volume: b.parts.voxel_volume,
                ..m.parts
            })
            &&& b.parts.voxel_volume is None
            &&& b.parts.buoyancy == (if v >= 18 {
                m.parts.buoyancy
            } else {
                None
            })
            &&& b.parts.water_body == (if v >= 17 {
                m.parts.water_body
            } else {
                None
            })
            &&& v >= 11 ==> b.parts.time_of_day == m.parts.time_of_day
            &&& v >= 16 ==> b.parts.terrain == m.parts.terrain
            &&& b.parts.terrain is Some <==> m.parts.terrain is Some
            &&& v >= 11 ==> (b.parts.sky_atmosphere is Some <==> m.parts.sky_atmosphere is Some)
            &&& v == 10 ==> b.parts.sky_atmosphere is None && b.parts.time_of_day is None
        }),
{
}

/// A record of an older version that is lifted to today and projected back is
/// the record it was.
pub proof fn law_lift_then_project(
    r10: EntityRecordV10,
    r11: EntityRecordV11,
    r12: EntityRecordV12,
    r13: EntityRecordV13,
    w: Weather,
)
    ensures
        r10@.with_weather(w).as_of(10) == r10@,
        r11@.with_weather(w).as_of(11) == r11@,
        r12@.with_weather(w).as_of(12) == r12@,
        r13@.with_weather(w).as_of(13) == r13@,
{
    lemma_old_terrain_fits(r10@.parts.terrain);
    lemma_old_terrain_fits(r11@.parts.terrain);
    lemma_old_terrain_fits(r12@.parts.terrain);
    lemma_old_terrain_fits(r13@.parts.terrain);
    assert(r10@.with_weather(w).as_of(10).parts == r10@.parts);
    assert(r11@.with_weather(w).as_of(11).parts == r11@.parts);
    assert(r12@.with_weather(w).as_of(12).parts == r12@.parts);
    assert(r13@.with_weather(w).as_of(13).parts == r13@.parts);
}

/// The same of the versions that knew the weather.
pub proof fn law_lift_then_project_with_weather(
    r14: EntityRecordV14,
    r15: EntityRecordV15,
    r16: EntityRecordV16,
    r17: EntityRecordV17,
    r18: EntityRecordV18,
)
    ensures
        r14@.as_of(14) == r14@,
        r15@.as_of(15) == r15@,
        r16@.as_of(16) == r16@,
        r17@.as_of(17) == r17@,
        r18@.as_of(18) == r18@,
{
    lemma_old_terrain_fits(r14@.parts.terrain);
    match r15.terrain {
        Some(t) => {
            assert forall|i: int| 0 <= i < t@.data.tiles.len() implies (#[trigger] t@.data.tiles[i]).biome_ids.len()
                == 0 by {
                assert(t@.data.tiles[i] == t.data.tiles@[i]@);
            }
            terrain::law_terrain_projection_is_lossless_on_what_fits(t@);
        },
        None => {},
    }
    assert(r14@.as_of(14).parts == r14@.parts);
    assert(r15@.as_of(15).parts == r15@.parts);
    assert(r16@.as_of(16).parts == r16@.parts);
    assert(r17@.as_of(17).parts == r17@.parts);
    assert(r18@.as_of(18).parts == r18@.parts);
}

proof fn lemma_old_terrain_fits(t: Option<TerrainModel>)
    requires
        t matches Some(m) ==> exists|f: terrain::TerrainV14| f@ == m,
    ensures
        t matches Some(m) ==> m.as_of_v14() == m,
{
    match t {
        Some(m) => {
            let f = choose|f: terrain::TerrainV14| f@ == m;
            assert forall|i: int| 0 <= i < m.data.tiles.len() implies (#[trigger] m.data.tiles[i]).biome_ids.len()
                == 0 && m.data.tiles[i].data_maps.len() == 0 by {
                assert(m.data.tiles[i] == f.data.tiles@[i]@);
            }
            terrain::law_terrain_projection_is_lossless_on_what_fits(m);
        },
        None => {},
    }
}

} // verus!
