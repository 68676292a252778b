//! Terrain: the heightfield tiles of a level and their earlier layouts.
//!
//! A tile is a stack of layers. Its base layer, heights and splat weights, is
//! as old as the format; data maps came with version 15 of the file and biome
//! ids with version 16. A layer that was never authored is empty.

use crate::bits::F64;
use crate::guid::Guid;
use crate::scene::component::{blobs, clone_list, Component};
use vstd::prelude::*;

verus! {

/// What a tile holds.
pub struct TileModel {
    pub coord: (i32, i32),
    pub base: Seq<u8>,
    pub data_maps: Seq<u8>,
    pub biome_ids: Seq<u8>,
}

/// What a terrain's heightfield holds.
pub struct TerrainDataModel {
    pub tile_resolution: u32,
    pub meters_per_sample: F64,
    pub tiles: Seq<TileModel>,
}

/// What a terrain holds.
pub struct TerrainModel {
    pub meters_per_sample: F64,
    pub tile_resolution: u32,
    pub data: TerrainDataModel,
    pub layers: Seq<u8>,
    pub macro_variation: F64,
    pub asset: Option<Guid>,
    pub biome_set: Option<Guid>,
    pub biome_population: Seq<Seq<u8>>,
}

impl TileModel {
    /// The tile without its biome ids: what version 15 of the file could hold.
    pub open spec fn without_biomes(self) -> TileModel {
        TileModel { biome_ids: Seq::empty(), ..self }
    }

    /// The base layer alone: what files before version 15 could hold.
    pub open spec fn base_only(self) -> TileModel {
        TileModel { data_maps: Seq::empty(), biome_ids: Seq::empty(), ..self }
    }
}

impl TerrainDataModel {
    /// A heightfield without tiles.
    pub open spec fn bare(tile_resolution: u32, meters_per_sample: F64) -> TerrainDataModel {
        TerrainDataModel { tile_resolution, meters_per_sample, tiles: Seq::empty() }
    }

    pub open spec fn without_biomes(self) -> TerrainDataModel {
        TerrainDataModel { tiles: self.tiles.map_values(|t: TileModel| t.without_biomes()), ..self }
    }

    pub open spec fn base_only(self) -> TerrainDataModel {
        TerrainDataModel { tiles: self.tiles.map_values(|t: TileModel| t.base_only()), ..self }
    }
}

impl TerrainModel {
    /// What version 15 of the file could hold of the terrain.
    pub open spec fn as_of_v15(self) -> TerrainModel {
        TerrainModel {
            data: self.data.without_biomes(),
            biome_set: None,
            biome_population: Seq::empty(),
            ..self
        }
    }

    /// What versions 9 to 14 could hold of it.
    pub open spec fn as_of_v14(self) -> TerrainModel {
        TerrainModel {
            data: self.data.base_only(),
            biome_set: None,
            biome_population: Seq::empty(),
            ..self
        }
    }

    /// What versions 4 to 8 could hold of it: no asset reference either.
    pub open spec fn as_of_v8(self) -> TerrainModel {
        TerrainModel { asset: None, ..self.as_of_v14() }
    }
}


/// A tile of files before version 15.
#[derive(Debug, PartialEq, Eq)]
pub struct TerrainTileV1 {
    pub coord: (i32, i32),
    pub base: Component,
}

impl View for TerrainTileV1 {
    type V = TileModel;

    open spec fn view(&self) -> TileModel {
        TileModel {
            coord: self.coord,
            base: self.base@,
            data_maps: Seq::empty(),
            biome_ids: Seq::empty(),
        }
    }
}

impl Clone for TerrainTileV1 {
    fn clone(&self) -> (r: Self)
        ensures
            r@ == self@,
    {
        TerrainTileV1 {
            coord: self.coord,
            base: self.base.clone(),
        }
    }
}

/// The heightfield of files before version 15.
#[derive(Debug, PartialEq, Eq)]
pub struct TerrainDataFrozenV1 {
    pub tile_resolution: u32,
    pub meters_per_sample: F64,
    pub tiles: Vec<TerrainTileV1>,
}

impl View for TerrainDataFrozenV1 {
    type V = TerrainDataModel;

    open spec fn view(&self) -> TerrainDataModel {
        TerrainDataModel {
            tile_resolution: self.tile_resolution,
            meters_per_sample: self.meters_per_sample,
            tiles: self.tiles@.map_values(|t: TerrainTileV1| t@),
        }
    }
}

impl Clone for TerrainDataFrozenV1 {
    fn clone(&self) -> (r: Self)
        ensures
            r@ == self@,
    {
        let mut tiles: Vec<TerrainTileV1> = Vec::new();
        let mut i: usize = 0;
        while i < self.tiles.len()
            invariant
                i <= self.tiles.len(),
                tiles.len() == i,
                forall|j: int| 0 <= j < i ==> (#[trigger] tiles@[j])@ == self.tiles@[j]@,
            decreases self.tiles.len() - i,
        {
            tiles.push(self.tiles[i].clone());
            i = i + 1;
        }
        let r = TerrainDataFrozenV1 {
            tile_resolution: self.tile_resolution,
            meters_per_sample: self.meters_per_sample,
            tiles,
        };
        proof {
            assert(r@.tiles =~= self@.tiles);
        }
        r
    }
}


/// A tile of files of version 15.
#[derive(Debug, PartialEq, Eq)]
pub struct TerrainTileV2 {
    pub coord: (i32, i32),
    pub base: Component,
    pub data_maps: Component,
}

impl View for TerrainTileV2 {
    type V = TileModel;

    open spec fn view(&self) -> TileModel {
        TileModel {
            coord: self.coord,
            base: self.base@,
            data_maps: self.data_maps@,
            biome_ids: Seq::empty(),
        }
    }
}

impl Clone for TerrainTileV2 {
    fn clone(&self) -> (r: Self)
        ensures
            r@ == self@,
    {
        TerrainTileV2 {
            coord: self.coord,
            base: self.base.clone(),
            data_maps: self.data_maps.clone(),
        }
    }
}

/// The heightfield of files of version 15.
#[derive(Debug, PartialEq, Eq)]
pub struct TerrainDataFrozenV2 {
    pub tile_resolution: u32,
    pub meters_per_sample: F64,
    pub tiles: Vec<TerrainTileV2>,
}

impl View for TerrainDataFrozenV2 {
    type V = TerrainDataModel;

    open spec fn view(&self) -> TerrainDataModel {
        TerrainDataModel {
            tile_resolution: self.tile_resolution,
            meters_per_sample: self.meters_per_sample,
            tiles: self.tiles@.map_values(|t: TerrainTileV2| t@),
        }
    }
}

impl Clone for TerrainDataFrozenV2 {
    fn clone(&self) -> (r: Self)
        ensures
            r@ == self@,
    {
        let mut tiles: Vec<TerrainTileV2> = Vec::new();
        let mut i: usize = 0;
        while i < self.tiles.len()
            invariant
                i <= self.tiles.len(),
                tiles.len() == i,
                forall|j: int| 0 <= j < i ==> (#[trigger] tiles@[j])@ == self.tiles@[j]@,
            decreases self.tiles.len() - i,
        {
            tiles.push(self.tiles[i].clone());
            i = i + 1;
        }
        let r = TerrainDataFrozenV2 {
            tile_resolution: self.tile_resolution,
            meters_per_sample: self.meters_per_sample,
            tiles,
        };
        proof {
            assert(r@.tiles =~= self@.tiles);
        }
        r
    }
}


/// A tile.
#[derive(Debug, PartialEq, Eq)]
pub struct TerrainTile {
    pub coord: (i32, i32),
    pub base: Component,
    pub data_maps: Component,
    pub biome_ids: Component,
}

impl View for TerrainTile {
    type V = TileModel;

    open spec fn view(&self) -> TileModel {
        TileModel {
            coord: self.coord,
            base: self.base@,
            data_maps: self.data_maps@,
            biome_ids: self.biome_ids@,
        }
    }
}

impl Clone for TerrainTile {
    fn clone(&self) -> (r: Self)
        ensures
            r@ == self@,
    {
        TerrainTile {
            coord: self.coord,
            base: self.base.clone(),
            data_maps: self.data_maps.clone(),
            biome_ids: self.biome_ids.clone(),
        }
    }
}

/// The heightfield.
#[derive(Debug, PartialEq, Eq)]
pub struct TerrainData {
    pub tile_resolution: u32,
    pub meters_per_sample: F64,
    pub tiles: Vec<TerrainTile>,
}

impl View for TerrainData {
    type V = TerrainDataModel;

    open spec fn view(&self) -> TerrainDataModel {
        TerrainDataModel {
            tile_resolution: self.tile_resolution,
            meters_per_sample: self.meters_per_sample,
            tiles: self.tiles@.map_values(|t: TerrainTile| t@),
        }
    }
}

impl Clone for TerrainData {
    fn clone(&self) -> (r: Self)
        ensures
            r@ == self@,
    {
        let mut tiles: Vec<TerrainTile> = Vec::new();
        let mut i: usize = 0;
        while i < self.tiles.len()
            invariant
                i <= self.tiles.len(),
                tiles.len() == i,
                forall|j: int| 0 <= j < i ==> (#[trigger] tiles@[j])@ == self.tiles@[j]@,
            decreases self.tiles.len() - i,
        {
            tiles.push(self.tiles[i].clone());
            i = i + 1;
        }
        let r = TerrainData {
            tile_resolution: self.tile_resolution,
            meters_per_sample: self.meters_per_sample,
            tiles,
        };
        proof {
            assert(r@.tiles =~= self@.tiles);
        }
        r
    }
}

impl TerrainDataFrozenV1 {
    /// Lift: the base layer stays, no data map was ever authored.
    pub fn into_v2(self) -> (r: TerrainDataFrozenV2)
        ensures
            r@ == self@,
    {
        let ghost whole = self@;
        let mut tiles: Vec<TerrainTileV2> = Vec::new();
        let tile_resolution = self.tile_resolution;
        let meters_per_sample = self.meters_per_sample;
        let source = self.tiles;
        for t in it: source
            invariant
                it.seq() == source@,
                tiles.len() == it.index(),
                forall|j: int| 0 <= j < tiles.len() ==> (#[trigger] tiles@[j])@ == source@[j]@,
        {
            tiles.push(TerrainTileV2 {
                coord: t.coord,
                base: t.base,
                data_maps: Component::none(),
            });
        }
        let r = TerrainDataFrozenV2 { tile_resolution: tile_resolution, meters_per_sample: meters_per_sample, tiles };
        proof {
            assert(r@.tiles =~= whole.tiles);
        }
        r
    }

    /// Lift to today's heightfield: no data maps, no biome ids.
    pub fn into_current(self) -> (r: TerrainData)
        ensures
            r@ == self@,
    {
        let ghost whole = self@;
        let mut tiles: Vec<TerrainTile> = Vec::new();
        let tile_resolution = self.tile_resolution;
        let meters_per_sample = self.meters_per_sample;
        let source = self.tiles;
        for t in it: source
            invariant
                it.seq() == source@,
                tiles.len() == it.index(),
                forall|j: int| 0 <= j < tiles.len() ==> (#[trigger] tiles@[j])@ == source@[j]@,
        {
            tiles.push(TerrainTile {
                coord: t.coord,
                base: t.base,
                data_maps: Component::none(),
                biome_ids: Component::none(),
            });
        }
        let r = TerrainData { tile_resolution: tile_resolution, meters_per_sample: meters_per_sample, tiles };
        proof {
            assert(r@.tiles =~= whole.tiles);
        }
        r
    }

    /// Project today's heightfield back: only the base layers have a place.
    pub fn from_current(live: &TerrainData) -> (r: TerrainDataFrozenV1)
        ensures
            r@ == live@.base_only(),
    {
        let mut tiles: Vec<TerrainTileV1> = Vec::new();
        let mut i: usize = 0;
        while i < live.tiles.len()
            invariant
                i <= live.tiles.len(),
                tiles.len() == i,
                forall|j: int| 0 <= j < i ==> (#[trigger] tiles@[j])@ == live.tiles@[j]@.base_only(),
            decreases live.tiles.len() - i,
        {
            tiles.push(TerrainTileV1 {
                coord: live.tiles[i].coord,
                base: live.tiles[i].base.clone(),
            });
            i = i + 1;
        }
        let r = TerrainDataFrozenV1 { tile_resolution: live.tile_resolution, meters_per_sample: live.meters_per_sample, tiles };
        proof {
            assert(r@.tiles =~= live@.base_only().tiles);
        }
        r
    }

}

impl TerrainDataFrozenV2 {
    /// Lift to today's heightfield: no biome was ever painted.
    pub fn into_current(self) -> (r: TerrainData)
        ensures
            r@ == self@,
    {
        let ghost whole = self@;
        let mut tiles: Vec<TerrainTile> = Vec::new();
        let tile_resolution = self.tile_resolution;
        let meters_per_sample = self.meters_per_sample;
        let source = self.tiles;
        for t in it: source
            invariant
                it.seq() == source@,
                tiles.len() == it.index(),
                forall|j: int| 0 <= j < tiles.len() ==> (#[trigger] tiles@[j])@ == source@[j]@,
        {
            tiles.push(TerrainTile {
                coord: t.coord,
                base: t.base,
                data_maps: t.data_maps,
                biome_ids: Component::none(),
            });
        }
        let r = TerrainData { tile_resolution: tile_resolution, meters_per_sample: meters_per_sample, tiles };
        proof {
            assert(r@.tiles =~= whole.tiles);
        }
        r
    }

    /// Project today's heightfield back: the biome ids have no place.
    pub fn from_current(live: &TerrainData) -> (r: TerrainDataFrozenV2)
        ensures
            r@ == live@.without_biomes(),
    {
        let mut tiles: Vec<TerrainTileV2> = Vec::new();
        let mut i: usize = 0;
        while i < live.tiles.len()
            invariant
                i <= live.tiles.len(),
                tiles.len() == i,
                forall|j: int| 0 <= j < i ==> (#[trigger] tiles@[j])@ == live.tiles@[j]@.without_biomes(),
            decreases live.tiles.len() - i,
        {
            tiles.push(TerrainTileV2 {
                coord: live.tiles[i].coord,
                base: live.tiles[i].base.clone(),
                data_maps: live.tiles[i].data_maps.clone(),
            });
            i = i + 1;
        }
        let r = TerrainDataFrozenV2 { tile_resolution: live.tile_resolution, meters_per_sample: live.meters_per_sample, tiles };
        proof {
            assert(r@.tiles =~= live@.without_biomes().tiles);
        }
        r
    }

}

impl TerrainData {
    /// A heightfield without tiles.
    pub fn new(tile_resolution: u32, meters_per_sample: F64) -> (r: TerrainData)
        ensures
            r@ == TerrainDataModel::bare(tile_resolution, meters_per_sample),
    {
        let r = TerrainData { tile_resolution, meters_per_sample, tiles: Vec::new() };
        proof {
            assert(r@.tiles =~= Seq::<TileModel>::empty());
        }
        r
    }

    pub fn is_empty(&self) -> (r: bool)
        ensures
            r == (self@.tiles.len() == 0),
    {
        self.tiles.len() == 0
    }
}

/// The bits of 0.15.
pub const F64_0_15: u64 = 0x3fc3_3333_3333_3333;

/// The macro variation of a terrain that names none.
pub fn default_macro_variation() -> (r: F64)
    ensures
        r.bits == F64_0_15,
{
    F64 { bits: F64_0_15 }
}

/// The terrain component of versions 4 to 8 of the file.
#[derive(Debug, PartialEq, Eq)]
pub struct TerrainV8 {
    pub meters_per_sample: F64,
    pub tile_resolution: u32,
    pub data: TerrainDataFrozenV1,
    pub layers: Component,
    pub macro_variation: F64,
}

impl View for TerrainV8 {
    type V = TerrainModel;

    open spec fn view(&self) -> TerrainModel {
        TerrainModel {
            meters_per_sample: self.meters_per_sample,
            tile_resolution: self.tile_resolution,
            data: self.data@,
            layers: self.layers@,
            macro_variation: self.macro_variation,
            asset: None,
            biome_set: None,
            biome_population: Seq::empty(),
        }
    }
}

impl Clone for TerrainV8 {
    fn clone(&self) -> (r: Self)
        ensures
            r@ == self@,
    {
        TerrainV8 {
            meters_per_sample: self.meters_per_sample,
            tile_resolution: self.tile_resolution,
            data: self.data.clone(),
            layers: self.layers.clone(),
            macro_variation: self.macro_variation,
        }
    }
}

/// The terrain component of versions 9 to 14 of the file.
#[derive(Debug, PartialEq, Eq)]
pub struct TerrainV14 {
    pub meters_per_sample: F64,
    pub tile_resolution: u32,
    pub data: TerrainDataFrozenV1,
    pub layers: Component,
    pub macro_variation: F64,
    pub asset: Option<Guid>,
}

impl View for TerrainV14 {
    type V = TerrainModel;

    open spec fn view(&self) -> TerrainModel {
        TerrainModel {
            meters_per_sample: self.meters_per_sample,
            tile_resolution: self.tile_resolution,
            data: self.data@,
            layers: self.layers@,
            macro_variation: self.macro_variation,
            asset: self.asset,
            biome_set: None,
            biome_population: Seq::empty(),
        }
    }
}

impl Clone for TerrainV14 {
    fn clone(&self) -> (r: Self)
        ensures
            r@ == self@,
    {
        TerrainV14 {
            meters_per_sample: self.meters_per_sample,
            tile_resolution: self.tile_resolution,
            data: self.data.clone(),
            layers: self.layers.clone(),
            macro_variation: self.macro_variation,
            asset: self.asset,
        }
    }
}

/// The terrain component of version 15 of the file.
#[derive(Debug, PartialEq, Eq)]
pub struct TerrainV15 {
    pub meters_per_sample: F64,
    pub tile_resolution: u32,
    pub data: TerrainDataFrozenV2,
    pub layers: Component,
    pub macro_variation: F64,
    pub asset: Option<Guid>,
}

impl View for TerrainV15 {
    type V = TerrainModel;

    open spec fn view(&self) -> TerrainModel {
        TerrainModel {
            meters_per_sample: self.meters_per_sample,
            tile_resolution: self.tile_resolution,
            data: self.data@,
            layers: self.layers@,
            macro_variation: self.macro_variation,
            asset: self.asset,
            biome_set: None,
            biome_population: Seq::empty(),
        }
    }
}

impl Clone for TerrainV15 {
    fn clone(&self) -> (r: Self)
        ensures
            r@ == self@,
    {
        TerrainV15 {
            meters_per_sample: self.meters_per_sample,
            tile_resolution: self.tile_resolution,
            data: self.data.clone(),
            layers: self.layers.clone(),
            macro_variation: self.macro_variation,
            asset: self.asset,
        }
    }
}

/// The terrain component.
#[derive(Debug, PartialEq, Eq)]
pub struct Terrain {
    pub meters_per_sample: F64,
    pub tile_resolution: u32,
    pub data: TerrainData,
    pub layers: Component,
    pub macro_variation: F64,
    pub asset: Option<Guid>,
    pub biome_set: Option<Guid>,
    pub biome_population: Vec<Component>,
}

impl View for Terrain {
    type V = TerrainModel;

    open spec fn view(&self) -> TerrainModel {
        TerrainModel {
            meters_per_sample: self.meters_per_sample,
            tile_resolution: self.tile_resolution,
            data: self.data@,
            layers: self.layers@,
            macro_variation: self.macro_variation,
            asset: self.asset,
            biome_set: self.biome_set,
            biome_population: blobs(self.biome_population@),
        }
    }
}

impl Clone for Terrain {
    fn clone(&self) -> (r: Self)
        ensures
            r@ == self@,
    {
        Terrain {
            meters_per_sample: self.meters_per_sample,
            tile_resolution: self.tile_resolution,
            data: self.data.clone(),
            layers: self.layers.clone(),
            macro_variation: self.macro_variation,
            asset: self.asset,
            biome_set: self.biome_set,
            biome_population: clone_list(&self.biome_population),
        }
    }
}

impl TerrainV8 {
    /// What the terrain means today: inline, with empty layers above the base.
    pub fn into_current(self) -> (r: Terrain)
        ensures
            r@ == self@,
    {
        let r = Terrain {
            meters_per_sample: self.meters_per_sample,
            tile_resolution: self.tile_resolution,
            data: self.data.into_current(),
            layers: self.layers,
            macro_variation: self.macro_variation,
            asset: None,
            biome_set: None,
            biome_population: Vec::new(),
        };
        proof {
            assert(r@.biome_population =~= Seq::<Seq<u8>>::empty());
        }
        r
    }

    /// Lift to the layout with an asset reference, which names none.
    pub fn into_v14(self) -> (r: TerrainV14)
        ensures
            r@ == self@,
    {
        let r = TerrainV14 {
            meters_per_sample: self.meters_per_sample,
            tile_resolution: self.tile_resolution,
            data: self.data,
            layers: self.layers,
            macro_variation: self.macro_variation,
            asset: None,
        };
        r
    }

    /// Project today's terrain back onto this layout; what has no place in it
    /// is dropped.
    pub fn from_current(t: Terrain) -> (r: TerrainV8)
        ensures
            r@ == t@.as_of_v8(),
    {
        TerrainV8 {
            meters_per_sample: t.meters_per_sample,
            tile_resolution: t.tile_resolution,
            data: TerrainDataFrozenV1::from_current(&t.data),
            layers: t.layers,
            macro_variation: t.macro_variation,
        }
    }
}

impl TerrainV14 {
    /// What the terrain means today.
    pub fn into_current(self) -> (r: Terrain)
        ensures
            r@ == self@,
    {
        let r = Terrain {
            meters_per_sample: self.meters_per_sample,
            tile_resolution: self.tile_resolution,
            data: self.data.into_current(),
            layers: self.layers,
            macro_variation: self.macro_variation,
            asset: self.asset,
            biome_set: None,
            biome_population: Vec::new(),
        };
        proof {
            assert(r@.biome_population =~= Seq::<Seq<u8>>::empty());
        }
        r
    }

    /// Lift to the layout with data maps, which are empty.
    pub fn into_v15(self) -> (r: TerrainV15)
        ensures
            r@ == self@,
    {
        let r = TerrainV15 {
            meters_per_sample: self.meters_per_sample,
            tile_resolution: self.tile_resolution,
            data: self.data.into_v2(),
            layers: self.layers,
            macro_variation: self.macro_variation,
            asset: self.asset,
        };
        r
    }

    /// Project today's terrain back onto this layout; what has no place in it
    /// is dropped.
    pub fn from_current(t: Terrain) -> (r: TerrainV14)
        ensures
            r@ == t@.as_of_v14(),
    {
        TerrainV14 {
            meters_per_sample: t.meters_per_sample,
            tile_resolution: t.tile_resolution,
            data: TerrainDataFrozenV1::from_current(&t.data),
            layers: t.layers,
            macro_variation: t.macro_variation,
            asset: t.asset,
        }
    }
}

impl TerrainV15 {
    /// What the terrain means today: no biome was painted.
    pub fn into_current(self) -> (r: Terrain)
        ensures
            r@ == self@,
    {
        let r = Terrain {
            meters_per_sample: self.meters_per_sample,
            tile_resolution: self.tile_resolution,
            data: self.data.into_current(),
            layers: self.layers,
            macro_variation: self.macro_variation,
            asset: self.asset,
            biome_set: None,
            biome_population: Vec::new(),
        };
        proof {
            assert(r@.biome_population =~= Seq::<Seq<u8>>::empty());
        }
        r
    }

    /// Project today's terrain back onto this layout; what has no place in it
    /// is dropped.
    pub fn from_current(t: Terrain) -> (r: TerrainV15)
        ensures
            r@ == t@.as_of_v15(),
    {
        TerrainV15 {
            meters_per_sample: t.meters_per_sample,
            tile_resolution: t.tile_resolution,
            data: TerrainDataFrozenV2::from_current(&t.data),
            layers: t.layers,
            macro_variation: t.macro_variation,
            asset: t.asset,
        }
    }
}

/// The meaning of a filled terrain slot; one for each layout.
pub open spec fn terrain_v8(t: Option<TerrainV8>) -> Option<TerrainModel> {
    match t {
        Some(t) => Some(t@),
        None => None,
    }
}

pub open spec fn terrain_v14(t: Option<TerrainV14>) -> Option<TerrainModel> {
    match t {
        Some(t) => Some(t@),
        None => None,
    }
}

pub open spec fn terrain_v15(t: Option<TerrainV15>) -> Option<TerrainModel> {
    match t {
        Some(t) => Some(t@),
        None => None,
    }
}

pub open spec fn terrain_now(t: Option<Terrain>) -> Option<TerrainModel> {
    match t {
        Some(t) => Some(t@),
        None => None,
    }
}

/// A projection is settled by one application, and an older layout holds no
/// more than a newer one.
pub proof fn law_terrain_projections_nest(t: TerrainModel)
    ensures
        t.as_of_v15().as_of_v15() == t.as_of_v15(),
        t.as_of_v14().as_of_v14() == t.as_of_v14(),
        t.as_of_v8().as_of_v8() == t.as_of_v8(),
        t.as_of_v15().as_of_v14() == t.as_of_v14(),
        t.as_of_v14().as_of_v8() == t.as_of_v8(),
{
    assert(t.as_of_v15().as_of_v15().data.tiles =~= t.as_of_v15().data.tiles);
    assert(t.as_of_v14().as_of_v14().data.tiles =~= t.as_of_v14().data.tiles);
    assert(t.as_of_v8().as_of_v8().data.tiles =~= t.as_of_v8().data.tiles);
    assert(t.as_of_v15().as_of_v14().data.tiles =~= t.as_of_v14().data.tiles);
    assert(t.as_of_v14().as_of_v8().data.tiles =~= t.as_of_v8().data.tiles);
}

/// A terrain with no data maps, no biomes and no biome set survives the way
/// back to version 14 unchanged; one without biomes survives it to version 15.
pub proof fn law_terrain_projection_is_lossless_on_what_fits(t: TerrainModel)
    requires
        t.biome_set is None,
        t.biome_population.len() == 0,
        forall|i: int| 0 <= i < t.data.tiles.len() ==> (#[trigger] t.data.tiles[i]).biome_ids.len() == 0,
    ensures
        t.as_of_v15() == t,
        (forall|i: int|
            0 <= i < t.data.tiles.len() ==> (#[trigger] t.data.tiles[i]).data_maps.len() == 0)
            ==> t.as_of_v14() == t,
{
    assert(t.biome_population =~= Seq::<Seq<u8>>::empty());
    assert forall|i: int| 0 <= i < t.data.tiles.len() implies (#[trigger] t.data.tiles[i]).without_biomes()
        == t.data.tiles[i] by {
        assert(t.data.tiles[i].biome_ids =~= Seq::<u8>::empty());
    }
    assert(t.as_of_v15().data.tiles =~= t.data.tiles);
    if forall|i: int| 0 <= i < t.data.tiles.len() ==> (#[trigger] t.data.tiles[i]).data_maps.len() == 0 {
        assert forall|i: int| 0 <= i < t.data.tiles.len() implies (#[trigger] t.data.tiles[i]).base_only()
            == t.data.tiles[i] by {
            assert(t.data.tiles[i].biome_ids =~= Seq::<u8>::empty());
            assert(t.data.tiles[i].data_maps =~= Seq::<u8>::empty());
        }
        assert(t.as_of_v14().data.tiles =~= t.data.tiles);
    }
}

} // verus!
