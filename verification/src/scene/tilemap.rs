//! Tilemaps and their projection for the paint panel.

use crate::bits::F64;
use crate::guid::{hyphenated, Guid};
use crate::scene::component::{Component, Vec2d};
use crate::scene::doc::{find, SceneDoc};
use crate::scene::entity::EntityModel;
use vstd::prelude::*;

verus! {

/// One square of a tilemap: its place in the grid of chunks and its tiles, row
/// by row. Tile 0 is the empty one.
#[derive(Debug, PartialEq, Eq)]
pub struct TileChunk {
    pub coord: (i32, i32),
    pub tiles: Vec<u32>,
}

/// What a chunk holds.
pub struct ChunkModel {
    pub coord: (i32, i32),
    pub tiles: Seq<u32>,
}

impl View for TileChunk {
    type V = ChunkModel;

    open spec fn view(&self) -> ChunkModel {
        ChunkModel { coord: self.coord, tiles: self.tiles@ }
    }
}

impl Clone for TileChunk {
    fn clone(&self) -> (r: Self)
        ensures
            r@ == self@,
    {
        let mut tiles: Vec<u32> = Vec::new();
        let mut i: usize = 0;
        while i < self.tiles.len()
            invariant
                i <= self.tiles.len(),
                tiles@ == self.tiles@.take(i as int),
            decreases self.tiles.len() - i,
        {
            tiles.push(self.tiles[i]);
            i = i + 1;
        }
        proof {
            assert(tiles@ =~= self.tiles@);
        }
        TileChunk { coord: self.coord, tiles }
    }
}

/// A tilemap: the chunks that hold a painted cell, in their order, each
/// `chunk_dim` cells wide and high. What only the renderer reads is `style`.
#[derive(Debug, PartialEq, Eq)]
pub struct Tilemap {
    pub texture: Option<Guid>,
    pub tile_size: Vec2d,
    pub atlas_cols: u32,
    pub atlas_rows: u32,
    pub chunk_dim: i32,
    pub chunks: Vec<TileChunk>,
    pub style: Component,
}

/// What a tilemap holds.
pub struct TilemapModel {
    pub texture: Option<Guid>,
    pub tile_size: Vec2d,
    pub atlas_cols: u32,
    pub atlas_rows: u32,
    pub chunk_dim: i32,
    pub chunks: Seq<ChunkModel>,
    pub style: Seq<u8>,
}

impl View for Tilemap {
    type V = TilemapModel;

    open spec fn view(&self) -> TilemapModel {
        TilemapModel {
            texture: self.texture,
            tile_size: self.tile_size,
            atlas_cols: self.atlas_cols,
            atlas_rows: self.atlas_rows,
            chunk_dim: self.chunk_dim,
            chunks: self.chunks@.map_values(|c: TileChunk| c@),
            style: self.style@,
        }
    }
}

impl Clone for Tilemap {
    fn clone(&self) -> (r: Self)
        ensures
            r@ == self@,
    {
        let mut chunks: Vec<TileChunk> = Vec::new();
        let mut i: usize = 0;
        while i < self.chunks.len()
            invariant
                i <= self.chunks.len(),
                chunks.len() == i,
                forall|j: int| 0 <= j < i ==> (#[trigger] chunks@[j])@ == self.chunks@[j]@,
            decreases self.chunks.len() - i,
        {
            chunks.push(self.chunks[i].clone());
            i = i + 1;
        }
        let r = Tilemap {
            texture: self.texture,
            tile_size: self.tile_size,
            atlas_cols: self.atlas_cols,
            atlas_rows: self.atlas_rows,
            chunk_dim: self.chunk_dim,
            chunks,
            style: self.style.clone(),
        };
        proof {
            assert(r@.chunks =~= self@.chunks);
        }
        r
    }
}

/// The meaning of a filled tilemap slot.
pub open spec fn tilemap_now(t: Option<Tilemap>) -> Option<TilemapModel> {
    match t {
        Some(t) => Some(t@),
        None => None,
    }
}

// ---------------------------------------------------------------- projection

/// One painted cell.
#[derive(Clone, Copy, Debug, PartialEq, Eq, Structural)]
pub struct TilemapCellDto {
    pub x: i32,
    pub y: i32,
    pub tile: u32,
}

/// What the paint panel shows of a tilemap.
#[derive(Debug, PartialEq, Eq)]
pub struct TilemapDto {
    pub entity: String,
    pub texture: Option<String>,
    pub tile_width: F64,
    pub tile_height: F64,
    pub atlas_cols: u32,
    pub atlas_rows: u32,
    pub palette_cols: u32,
    pub palette_rows: u32,
    pub cells: Vec<TilemapCellDto>,
}

impl ChunkModel {
    /// The tile at a place within the chunk.
    pub open spec fn at(self, dim: int, lx: int, ly: int) -> u32 {
        self.tiles[ly * dim + lx]
    }

    /// The cell at a place within the chunk.
    pub open spec fn cell(self, dim: int, lx: int, ly: int) -> TilemapCellDto {
        TilemapCellDto {
            x: (self.coord.0 * dim + lx) as i32,
            y: (self.coord.1 * dim + ly) as i32,
            tile: self.at(dim, lx, ly),
        }
    }

    /// A full square whose cells have coordinates.
    pub open spec fn fits(self, dim: int) -> bool {
        &&& self.tiles.len() == dim * dim
        &&& i32::MIN <= self.coord.0 * dim && self.coord.0 * dim + dim - 1 <= i32::MAX
        &&& i32::MIN <= self.coord.1 * dim && self.coord.1 * dim + dim - 1 <= i32::MAX
    }

    /// The painted ones of the first `n` cells of a row.
    pub open spec fn row_cells(self, dim: int, ly: int, n: int) -> Seq<TilemapCellDto>
        decreases n,
    {
        if n <= 0 {
            Seq::empty()
        } else if self.at(dim, n - 1, ly) != 0 {
            self.row_cells(dim, ly, n - 1).push(self.cell(dim, n - 1, ly))
        } else {
            self.row_cells(dim, ly, n - 1)
        }
    }

    /// The painted cells of the first `n` rows.
    pub open spec fn cells(self, dim: int, n: int) -> Seq<TilemapCellDto>
        decreases n,
    {
        if n <= 0 {
            Seq::empty()
        } else {
            self.cells(dim, n - 1) + self.row_cells(dim, n - 1, dim)
        }
    }
}

/// The painted cells of the first `n` chunks.
pub open spec fn chunk_cells(chunks: Seq<ChunkModel>, dim: int, n: int) -> Seq<TilemapCellDto>
    decreases n,
{
    if n <= 0 {
        Seq::empty()
    } else {
        chunk_cells(chunks, dim, n - 1) + chunks[n - 1].cells(dim, dim)
    }
}

impl TilemapModel {
    /// Every chunk is a full square whose cells have coordinates.
    pub open spec fn fits(self) -> bool {
        &&& self.chunk_dim >= 0
        &&& forall|i: int|
            0 <= i < self.chunks.len() ==> (#[trigger] self.chunks[i]).fits(self.chunk_dim as int)
    }

    /// The painted cells, chunk by chunk and row by row.
    pub open spec fn painted(self) -> Seq<TilemapCellDto> {
        chunk_cells(self.chunks, self.chunk_dim as int, self.chunks.len() as int)
    }
}

/// The tilemap of an entity.
pub open spec fn tilemap_of(entities: Seq<EntityModel>, guid: Guid) -> Option<TilemapModel> {
    let i = find(entities, guid);
    if i < entities.len() {
        entities[i as int].parts.tilemap
    } else {
        None
    }
}

/// A number of columns or rows: at least one.
pub open spec fn at_least_one(n: u32) -> u32 {
    if n == 0 {
        1
    } else {
        n
    }
}

/// What the paint panel shows of a tilemap.
pub open spec fn shows(dto: TilemapDto, guid: Guid, tm: TilemapModel) -> bool {
    &&& dto.entity@ == hyphenated(guid.value)
    &&& match tm.texture {
        Some(t) => dto.texture matches Some(text) && text@ == hyphenated(t.value),
        None => dto.texture is None,
    }
    &&& dto.tile_width == tm.tile_size.x
    &&& dto.tile_height == tm.tile_size.y
    &&& dto.atlas_cols == at_least_one(tm.atlas_cols)
    &&& dto.atlas_rows == at_least_one(tm.atlas_rows)
    &&& dto.palette_cols == dto.atlas_cols
    &&& dto.palette_rows == dto.atlas_rows
    &&& dto.cells@ == tm.painted()
}

impl TileChunk {
    /// Append the painted cells of a row.
    fn push_row(&self, dim: i32, ly: i32, cells: &mut Vec<TilemapCellDto>)
        requires
            0 <= ly < dim,
            self@.fits(dim as int),
        ensures
            final(cells)@ == old(cells)@ + self@.row_cells(dim as int, ly as int, dim as int),
    {
        let ghost before = cells@;
        let mut lx: i32 = 0;
        proof {
            assert(cells@ =~= before + self@.row_cells(dim as int, ly as int, 0));
        }
        while lx < dim
            invariant
                0 <= lx <= dim,
                0 <= ly < dim,
                self@.fits(dim as int),
                cells@ == before + self@.row_cells(dim as int, ly as int, lx as int),
            decreases dim - lx,
        {
            proof {
                lemma_place(dim as int, lx as int, ly as int);
                lemma_place_bounds(self@, dim as int, lx as int, ly as int);
                assert(dim * dim == self.tiles.len());
            }
            let place: usize = ly as usize * dim as usize + lx as usize;
            let tile = self.tiles[place];
            if tile != 0 {
                let x: i32 = self.coord.0 * dim + lx;
                let y: i32 = self.coord.1 * dim + ly;
                cells.push(TilemapCellDto { x, y, tile });
            }
            proof {
                assert(cells@ =~= before + self@.row_cells(dim as int, ly as int, lx + 1));
            }
            lx = lx + 1;
        }
    }
}

/// A place of a square lies in it.
proof fn lemma_place(dim: int, lx: int, ly: int)
    requires
        0 <= lx < dim,
        0 <= ly < dim,
    ensures
        0 <= ly * dim,
        0 <= ly * dim + lx < dim * dim,
{
    assert(0 <= ly * dim && ly * dim + dim <= dim * dim) by (nonlinear_arith)
        requires
            0 <= ly < dim,
    ;
}

proof fn lemma_place_bounds(c: ChunkModel, dim: int, lx: int, ly: int)
    requires
        c.fits(dim),
        0 <= lx < dim,
        0 <= ly < dim,
    ensures
        i32::MIN <= c.coord.0 * dim <= i32::MAX,
        i32::MIN <= c.coord.1 * dim <= i32::MAX,
        i32::MIN <= c.coord.0 * dim + lx <= i32::MAX,
        i32::MIN <= c.coord.1 * dim + ly <= i32::MAX,
{
}

/// Whether a chunk of that coordinate has only cells with coordinates.
fn is_reachable(c: i32, dim: i32) -> (r: bool)
    requires
        dim >= 0,
    ensures
        r == (i32::MIN <= c * dim && c * dim + dim - 1 <= i32::MAX),
{
    let low = c as i64;
    let side = dim as i64;
    assert(-0x4000_0000_0000_0000 <= low * side <= 0x4000_0000_0000_0000) by (nonlinear_arith)
        requires
            -0x8000_0000 <= low <= 0x7fff_ffff,
            0 <= side <= 0x7fff_ffff,
    ;
    let first: i64 = low * side;
    -0x8000_0000i64 <= first && first + side - 1 <= 0x7fff_ffffi64
}

impl Tilemap {
    /// Whether every chunk is a full square whose cells have coordinates.
    pub fn is_fit(&self) -> (r: bool)
        ensures
            r == self@.fits(),
    {
        let dim = self.chunk_dim;
        if dim < 0 {
            return false;
        }
        let side = dim as usize;
        let mut i: usize = 0;
        while i < self.chunks.len()
            invariant
                dim == self.chunk_dim,
                dim >= 0,
                side == dim,
                i <= self.chunks.len(),
                forall|j: int| 0 <= j < i ==> (#[trigger] self@.chunks[j]).fits(dim as int),
            decreases self.chunks.len() - i,
        {
            assert(self@.chunks[i as int] == self.chunks@[i as int]@);
            let chunk = &self.chunks[i];
            let places = chunk.tiles.len();
            let full = match side.checked_mul(side) {
                Some(n) => places == n,
                None => false,
            };
            assert(side * side == dim * dim);
            assert(chunk@.tiles.len() == places);
            if !full || !is_reachable(chunk.coord.0, dim) || !is_reachable(chunk.coord.1, dim) {
                assert(!self@.chunks[i as int].fits(dim as int));
                return false;
            }
            i = i + 1;
        }
        true
    }
}

/// What the paint panel shows of an entity's tilemap; nothing where it has none.
pub fn build_dto(doc: &SceneDoc, guid: Guid) -> (r: Option<TilemapDto>)
    requires
        tilemap_of(doc@.entities, guid) matches Some(tm) ==> tm.fits(),
    ensures
        match tilemap_of(doc@.entities, guid) {
            Some(tm) => r matches Some(dto) && shows(dto, guid, tm),
            None => r is None,
        },
{
    let at = doc.index_of(guid);
    if at >= doc.entities.len() {
        return None;
    }
    assert(doc@.entities[at as int] == doc.entities@[at as int]@);
    let tm = match &doc.entities[at].parts.tilemap {
        Some(tm) => tm,
        None => {
            return None;
        },
    };
    let dim = tm.chunk_dim;
    let mut cells: Vec<TilemapCellDto> = Vec::new();
    let mut i: usize = 0;
    proof {
        assert(cells@ =~= chunk_cells(tm@.chunks, dim as int, 0));
    }
    while i < tm.chunks.len()
        invariant
            i <= tm.chunks.len(),
            dim == tm.chunk_dim,
            tm@.fits(),
            cells@ == chunk_cells(tm@.chunks, dim as int, i as int),
        decreases tm.chunks.len() - i,
    {
        let ghost before = cells@;
        let chunk = &tm.chunks[i];
        assert(tm@.chunks[i as int] == chunk@);
        let mut ly: i32 = 0;
        proof {
            assert(cells@ =~= before + chunk@.cells(dim as int, 0));
        }
        while ly < dim
            invariant
                0 <= ly <= dim,
                chunk@.fits(dim as int),
                cells@ == before + chunk@.cells(dim as int, ly as int),
            decreases dim - ly,
        {
            chunk.push_row(dim, ly, &mut cells);
            proof {
                assert(cells@ =~= before + chunk@.cells(dim as int, ly + 1));
            }
            ly = ly + 1;
        }
        i = i + 1;
    }
    let atlas_cols = if tm.atlas_cols == 0 {
        1u32
    } else {
        tm.atlas_cols
    };
    let atlas_rows = if tm.atlas_rows == 0 {
        1u32
    } else {
        tm.atlas_rows
    };
    Some(
        TilemapDto {
            entity: guid.text(),
            texture: match &tm.texture {
                Some(t) => Some(t.text()),
                None => None,
            },
            tile_width: tm.tile_size.x,
            tile_height: tm.tile_size.y,
            atlas_cols,
            atlas_rows,
            palette_cols: atlas_cols,
            palette_rows: atlas_rows,
            cells,
        },
    )
}

// ---------------------------------------------------------------- laws

/// The panel is shown exactly the painted cells: a cell is in the list where
/// some chunk holds a tile there that is not the empty one, and nowhere else.
pub proof fn law_shown_cells_are_the_painted_ones(tm: TilemapModel, c: TilemapCellDto)
    ensures
        tm.painted().contains(c) <==> exists|k: int, lx: int, ly: int|
            {
                &&& 0 <= k < tm.chunks.len()
                &&& 0 <= lx < tm.chunk_dim
                &&& 0 <= ly < tm.chunk_dim
                &&& #[trigger] tm.chunks[k].at(tm.chunk_dim as int, lx, ly) != 0
                &&& c == tm.chunks[k].cell(tm.chunk_dim as int, lx, ly)
            },
{
    let dim = tm.chunk_dim as int;
    lemma_chunk_cells(tm.chunks, dim, tm.chunks.len() as int, c);
}

proof fn lemma_row_cells(m: ChunkModel, dim: int, ly: int, n: int, c: TilemapCellDto)
    ensures
        m.row_cells(dim, ly, n).contains(c) <==> exists|lx: int|
            0 <= lx < n && #[trigger] m.at(dim, lx, ly) != 0 && c == m.cell(dim, lx, ly),
    decreases n,
{
    if n > 0 {
        lemma_row_cells(m, dim, ly, n - 1, c);
        let prev = m.row_cells(dim, ly, n - 1);
        let now = m.row_cells(dim, ly, n);
        if m.at(dim, n - 1, ly) != 0 {
            let last = m.cell(dim, n - 1, ly);
            assert(now == prev.push(last));
            assert(now[prev.len() as int] == last);
            if prev.contains(c) {
                let i = prev.index_of(c);
                assert(now[i] == c);
            }
            if now.contains(c) && c != last {
                let i = now.index_of(c);
                assert(prev[i] == c);
            }
        }
    }
}

proof fn lemma_in_sum(a: Seq<TilemapCellDto>, b: Seq<TilemapCellDto>, c: TilemapCellDto)
    ensures
        (a + b).contains(c) <==> a.contains(c) || b.contains(c),
{
    if a.contains(c) {
        assert((a + b)[a.index_of(c)] == c);
    }
    if b.contains(c) {
        assert((a + b)[a.len() + b.index_of(c)] == c);
    }
    if (a + b).contains(c) {
        let i = (a + b).index_of(c);
        if i < a.len() {
            assert(a[i] == c);
        } else {
            assert(b[i - a.len()] == c);
        }
    }
}

proof fn lemma_cells(m: ChunkModel, dim: int, n: int, c: TilemapCellDto)
    ensures
        m.cells(dim, n).contains(c) <==> exists|lx: int, ly: int|
            0 <= lx < dim && 0 <= ly < n && #[trigger] m.at(dim, lx, ly) != 0 && c == m.cell(
                dim,
                lx,
                ly,
            ),
    decreases n,
{
    if n > 0 {
        lemma_cells(m, dim, n - 1, c);
        lemma_row_cells(m, dim, n - 1, dim, c);
        lemma_in_sum(m.cells(dim, n - 1), m.row_cells(dim, n - 1, dim), c);
    }
}

proof fn lemma_chunk_cells(chunks: Seq<ChunkModel>, dim: int, n: int, c: TilemapCellDto)
    requires
        n <= chunks.len(),
    ensures
        chunk_cells(chunks, dim, n).contains(c) <==> exists|k: int, lx: int, ly: int|
            {
                &&& 0 <= k < n
                &&& 0 <= lx < dim
                &&& 0 <= ly < dim
                &&& #[trigger] chunks[k].at(dim, lx, ly) != 0
                &&& c == chunks[k].cell(dim, lx, ly)
            },
    decreases n,
{
    if n > 0 {
        lemma_chunk_cells(chunks, dim, n - 1, c);
        lemma_cells(chunks[n - 1], dim, dim, c);
        lemma_in_sum(chunk_cells(chunks, dim, n - 1), chunks[n - 1].cells(dim, dim), c);
    }
}

/// What the panel shows of a tilemap beside its cells: the tile sizes and the columns
/// and rows of the atlas, each at least one, and the palette laid out like the atlas.
pub proof fn law_the_panel_shows_the_atlas(dto: TilemapDto, guid: Guid, tm: Tilemap)
    requires
        shows(dto, guid, tm@),
    ensures
        dto.entity@ == hyphenated(guid.value),
        dto.texture is Some <==> tm.texture is Some,
        tm.texture matches Some(t) ==> dto.texture->0@ == hyphenated(t.value),
        dto.tile_width == tm.tile_size.x,
        dto.tile_height == tm.tile_size.y,
        tm.atlas_cols > 0 ==> dto.atlas_cols == tm.atlas_cols,
        tm.atlas_cols == 0 ==> dto.atlas_cols == 1,
        tm.atlas_rows > 0 ==> dto.atlas_rows == tm.atlas_rows,
        tm.atlas_rows == 0 ==> dto.atlas_rows == 1,
        dto.palette_cols == dto.atlas_cols,
        dto.palette_rows == dto.atlas_rows,
{
}

} // verus!
