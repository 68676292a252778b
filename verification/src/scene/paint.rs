//! Painting tiles.
//!
//! A tilemap keeps only the chunks that hold a painted cell, in the order of
//! their coordinates, so that a stroke that is taken back leaves the very map
//! that was there before it.

use crate::guid::Guid;
use crate::scene::doc::{changed, lemma_change_keeps_shape, models, DocModel, SceneDoc};
use crate::scene::entity::{Entity, EntityModel};
use crate::scene::record::PartsModel;
use crate::scene::tilemap::{
    law_shown_cells_are_the_painted_ones, ChunkModel, TileChunk, Tilemap, TilemapCellDto, TilemapModel,
};
use vstd::prelude::*;

verus! {

// ---------------------------------------------------------------- cells

/// The order of chunks: by column, then by row.
pub open spec fn chunk_below(a: (i32, i32), b: (i32, i32)) -> bool {
    a.0 < b.0 || (a.0 == b.0 && a.1 < b.1)
}

/// The number of leading chunks that come before a coordinate.
pub open spec fn chunks_before(chunks: Seq<ChunkModel>, c: (i32, i32)) -> nat
    decreases chunks.len(),
{
    if chunks.len() == 0 || !chunk_below(chunks[0].coord, c) {
        0
    } else {
        1 + chunks_before(chunks.drop_first(), c)
    }
}

/// Whether there is a chunk of that coordinate, where the order puts it.
pub open spec fn has_chunk(chunks: Seq<ChunkModel>, c: (i32, i32)) -> bool {
    let i = chunks_before(chunks, c);
    i < chunks.len() && chunks[i as int].coord == c
}

/// The coordinate of the chunk that a cell lies in.
pub open spec fn chunk_of(dim: int, x: i32, y: i32) -> (i32, i32) {
    ((x as int / dim) as i32, (y as int / dim) as i32)
}

/// The place of a cell within its chunk, row by row.
pub open spec fn place_of(dim: int, x: i32, y: i32) -> int {
    (y as int % dim) * dim + (x as int % dim)
}

/// Whether no cell is painted.
pub open spec fn blank(tiles: Seq<u32>) -> bool {
    forall|i: int| 0 <= i < tiles.len() ==> (#[trigger] tiles[i]) == 0
}

/// The tiles of a chunk nothing was painted on.
pub open spec fn no_tiles(dim: int) -> Seq<u32> {
    Seq::new((dim * dim) as nat, |i: int| 0u32)
}

impl TilemapModel {
    /// Whether cells can be painted: the chunks have a size, and a chunk can be
    /// held in memory.
    pub open spec fn paintable(self) -> bool {
        0 < self.chunk_dim && self.chunk_dim * self.chunk_dim <= usize::MAX
    }

    /// Whether the map holds exactly the chunks with a painted cell, in order.
    pub open spec fn settled(self) -> bool {
        let dim = self.chunk_dim as int;
        &&& self.paintable()
        &&& forall|i: int|
            0 <= i < self.chunks.len() ==> (#[trigger] self.chunks[i]).tiles.len() == dim * dim
                && !blank(self.chunks[i].tiles)
        &&& forall|i: int, j: int|
            #![trigger self.chunks[i], self.chunks[j]]
            0 <= i < j < self.chunks.len() ==> chunk_below(
                self.chunks[i].coord,
                self.chunks[j].coord,
            )
    }

    /// The tile at a place of a chunk; 0 where there is no such chunk.
    pub open spec fn tile_at(self, c: (i32, i32), p: int) -> u32 {
        if has_chunk(self.chunks, c) {
            self.chunks[chunks_before(self.chunks, c) as int].tiles[p]
        } else {
            0
        }
    }

    /// The tile of a cell; 0 where none is painted.
    pub open spec fn tile(self, x: i32, y: i32) -> u32 {
        let dim = self.chunk_dim as int;
        self.tile_at(chunk_of(dim, x, y), place_of(dim, x, y))
    }

    /// The map with one cell painted. A chunk appears with its first painted
    /// cell and goes with its last.
    pub open spec fn with_tile(self, x: i32, y: i32, tile: u32) -> TilemapModel {
        let dim = self.chunk_dim as int;
        let c = chunk_of(dim, x, y);
        let p = place_of(dim, x, y);
        let i = chunks_before(self.chunks, c) as int;
        if !self.paintable() {
            self
        } else if has_chunk(self.chunks, c) {
            let old = self.chunks[i];
            if old.tiles.len() != dim * dim {
                self
            } else {
                let tiles = old.tiles.update(p, tile);
                TilemapModel {
                    chunks: if blank(tiles) {
                        self.chunks.remove(i)
                    } else {
                        self.chunks.update(i, ChunkModel { tiles, ..old })
                    },
                    ..self
                }
            }
        } else if tile == 0 {
            self
        } else {
            TilemapModel {
                chunks: self.chunks.insert(
                    i,
                    ChunkModel { coord: c, tiles: no_tiles(dim).update(p, tile) },
                ),
                ..self
            }
        }
    }

    /// The map after the first `n` cells were painted, one after the other.
    pub open spec fn with_tiles(self, cells: Seq<(i32, i32, u32)>, n: int) -> TilemapModel
        decreases n,
    {
        if n <= 0 {
            self
        } else {
            let c = cells[n - 1];
            self.with_tiles(cells, n - 1).with_tile(c.0, c.1, c.2)
        }
    }
}

/// The cells of a stroke with the tiles it painted, or with those it painted
/// over.
pub open spec fn stroke_cells(cells: Seq<(i32, i32, u32, u32)>, revert: bool) -> Seq<
    (i32, i32, u32),
> {
    cells.map_values(
        |q: (i32, i32, u32, u32)|
            if revert {
                (q.0, q.1, q.2)
            } else {
                (q.0, q.1, q.3)
            },
    )
}

/// Whether the cells of a stroke tell what was there before it.
pub open spec fn paints_over(tm: TilemapModel, cells: Seq<(i32, i32, u32, u32)>) -> bool {
    forall|i: int|
        0 <= i < cells.len() ==> (#[trigger] cells[i]).2 == tm.tile(cells[i].0, cells[i].1)
}

/// What a stroke changes: of its first `n` cells those whose tile is another
/// than the one that is there, with both.
pub open spec fn stroke_changes(tm: TilemapModel, cells: Seq<(i32, i32, u32)>, n: int) -> Seq<
    (i32, i32, u32, u32),
>
    decreases n,
{
    if n <= 0 {
        Seq::empty()
    } else {
        let c = cells[n - 1];
        let before = stroke_changes(tm, cells, n - 1);
        if tm.tile(c.0, c.1) == c.2 {
            before
        } else {
            before.push((c.0, c.1, tm.tile(c.0, c.1), c.2))
        }
    }
}

// ---------------------------------------------------------------- lemmas

proof fn lemma_before(chunks: Seq<ChunkModel>, c: (i32, i32))
    ensures
        chunks_before(chunks, c) <= chunks.len(),
        forall|i: int|
            0 <= i < chunks_before(chunks, c) ==> chunk_below((#[trigger] chunks[i]).coord, c),
        chunks_before(chunks, c) < chunks.len() ==> !chunk_below(
            chunks[chunks_before(chunks, c) as int].coord,
            c,
        ),
    decreases chunks.len(),
{
    if chunks.len() > 0 && chunk_below(chunks[0].coord, c) {
        let rest = chunks.drop_first();
        lemma_before(rest, c);
        assert forall|i: int| 0 <= i < chunks_before(chunks, c) implies chunk_below(
            (#[trigger] chunks[i]).coord,
            c,
        ) by {
            if i > 0 {
                assert(rest[i - 1] == chunks[i]);
            }
        }
    }
}

/// The place that the order puts a coordinate at is the one with all earlier
/// chunks before it and none from it on.
proof fn lemma_before_is(chunks: Seq<ChunkModel>, c: (i32, i32), n: int)
    requires
        0 <= n <= chunks.len(),
        forall|i: int| 0 <= i < n ==> chunk_below((#[trigger] chunks[i]).coord, c),
        n < chunks.len() ==> !chunk_below(chunks[n].coord, c),
    ensures
        chunks_before(chunks, c) == n,
{
    lemma_before(chunks, c);
    let m = chunks_before(chunks, c) as int;
    if m < n {
        assert(chunk_below(chunks[m].coord, c));
    } else if n < m {
        assert(chunk_below(chunks[n].coord, c));
    }
}

/// A cell lies in its chunk.
proof fn lemma_cell(dim: int, x: i32, y: i32)
    requires
        0 < dim,
    ensures
        0 <= place_of(dim, x, y) < dim * dim,
        chunk_of(dim, x, y).0 as int == x as int / dim,
        chunk_of(dim, x, y).1 as int == y as int / dim,
        0 <= x as int % dim < dim,
        0 <= y as int % dim < dim,
        0 <= (y as int % dim) * dim,
{
    let (lx, ly) = (x as int % dim, y as int % dim);
    assert(0 <= ly * dim && ly * dim + dim <= dim * dim) by (nonlinear_arith)
        requires
            0 <= ly < dim,
    ;
    lemma_quotient(x as int, dim);
    lemma_quotient(y as int, dim);
}

proof fn lemma_quotient(x: int, dim: int)
    requires
        0 < dim,
        i32::MIN <= x <= i32::MAX,
    ensures
        i32::MIN <= x / dim <= i32::MAX,
{
    assert(x >= 0 ==> 0 <= x / dim <= x) by (nonlinear_arith)
        requires
            0 < dim,
    ;
    assert(x < 0 ==> x <= x / dim < 0) by (nonlinear_arith)
        requires
            0 < dim,
    ;
}

/// Two cells of one chunk and one place are one.
proof fn lemma_cell_is_one(dim: int, x: i32, y: i32, u: i32, v: i32)
    requires
        0 < dim,
        chunk_of(dim, x, y) == chunk_of(dim, u, v),
        place_of(dim, x, y) == place_of(dim, u, v),
    ensures
        x == u && y == v,
{
    lemma_cell(dim, x, y);
    lemma_cell(dim, u, v);
    let (lx, ly) = (x as int % dim, y as int % dim);
    let (lu, lv) = (u as int % dim, v as int % dim);
    assert(ly == lv && lx == lu) by (nonlinear_arith)
        requires
            0 <= lx < dim,
            0 <= lu < dim,
            ly * dim + lx == lv * dim + lu,
    ;
    assert(x as int == dim * (x as int / dim) + lx) by (nonlinear_arith)
        requires
            0 < dim,
            lx == x as int % dim,
    ;
    assert(u as int == dim * (u as int / dim) + lu) by (nonlinear_arith)
        requires
            0 < dim,
            lu == u as int % dim,
    ;
    assert(y as int == dim * (y as int / dim) + ly) by (nonlinear_arith)
        requires
            0 < dim,
            ly == y as int % dim,
    ;
    assert(v as int == dim * (v as int / dim) + lv) by (nonlinear_arith)
        requires
            0 < dim,
            lv == v as int % dim,
    ;
}

/// Chunks in order, no coordinate twice.
spec fn in_order(chunks: Seq<ChunkModel>) -> bool {
    forall|i: int, j: int|
        #![trigger chunks[i], chunks[j]]
        0 <= i < j < chunks.len() ==> chunk_below(chunks[i].coord, chunks[j].coord)
}

/// The tiles of the chunk of that coordinate.
spec fn tiles_at(chunks: Seq<ChunkModel>, c: (i32, i32)) -> Option<Seq<u32>> {
    if has_chunk(chunks, c) {
        Some(chunks[chunks_before(chunks, c) as int].tiles)
    } else {
        None
    }
}

/// In an ordered list a chunk is found at its own place.
proof fn lemma_found(chunks: Seq<ChunkModel>, k: int)
    requires
        in_order(chunks),
        0 <= k < chunks.len(),
    ensures
        chunks_before(chunks, chunks[k].coord) == k,
        tiles_at(chunks, chunks[k].coord) == Some(chunks[k].tiles),
{
    assert forall|i: int| 0 <= i < k implies chunk_below((#[trigger] chunks[i]).coord, chunks[k].coord) by {
        assert(chunk_below(chunks[i].coord, chunks[k].coord));
    }
    lemma_before_is(chunks, chunks[k].coord, k);
}

/// Where a list has a chunk, every ordered list with that chunk has its tiles.
proof fn lemma_tiles_of(chunks: Seq<ChunkModel>, c: (i32, i32)) -> (k: int)
    ensures
        tiles_at(chunks, c) is Some ==> 0 <= k < chunks.len() && chunks[k].coord == c
            && chunks[k].tiles == tiles_at(chunks, c)->0,
{
    chunks_before(chunks, c) as int
}

/// A chunk with other tiles.
proof fn lemma_updated(chunks: Seq<ChunkModel>, i: int, tiles: Seq<u32>, d: (i32, i32))
    requires
        in_order(chunks),
        0 <= i < chunks.len(),
    ensures
        in_order(chunks.update(i, ChunkModel { tiles, ..chunks[i] })),
        tiles_at(chunks.update(i, ChunkModel { tiles, ..chunks[i] }), d) == (if d
            == chunks[i].coord {
            Some(tiles)
        } else {
            tiles_at(chunks, d)
        }),
{
    let out = chunks.update(i, ChunkModel { tiles, ..chunks[i] });
    assert forall|a: int, b: int|
        #![trigger out[a], out[b]]
        0 <= a < b < out.len() implies chunk_below(out[a].coord, out[b].coord) by {
        assert(out[a].coord == chunks[a].coord);
        assert(out[b].coord == chunks[b].coord);
    }
    if d == chunks[i].coord {
        lemma_found(out, i);
    } else {
        let k = lemma_tiles_of(chunks, d);
        if tiles_at(chunks, d) is Some {
            lemma_found(out, k);
        }
        let m = lemma_tiles_of(out, d);
        if tiles_at(out, d) is Some {
            assert(out[m].coord == chunks[m].coord);
            lemma_found(chunks, m);
        }
    }
}

/// A list without one chunk.
proof fn lemma_removed(chunks: Seq<ChunkModel>, i: int, d: (i32, i32))
    requires
        in_order(chunks),
        0 <= i < chunks.len(),
    ensures
        in_order(chunks.remove(i)),
        tiles_at(chunks.remove(i), d) == (if d == chunks[i].coord {
            None
        } else {
            tiles_at(chunks, d)
        }),
{
    let out = chunks.remove(i);
    assert forall|a: int, b: int|
        #![trigger out[a], out[b]]
        0 <= a < b < out.len() implies chunk_below(out[a].coord, out[b].coord) by {
        let x = if a < i {
            a
        } else {
            a + 1
        };
        let y = if b < i {
            b
        } else {
            b + 1
        };
        assert(out[a] == chunks[x] && out[b] == chunks[y]);
    }
    let m = lemma_tiles_of(out, d);
    if tiles_at(out, d) is Some {
        let x = if m < i {
            m
        } else {
            m + 1
        };
        assert(out[m] == chunks[x]);
        lemma_found(chunks, x);
        lemma_found(chunks, i);
    }
    let k = lemma_tiles_of(chunks, d);
    if d != chunks[i].coord && tiles_at(chunks, d) is Some {
        let x = if k < i {
            k
        } else {
            k - 1
        };
        assert(out[x] == chunks[k]);
        lemma_found(out, x);
    }
}

/// A list with one more chunk, where the order puts it.
proof fn lemma_inserted(chunks: Seq<ChunkModel>, new: ChunkModel, d: (i32, i32))
    requires
        in_order(chunks),
        !has_chunk(chunks, new.coord),
    ensures
        ({
            let out = chunks.insert(chunks_before(chunks, new.coord) as int, new);
            &&& in_order(out)
            &&& tiles_at(out, d) == (if d == new.coord {
                Some(new.tiles)
            } else {
                tiles_at(chunks, d)
            })
        }),
{
    let c = new.coord;
    lemma_before(chunks, c);
    let i = chunks_before(chunks, c) as int;
    let out = chunks.insert(i, new);
    assert forall|b: int| i <= b < chunks.len() implies chunk_below(c, (#[trigger] chunks[b]).coord) by {
        if b > i {
            assert(chunk_below(chunks[i].coord, chunks[b].coord));
        }
    }
    assert forall|a: int, b: int|
        #![trigger out[a], out[b]]
        0 <= a < b < out.len() implies chunk_below(out[a].coord, out[b].coord) by {
        if b < i {
            assert(out[a] == chunks[a] && out[b] == chunks[b]);
        } else if b == i {
            assert(out[a] == chunks[a] && out[b] == new);
        } else {
            assert(out[b] == chunks[b - 1]);
            if a < i {
                assert(out[a] == chunks[a]);
            } else if a == i {
                assert(out[a] == new);
            } else {
                assert(out[a] == chunks[a - 1]);
            }
        }
    }
    assert(out[i] == new);
    if d == c {
        lemma_found(out, i);
    } else {
        let k = lemma_tiles_of(chunks, d);
        if tiles_at(chunks, d) is Some {
            let x = if k < i {
                k
            } else {
                k + 1
            };
            assert(out[x] == chunks[k]);
            lemma_found(out, x);
        }
        let m = lemma_tiles_of(out, d);
        if tiles_at(out, d) is Some {
            assert(m != i);
            let x = if m < i {
                m
            } else {
                m - 1
            };
            assert(out[m] == chunks[x]);
            lemma_found(chunks, x);
        }
    }
}

// ---------------------------------------------------------------- painting

fn is_blank(tiles: &Vec<u32>) -> (r: bool)
    ensures
        r == blank(tiles@),
{
    let mut i: usize = 0;
    while i < tiles.len()
        invariant
            i <= tiles.len(),
            forall|j: int| 0 <= j < i ==> (#[trigger] tiles@[j]) == 0,
        decreases tiles.len() - i,
    {
        if tiles[i] != 0 {
            assert(tiles@[i as int] != 0);
            return false;
        }
        i = i + 1;
    }
    true
}

fn fresh_tiles(n: usize) -> (r: Vec<u32>)
    ensures
        r@ == Seq::new(n as nat, |i: int| 0u32),
{
    let mut out: Vec<u32> = Vec::new();
    let mut i: usize = 0;
    while i < n
        invariant
            i <= n,
            out@ == Seq::new(i as nat, |j: int| 0u32),
        decreases n - i,
    {
        out.push(0);
        i = i + 1;
        proof {
            assert(out@ =~= Seq::new(i as nat, |j: int| 0u32));
        }
    }
    out
}

/// The chunk of a cell, the place of the cell in it and the number of places;
/// nothing where cells cannot be painted.
fn cell_of(dim: i32, x: i32, y: i32) -> (r: Option<((i32, i32), usize, usize)>)
    ensures
        match r {
            Some((c, p, n)) => {
                &&& 0 < dim && dim * dim <= usize::MAX
                &&& c == chunk_of(dim as int, x, y)
                &&& p == place_of(dim as int, x, y)
                &&& n == dim * dim
                &&& p < n
            },
            None => !(0 < dim && dim * dim <= usize::MAX),
        },
{
    if dim <= 0 {
        return None;
    }
    let side = dim as usize;
    let places = match side.checked_mul(side) {
        Some(n) => n,
        None => {
            return None;
        },
    };
    proof {
        lemma_cell(dim as int, x, y);
    }
    let (cx, cy) = match (x.checked_div_euclid(dim), y.checked_div_euclid(dim)) {
        (Some(cx), Some(cy)) => (cx, cy),
        _ => {
            return None;
        },
    };
    let (lx, ly) = match (x.checked_rem_euclid(dim), y.checked_rem_euclid(dim)) {
        (Some(lx), Some(ly)) => (lx, ly),
        _ => {
            return None;
        },
    };
    let place: usize = ly as usize * side + lx as usize;
    Some(((cx, cy), place, places))
}

impl Tilemap {
    /// Whether the map holds exactly the chunks with a painted cell, in order.
    pub fn is_settled(&self) -> (r: bool)
        ensures
            r == self@.settled(),
    {
        let places = match cell_of(self.chunk_dim, 0, 0) {
            Some((_, _, n)) => n,
            None => {
                return false;
            },
        };
        let mut i: usize = 0;
        while i < self.chunks.len()
            invariant
                self@.paintable(),
                places == self.chunk_dim * self.chunk_dim,
                i <= self.chunks.len(),
                forall|j: int|
                    0 <= j < i ==> (#[trigger] self@.chunks[j]).tiles.len() == places && !blank(
                        self@.chunks[j].tiles,
                    ),
                forall|j: int, k: int|
                    #![trigger self@.chunks[j], self@.chunks[k]]
                    0 <= j < k < i ==> chunk_below(self@.chunks[j].coord, self@.chunks[k].coord),
            decreases self.chunks.len() - i,
        {
            assert(self@.chunks[i as int] == self.chunks@[i as int]@);
            if self.chunks[i].tiles.len() != places || is_blank(&self.chunks[i].tiles) {
                return false;
            }
            if i > 0 {
                assert(self@.chunks[i - 1] == self.chunks@[i - 1]@);
                let a = self.chunks[i - 1].coord;
                let b = self.chunks[i].coord;
                if !(a.0 < b.0 || (a.0 == b.0 && a.1 < b.1)) {
                    return false;
                }
            }
            i = i + 1;
        }
        true
    }

    /// The place where the order puts a chunk.
    fn chunk_place(&self, c: (i32, i32)) -> (i: usize)
        ensures
            i == chunks_before(self@.chunks, c),
            i <= self.chunks.len(),
    {
        let ghost all = self@.chunks;
        let mut i: usize = 0;
        proof {
            assert(all.skip(0) =~= all);
        }
        while i < self.chunks.len()
            invariant
                all == self@.chunks,
                i <= self.chunks.len(),
                chunks_before(all, c) == i + chunks_before(all.skip(i as int), c),
            decreases self.chunks.len() - i,
        {
            proof {
                assert(all.skip(i as int).drop_first() =~= all.skip(i + 1));
                assert(all.skip(i as int)[0] == self.chunks@[i as int]@);
            }
            let d = self.chunks[i].coord;
            if !(d.0 < c.0 || (d.0 == c.0 && d.1 < c.1)) {
                return i;
            }
            i = i + 1;
        }
        i
    }

    /// The tile of a cell; 0 where none is painted.
    pub fn tile(&self, x: i32, y: i32) -> (r: u32)
        requires
            self@.settled(),
        ensures
            r == self@.tile(x, y),
    {
        match cell_of(self.chunk_dim, x, y) {
            Some((c, p, n)) => {
                let i = self.chunk_place(c);
                if i < self.chunks.len() {
                    assert(self@.chunks[i as int] == self.chunks@[i as int]@);
                    let d = self.chunks[i].coord;
                    if d.0 == c.0 && d.1 == c.1 {
                        return self.chunks[i].tiles[p];
                    }
                }
                0
            },
            None => 0,
        }
    }

    /// Paint a cell.
    pub fn set_tile(&mut self, x: i32, y: i32, tile: u32)
        ensures
            final(self)@ == old(self)@.with_tile(x, y, tile),
    {
        let (c, p, n) = match cell_of(self.chunk_dim, x, y) {
            Some(cell) => cell,
            None => {
                return;
            },
        };
        let ghost before = self@.chunks;
        let ghost source = self.chunks@;
        let i = self.chunk_place(c);
        if i < self.chunks.len() {
            assert(before[i as int] == source[i as int]@);
            let d = self.chunks[i].coord;
            if d.0 == c.0 && d.1 == c.1 {
                if self.chunks[i].tiles.len() != n {
                    return;
                }
                self.chunks[i].tiles[p] = tile;
                let ghost painted = self.chunks@[i as int];
                proof {
                    assert(painted@ == (ChunkModel {
                        tiles: before[i as int].tiles.update(p as int, tile),
                        ..before[i as int]
                    }));
                    assert(self@.chunks =~= before.update(i as int, painted@));
                }
                if is_blank(&self.chunks[i].tiles) {
                    self.chunks.remove(i);
                    proof {
                        assert(self@.chunks =~= before.remove(i as int));
                    }
                }
                return;
            }
        }
        if tile == 0 {
            return;
        }
        let mut tiles = fresh_tiles(n);
        tiles.set(p, tile);
        let chunk = TileChunk { coord: c, tiles };
        self.chunks.insert(i, chunk);
        proof {
            assert(chunk@.tiles =~= no_tiles(self.chunk_dim as int).update(p as int, tile));
            assert(self@.chunks =~= before.insert(i as int, chunk@));
        }
    }

    /// Paint cells, one after the other.
    pub fn set_tiles(&mut self, cells: &Vec<(i32, i32, u32)>)
        ensures
            final(self)@ == old(self)@.with_tiles(cells@, cells@.len() as int),
    {
        let mut n: usize = 0;
        while n < cells.len()
            invariant
                n <= cells.len(),
                self@ == old(self)@.with_tiles(cells@, n as int),
            decreases cells.len() - n,
        {
            let c = cells[n];
            self.set_tile(c.0, c.1, c.2);
            n = n + 1;
        }
    }
}

/// The cells of a stroke with the tiles it painted, or with those it painted
/// over.
pub fn pick_cells(cells: &Vec<(i32, i32, u32, u32)>, revert: bool) -> (r: Vec<(i32, i32, u32)>)
    ensures
        r@ == stroke_cells(cells@, revert),
{
    let mut out: Vec<(i32, i32, u32)> = Vec::new();
    let mut i: usize = 0;
    while i < cells.len()
        invariant
            i <= cells.len(),
            out.len() == i,
            forall|j: int|
                0 <= j < i ==> (#[trigger] out@[j]) == (if revert {
                    (cells@[j].0, cells@[j].1, cells@[j].2)
                } else {
                    (cells@[j].0, cells@[j].1, cells@[j].3)
                }),
        decreases cells.len() - i,
    {
        let q = cells[i];
        out.push(
            if revert {
                (q.0, q.1, q.2)
            } else {
                (q.0, q.1, q.3)
            },
        );
        i = i + 1;
    }
    proof {
        assert(out@ =~= stroke_cells(cells@, revert));
    }
    out
}

/// What a stroke changes of a map.
pub fn changes_of(tm: &Tilemap, cells: &Vec<(i32, i32, u32)>) -> (r: Vec<(i32, i32, u32, u32)>)
    requires
        tm@.settled(),
    ensures
        r@ == stroke_changes(tm@, cells@, cells@.len() as int),
        paints_over(tm@, r@),
{
    let mut out: Vec<(i32, i32, u32, u32)> = Vec::new();
    let mut n: usize = 0;
    proof {
        assert(out@ =~= stroke_changes(tm@, cells@, 0));
    }
    while n < cells.len()
        invariant
            n <= cells.len(),
            tm@.settled(),
            out@ == stroke_changes(tm@, cells@, n as int),
            paints_over(tm@, out@),
        decreases cells.len() - n,
    {
        let c = cells[n];
        let there = tm.tile(c.0, c.1);
        if there != c.2 {
            out.push((c.0, c.1, there, c.2));
        }
        n = n + 1;
    }
    out
}

/// A slot with cells of its map painted, where it has one.
pub open spec fn slot_with_tiles(t: Option<TilemapModel>, cells: Seq<(i32, i32, u32)>) -> Option<
    TilemapModel,
> {
    match t {
        Some(tm) => Some(tm.with_tiles(cells, cells.len() as int)),
        None => None,
    }
}

/// The entities with cells of one's tilemap painted.
pub open spec fn with_tiles(entities: Seq<EntityModel>, guid: Guid, cells: Seq<(i32, i32, u32)>) -> Seq<
    EntityModel,
> {
    changed(
        entities,
        guid,
        |e: EntityModel|
            EntityModel {
                parts: PartsModel { tilemap: slot_with_tiles(e.parts.tilemap, cells), ..e.parts },
                ..e
            },
    )
}

impl Entity {
    /// Paint cells of the entity's tilemap, where it has one.
    pub fn set_tiles(&mut self, cells: &Vec<(i32, i32, u32)>)
        ensures
            final(self)@ == (EntityModel {
                parts: PartsModel {
                    tilemap: slot_with_tiles(old(self)@.parts.tilemap, cells@),
                    ..old(self)@.parts
                },
                ..old(self)@
            }),
    {
        let mut slot: Option<Tilemap> = None;
        std::mem::swap(&mut self.parts.tilemap, &mut slot);
        self.parts.tilemap = match slot {
            Some(tm) => {
                let mut tm = tm;
                tm.set_tiles(cells);
                Some(tm)
            },
            None => None,
        };
    }
}

impl SceneDoc {
    /// Paint cells of an entity's tilemap.
    pub fn raw_set_tiles(&mut self, guid: Guid, cells: &Vec<(i32, i32, u32)>)
        ensures
            final(self)@ == (DocModel {
                entities: with_tiles(old(self)@.entities, guid, cells@),
                ..old(self)@
            }),
            old(self).wf() ==> final(self).wf(),
            final(self).history == old(self).history,
    {
        let ghost change = |e: EntityModel|
            EntityModel {
                parts: PartsModel { tilemap: slot_with_tiles(e.parts.tilemap, cells@), ..e.parts },
                ..e
            };
        let i = self.index_of(guid);
        if i < self.entities.len() {
            let ghost before = self.entities@;
            self.entities[i].set_tiles(cells);
            proof {
                assert(with_tiles(models(before), guid, cells@) =~= changed(
                    models(before),
                    guid,
                    change,
                ));
                assert(models(self.entities@) =~= models(before).update(
                    i as int,
                    change(models(before)[i as int]),
                ));
                lemma_change_keeps_shape(models(before), guid, change);
            }
        }
    }
}

// ---------------------------------------------------------------- laws

/// Painting a cell sets that cell and no other, and the map still holds exactly
/// the chunks with a painted cell.
pub proof fn law_painting_sets_one_cell(tm: TilemapModel, x: i32, y: i32, tile: u32, u: i32, v: i32)
    requires
        tm.settled(),
    ensures
        tm.with_tile(x, y, tile).settled(),
        tm.with_tile(x, y, tile).tile(u, v) == (if u == x && v == y {
            tile
        } else {
            tm.tile(u, v)
        }),
{
    let dim = tm.chunk_dim as int;
    lemma_cell(dim, x, y);
    lemma_cell(dim, u, v);
    lemma_painted(tm, x, y, tile, chunk_of(dim, u, v), place_of(dim, u, v));
    if chunk_of(dim, u, v) == chunk_of(dim, x, y) && place_of(dim, u, v) == place_of(dim, x, y) {
        lemma_cell_is_one(dim, x, y, u, v);
    }
}

/// The tile of a cell is the one its chunk holds at the cell's place, row by row
/// within the chunk, and the empty one where no chunk reaches the cell. Chunks
/// and places are counted down from the cell, so that negative cells have theirs.
pub proof fn law_tile_of_a_cell(tm: Tilemap, x: i32, y: i32, k: int)
    requires
        tm@.settled(),
    ensures
        ({
            let dim = tm.chunk_dim as int;
            let chunks = tm.chunks@;
            &&& 0 <= k < chunks.len() && chunks[k].coord.0 == x as int / dim && chunks[k].coord.1 == y as int
                / dim ==> tm@.tile(x, y) == chunks[k].tiles@[(y as int % dim) * dim + x as int % dim]
            &&& (forall|j: int|
                0 <= j < chunks.len() ==> !((#[trigger] chunks[j]).coord.0 == x as int / dim
                    && chunks[j].coord.1 == y as int / dim)) ==> tm@.tile(x, y) == 0
        }),
{
    let dim = tm.chunk_dim as int;
    let chunks = tm.chunks@;
    let all = tm@.chunks;
    let c = chunk_of(dim, x, y);
    lemma_cell(dim, x, y);
    lemma_before(all, c);
    let i = chunks_before(all, c) as int;
    assert(in_order(all));
    if 0 <= k < chunks.len() && chunks[k].coord.0 == x as int / dim && chunks[k].coord.1 == y as int / dim {
        assert(all[k] == chunks[k]@);
        lemma_found(all, k);
    }
    if has_chunk(all, c) {
        assert(all[i] == chunks[i]@);
    }
}

/// The last of the first `n` entries that names a cell, or -1; it is what the
/// cell shows.
pub proof fn lemma_last_shows(
    tm: TilemapModel,
    cells: Seq<(i32, i32, u32)>,
    n: int,
    x: i32,
    y: i32,
) -> (at: int)
    requires
        tm.settled(),
        0 <= n <= cells.len(),
    ensures
        tm.with_tiles(cells, n).settled(),
        -1 <= at < n,
        at >= 0 ==> cells[at].0 == x && cells[at].1 == y && tm.with_tiles(cells, n).tile(x, y)
            == cells[at].2,
        at < 0 ==> tm.with_tiles(cells, n).tile(x, y) == tm.tile(x, y),
        forall|j: int| at < j < n && 0 <= j ==> !((#[trigger] cells[j]).0 == x && cells[j].1 == y),
    decreases n,
{
    if n <= 0 {
        -1
    } else {
        let before = lemma_last_shows(tm, cells, n - 1, x, y);
        let c = cells[n - 1];
        law_painting_sets_one_cell(tm.with_tiles(cells, n - 1), c.0, c.1, c.2, x, y);
        if c.0 == x && c.1 == y {
            n - 1
        } else {
            before
        }
    }
}

/// After cells were painted one after the other, a cell shows the tile of the last
/// entry that names it, and a cell that no entry names shows what it showed.
pub proof fn law_painted_cells_show(tm: TilemapModel, cells: Seq<(i32, i32, u32)>, x: i32, y: i32)
    requires
        tm.settled(),
    ensures
        ({
            let out = tm.with_tiles(cells, cells.len() as int);
            let named = |i: int| 0 <= i < cells.len() && cells[i].0 == x && cells[i].1 == y;
            &&& out.settled()
            &&& (forall|i: int| !(#[trigger] named(i))) ==> out.tile(x, y) == tm.tile(x, y)
            &&& forall|i: int| #[trigger]
                named(i) && (forall|j: int| i < j ==> !(#[trigger] named(j))) ==> out.tile(x, y)
                    == cells[i].2
        }),
{
    let at = lemma_last_shows(tm, cells, cells.len() as int, x, y);
    let named = |i: int| 0 <= i < cells.len() && cells[i].0 == x && cells[i].1 == y;
    if at >= 0 {
        assert(named(at));
    }
    assert forall|i: int| #[trigger] named(i) && (forall|j: int| i < j ==> !(#[trigger] named(j))) implies i
        == at by {
        if i < at {
            assert(named(at));
        }
    }
}

/// The last entry among the first `n` that paints a cell anew; none is -1.
pub open spec fn last_anew(tm: TilemapModel, cells: Seq<(i32, i32, u32)>, n: int, x: i32, y: i32) -> int
    decreases n,
{
    if n <= 0 {
        -1
    } else if cells[n - 1].0 == x && cells[n - 1].1 == y && cells[n - 1].2 != tm.tile(x, y) {
        n - 1
    } else {
        last_anew(tm, cells, n - 1, x, y)
    }
}

proof fn lemma_last_anew(tm: TilemapModel, cells: Seq<(i32, i32, u32)>, n: int, x: i32, y: i32)
    requires
        n <= cells.len(),
    ensures
        ({
            let at = last_anew(tm, cells, n, x, y);
            &&& -1 <= at && (at >= 0 ==> at < n && cells[at].0 == x && cells[at].1 == y && cells[at].2
                != tm.tile(x, y))
            &&& forall|j: int|
                at < j < n && 0 <= j && (#[trigger] cells[j]).0 == x && cells[j].1 == y ==> cells[j].2
                    == tm.tile(x, y)
        }),
    decreases n,
{
    if n > 0 {
        lemma_last_anew(tm, cells, n - 1, x, y);
    }
}

proof fn lemma_stroke_cells_prefix(changes: Seq<(i32, i32, u32, u32)>, q: (i32, i32, u32, u32))
    ensures
        stroke_cells(changes.push(q), false) == stroke_cells(changes, false).push((q.0, q.1, q.3)),
{
    assert(stroke_cells(changes.push(q), false) =~= stroke_cells(changes, false).push(
        (q.0, q.1, q.3),
    ));
}

proof fn lemma_with_tiles_prefix(
    tm: TilemapModel,
    a: Seq<(i32, i32, u32)>,
    b: Seq<(i32, i32, u32)>,
    n: int,
)
    requires
        n <= a.len(),
        n <= b.len(),
        forall|i: int| 0 <= i < n ==> (#[trigger] a[i]) == b[i],
    ensures
        tm.with_tiles(a, n) == tm.with_tiles(b, n),
    decreases n,
{
    if n > 0 {
        lemma_with_tiles_prefix(tm, a, b, n - 1);
        assert(a[n - 1] == b[n - 1]);
    }
}

proof fn lemma_stroke_shows(tm: TilemapModel, cells: Seq<(i32, i32, u32)>, n: int, x: i32, y: i32)
    requires
        tm.settled(),
        0 <= n <= cells.len(),
    ensures
        ({
            let changes = stroke_changes(tm, cells, n);
            let out = tm.with_tiles(stroke_cells(changes, false), changes.len() as int);
            let at = last_anew(tm, cells, n, x, y);
            &&& out.settled()
            &&& out.tile(x, y) == (if at < 0 {
                tm.tile(x, y)
            } else {
                cells[at].2
            })
            &&& changes.len() <= n
        }),
    decreases n,
{
    if n > 0 {
        lemma_stroke_shows(tm, cells, n - 1, x, y);
        let c = cells[n - 1];
        let before = stroke_changes(tm, cells, n - 1);
        let m = before.len() as int;
        if tm.tile(c.0, c.1) != c.2 {
            let q = (c.0, c.1, tm.tile(c.0, c.1), c.2);
            lemma_stroke_cells_prefix(before, q);
            let a = stroke_cells(before, false);
            let b = stroke_cells(before.push(q), false);
            lemma_with_tiles_prefix(tm, a, b, m);
            law_painting_sets_one_cell(tm.with_tiles(a, m), c.0, c.1, c.2, x, y);
        }
    }
}

/// The entries of the first `n` that paint a cell anew, by their places.
proof fn lemma_stroke_places(tm: TilemapModel, cells: Seq<(i32, i32, u32)>, n: int) -> (places: Seq<int>)
    requires
        0 <= n <= cells.len(),
    ensures
        stroke_changes(tm, cells, n).len() == places.len(),
        forall|k: int|
            0 <= k < places.len() ==> 0 <= (#[trigger] places[k]) < n && stroke_changes(tm, cells, n)[k]
                == (
                cells[places[k]].0,
                cells[places[k]].1,
                tm.tile(cells[places[k]].0, cells[places[k]].1),
                cells[places[k]].2,
            ) && tm.tile(cells[places[k]].0, cells[places[k]].1) != cells[places[k]].2,
        forall|j: int, k: int|
            #![trigger places[j], places[k]]
            0 <= j < k < places.len() ==> places[j] < places[k],
        forall|i: int|
            0 <= i < n && tm.tile((#[trigger] cells[i]).0, cells[i].1) != cells[i].2 ==> places.contains(i),
    decreases n,
{
    if n <= 0 {
        Seq::empty()
    } else {
        let before = lemma_stroke_places(tm, cells, n - 1);
        let c = cells[n - 1];
        if tm.tile(c.0, c.1) != c.2 {
            let places = before.push(n - 1);
            assert forall|i: int|
                0 <= i < n && tm.tile((#[trigger] cells[i]).0, cells[i].1) != cells[i].2 implies places.contains(
                i,
            ) by {
                if i < n - 1 {
                    let k = choose|k: int| 0 <= k < before.len() && before[k] == i;
                    assert(places[k] == i);
                } else {
                    assert(places[before.len() as int] == i);
                }
            }
            places
        } else {
            before
        }
    }
}

/// What a stroke does. Its changes are exactly the entries whose tile is another
/// than the one that was there, each with both, in the order of the entries;
/// `places` are where they stand. After it a cell shows the tile of the last
/// entry that paints it anew, and a cell that no entry paints anew shows what it
/// showed. Nothing else of the map changes.
pub proof fn law_stroke_paints_its_cells(
    tm: TilemapModel,
    cells: Seq<(i32, i32, u32)>,
    x: i32,
    y: i32,
) -> (places: Seq<int>)
    requires
        tm.settled(),
    ensures
        ({
            let changes = stroke_changes(tm, cells, cells.len() as int);
            let out = tm.with_tiles(stroke_cells(changes, false), changes.len() as int);
            let anew = |i: int|
                0 <= i < cells.len() && cells[i].0 == x && cells[i].1 == y && cells[i].2 != tm.tile(x, y);
            &&& changes.len() == places.len()
            &&& forall|k: int|
                0 <= k < places.len() ==> 0 <= (#[trigger] places[k]) < cells.len() && changes[k] == (
                    cells[places[k]].0,
                    cells[places[k]].1,
                    tm.tile(cells[places[k]].0, cells[places[k]].1),
                    cells[places[k]].2,
                )
            &&& forall|j: int, k: int|
                #![trigger places[j], places[k]]
                0 <= j < k < places.len() ==> places[j] < places[k]
            &&& forall|i: int|
                #![trigger cells[i]]
                0 <= i < cells.len() ==> (places.contains(i) <==> tm.tile(cells[i].0, cells[i].1)
                    != cells[i].2)
            &&& (forall|i: int| !(#[trigger] anew(i))) ==> out.tile(x, y) == tm.tile(x, y)
            &&& forall|i: int| #[trigger]
                anew(i) && (forall|j: int| i < j ==> !(#[trigger] anew(j))) ==> out.tile(x, y)
                    == cells[i].2
            &&& out.settled()
            &&& out == (TilemapModel { chunks: out.chunks, ..tm })
        }),
{
    let n = cells.len() as int;
    let changes = stroke_changes(tm, cells, n);
    lemma_last_anew(tm, cells, n, x, y);
    lemma_stroke_shows(tm, cells, n, x, y);
    lemma_settled_all(tm, stroke_cells(changes, false), changes.len() as int);
    let at = last_anew(tm, cells, n, x, y);
    let anew = |i: int|
        0 <= i < cells.len() && cells[i].0 == x && cells[i].1 == y && cells[i].2 != tm.tile(x, y);
    if at >= 0 {
        assert(anew(at));
        assert forall|i: int| #[trigger] anew(i) && (forall|j: int| i < j ==> !(#[trigger] anew(j))) implies i
            == at by {
            if i < at {
                assert(anew(at));
            }
        }
    }
    lemma_stroke_places(tm, cells, n)
}

proof fn lemma_painted(tm: TilemapModel, x: i32, y: i32, tile: u32, d: (i32, i32), q: int)
    requires
        tm.settled(),
        0 <= q < tm.chunk_dim * tm.chunk_dim,
    ensures
        tm.with_tile(x, y, tile).settled(),
        tm.with_tile(x, y, tile).tile_at(d, q) == (if is_cell(tm.chunk_dim as int, x, y, d, q) {
            tile
        } else {
            tm.tile_at(d, q)
        }),
{
    let dim = tm.chunk_dim as int;
    let c = chunk_of(dim, x, y);
    let p = place_of(dim, x, y);
    let i = chunks_before(tm.chunks, c) as int;
    let out = tm.with_tile(x, y, tile);
    lemma_cell(dim, x, y);
    lemma_before(tm.chunks, c);
    assert(in_order(tm.chunks));
    if has_chunk(tm.chunks, c) {
        let old = tm.chunks[i];
        assert(old.tiles.len() == dim * dim);
        let tiles = old.tiles.update(p, tile);
        if blank(tiles) {
            lemma_removed(tm.chunks, i, d);
            assert(tiles[p] == tile);
            assert forall|k: int| 0 <= k < out.chunks.len() implies (#[trigger] out.chunks[k]).tiles.len()
                == dim * dim && !blank(out.chunks[k].tiles) by {
                let m = if k < i {
                    k
                } else {
                    k + 1
                };
                assert(out.chunks[k] == tm.chunks[m]);
            }
            if c == d {
                assert(q != p ==> tiles[q] == old.tiles[q]);
                assert(tiles[q] == 0);
            }
        } else {
            lemma_updated(tm.chunks, i, tiles, d);
            assert forall|k: int| 0 <= k < out.chunks.len() implies (#[trigger] out.chunks[k]).tiles.len()
                == dim * dim && !blank(out.chunks[k].tiles) by {
                if k != i {
                    assert(out.chunks[k] == tm.chunks[k]);
                }
            }
        }
        assert(in_order(out.chunks));
    } else if tile != 0 {
        let tiles = no_tiles(dim).update(p, tile);
        let new = ChunkModel { coord: c, tiles };
        lemma_inserted(tm.chunks, new, d);
        assert(tiles[p] == tile);
        assert forall|k: int| 0 <= k < out.chunks.len() implies (#[trigger] out.chunks[k]).tiles.len()
            == dim * dim && !blank(out.chunks[k].tiles) by {
            if k < i {
                assert(out.chunks[k] == tm.chunks[k]);
            } else if k > i {
                assert(out.chunks[k] == tm.chunks[k - 1]);
            } else {
                assert(out.chunks[k] == new);
                assert(!blank(tiles));
            }
        }
        assert(in_order(out.chunks));
        if c == d && q != p {
            assert(tiles[q] == 0);
        }
    }
}

/// Whether a cell is the one at a place of a chunk.
spec fn is_cell(dim: int, x: i32, y: i32, d: (i32, i32), q: int) -> bool {
    chunk_of(dim, x, y) == d && place_of(dim, x, y) == q
}

/// A map is what its cells are: two maps that differ in nothing but their
/// chunks, each with exactly the chunks that hold a painted cell, are the same
/// where every cell is.
pub proof fn law_a_map_is_its_cells(a: TilemapModel, b: TilemapModel)
    requires
        a.settled(),
        b.settled(),
        a == (TilemapModel { chunks: a.chunks, ..b }),
        forall|d: (i32, i32), q: int|
            0 <= q < a.chunk_dim * a.chunk_dim ==> a.tile_at(d, q) == #[trigger] b.tile_at(d, q),
    ensures
        a == b,
{
    assert forall|d: (i32, i32)| #[trigger] tiles_at(a.chunks, d) == tiles_at(b.chunks, d) by {
        lemma_same_chunk(a, b, d);
        lemma_same_chunk(b, a, d);
    }
    lemma_same_lists(a.chunks, b.chunks);
}

proof fn lemma_same_chunk(a: TilemapModel, b: TilemapModel, d: (i32, i32))
    requires
        a.settled(),
        b.settled(),
        a == (TilemapModel { chunks: a.chunks, ..b }),
        forall|d: (i32, i32), q: int|
            0 <= q < a.chunk_dim * a.chunk_dim ==> a.tile_at(d, q) == #[trigger] b.tile_at(d, q),
    ensures
        tiles_at(a.chunks, d) is Some ==> tiles_at(b.chunks, d) == tiles_at(a.chunks, d),
{
    if tiles_at(a.chunks, d) is Some {
        let chunk = a.chunks[chunks_before(a.chunks, d) as int];
        let e = choose|e: int| 0 <= e < chunk.tiles.len() && (#[trigger] chunk.tiles[e]) != 0;
        assert(a.tile_at(d, e) == b.tile_at(d, e));
        assert(has_chunk(b.chunks, d));
        let other = b.chunks[chunks_before(b.chunks, d) as int];
        assert forall|q: int| 0 <= q < chunk.tiles.len() implies chunk.tiles[q] == other.tiles[q] by {
            assert(a.tile_at(d, q) == b.tile_at(d, q));
        }
        assert(chunk.tiles =~= other.tiles);
    }
}

/// Painting cells leaves a settled map settled, and touches no cell that is not
/// among them.
proof fn lemma_painted_all(
    tm: TilemapModel,
    cells: Seq<(i32, i32, u32)>,
    n: int,
    d: (i32, i32),
    q: int,
)
    requires
        tm.settled(),
        0 <= n <= cells.len(),
        0 <= q < tm.chunk_dim * tm.chunk_dim,
    ensures
        tm.with_tiles(cells, n).settled(),
        tm.with_tiles(cells, n) == (TilemapModel { chunks: tm.with_tiles(cells, n).chunks, ..tm }),
        (forall|i: int|
            0 <= i < n ==> !is_cell(
                tm.chunk_dim as int,
                (#[trigger] cells[i]).0,
                cells[i].1,
                d,
                q,
            )) ==> tm.with_tiles(cells, n).tile_at(d, q) == tm.tile_at(d, q),
    decreases n,
{
    if n > 0 {
        lemma_painted_all(tm, cells, n - 1, d, q);
        let c = cells[n - 1];
        lemma_painted(tm.with_tiles(cells, n - 1), c.0, c.1, c.2, d, q);
    }
}

/// After painting cells with the tiles of another map, those cells are as in
/// that map.
proof fn lemma_painted_back(
    start: TilemapModel,
    tm: TilemapModel,
    cells: Seq<(i32, i32, u32)>,
    n: int,
    d: (i32, i32),
    q: int,
)
    requires
        start.settled(),
        tm.settled(),
        start.chunk_dim == tm.chunk_dim,
        0 <= n <= cells.len(),
        0 <= q < tm.chunk_dim * tm.chunk_dim,
        forall|i: int|
            0 <= i < cells.len() ==> (#[trigger] cells[i]).2 == tm.tile(cells[i].0, cells[i].1),
    ensures
        (exists|i: int|
            0 <= i < n && is_cell(
                tm.chunk_dim as int,
                (#[trigger] cells[i]).0,
                cells[i].1,
                d,
                q,
            )) ==> start.with_tiles(cells, n).tile_at(d, q) == tm.tile_at(d, q),
    decreases n,
{
    if n > 0 {
        lemma_painted_back(start, tm, cells, n - 1, d, q);
        lemma_painted_all(start, cells, n - 1, d, q);
        let c = cells[n - 1];
        lemma_painted(start.with_tiles(cells, n - 1), c.0, c.1, c.2, d, q);
    }
}

/// Taking a stroke back gives the map as it was before it, chunk for chunk,
/// also where the stroke passed a cell twice.
pub proof fn law_stroke_is_taken_back(tm: TilemapModel, cells: Seq<(i32, i32, u32, u32)>)
    requires
        tm.settled(),
        paints_over(tm, cells),
    ensures
        ({
            let n = cells.len() as int;
            tm.with_tiles(stroke_cells(cells, false), n).with_tiles(stroke_cells(cells, true), n)
                == tm
        }),
{
    let n = cells.len() as int;
    let afters = stroke_cells(cells, false);
    let befores = stroke_cells(cells, true);
    let painted = tm.with_tiles(afters, n);
    let back = painted.with_tiles(befores, n);
    lemma_settled_all(tm, afters, n);
    lemma_settled_all(painted, befores, n);
    assert forall|i: int| 0 <= i < befores.len() implies (#[trigger] befores[i]).2 == tm.tile(
        befores[i].0,
        befores[i].1,
    ) by {
        assert(cells[i].2 == tm.tile(cells[i].0, cells[i].1));
    }
    assert forall|d: (i32, i32), q: int|
        0 <= q < back.chunk_dim * back.chunk_dim implies back.tile_at(d, q) == #[trigger] tm.tile_at(
        d,
        q,
    ) by {
        let dim = tm.chunk_dim as int;
        lemma_painted_back(painted, tm, befores, n, d, q);
        lemma_painted_all(painted, befores, n, d, q);
        lemma_painted_all(tm, afters, n, d, q);
        if forall|i: int| 0 <= i < n ==> !is_cell(dim, (#[trigger] befores[i]).0, befores[i].1, d, q) {
            assert forall|i: int| 0 <= i < n implies !is_cell(
                dim,
                (#[trigger] afters[i]).0,
                afters[i].1,
                d,
                q,
            ) by {
                assert(befores[i].0 == afters[i].0 && befores[i].1 == afters[i].1);
            }
        }
    }
    law_a_map_is_its_cells(back, tm);
}

/// Painting any cells leaves a settled map settled, and nothing else of it but
/// its chunks changes.
pub proof fn lemma_settled_all(tm: TilemapModel, cells: Seq<(i32, i32, u32)>, n: int)
    requires
        tm.settled(),
        0 <= n <= cells.len(),
    ensures
        tm.with_tiles(cells, n).settled(),
        tm.with_tiles(cells, n) == (TilemapModel { chunks: tm.with_tiles(cells, n).chunks, ..tm }),
{
    assert(0 < tm.chunk_dim * tm.chunk_dim) by (nonlinear_arith)
        requires
            0 < tm.chunk_dim,
    ;
    lemma_painted_all(tm, cells, n, (0, 0), 0);
}

/// Two ordered lists with the same chunks are one.
proof fn lemma_same_lists(a: Seq<ChunkModel>, b: Seq<ChunkModel>)
    requires
        in_order(a),
        in_order(b),
        forall|d: (i32, i32)| #[trigger] tiles_at(a, d) == tiles_at(b, d),
    ensures
        a == b,
    decreases a.len(),
{
    if a.len() == 0 {
        if b.len() > 0 {
            lemma_found(b, 0);
            assert(tiles_at(a, b[0].coord) == tiles_at(b, b[0].coord));
        }
        assert(a =~= b);
    } else {
        lemma_found(a, 0);
        assert(tiles_at(a, a[0].coord) == tiles_at(b, a[0].coord));
        let k = lemma_tiles_of(b, a[0].coord);
        lemma_found(b, 0);
        assert(tiles_at(a, b[0].coord) == tiles_at(b, b[0].coord));
        let m = lemma_tiles_of(a, b[0].coord);
        if k > 0 && m > 0 {
            assert(chunk_below(b[0].coord, b[k].coord));
            assert(chunk_below(a[0].coord, a[m].coord));
        }
        assert(a[0].coord == b[0].coord);
        assert(a[0] == b[0]);
        assert forall|d: (i32, i32)| #[trigger] tiles_at(a.remove(0), d) == tiles_at(b.remove(0), d) by {
            lemma_removed(a, 0, d);
            lemma_removed(b, 0, d);
            assert(tiles_at(a, d) == tiles_at(b, d));
        }
        lemma_removed(a, 0, a[0].coord);
        lemma_removed(b, 0, b[0].coord);
        lemma_same_lists(a.remove(0), b.remove(0));
        assert(a =~= seq![a[0]] + a.remove(0));
        assert(b =~= seq![b[0]] + b.remove(0));
    }
}

/// A cell counted from the chunk it lies in: dividing gives the chunk and the place
/// back.
proof fn lemma_cell_of_chunk(dim: int, c: int, l: int)
    requires
        0 < dim,
        0 <= l < dim,
    ensures
        (c * dim + l) / dim == c,
        (c * dim + l) % dim == l,
{
    vstd::arithmetic::div_mod::lemma_fundamental_div_mod_converse(c * dim + l, dim, c, l);
}

/// The panel shows the map: a cell is in its list with a tile exactly where that
/// tile is painted there and is not the empty one.
pub proof fn law_the_panel_shows_the_map(tm: TilemapModel, c: TilemapCellDto)
    requires
        tm.settled(),
        tm.fits(),
    ensures
        tm.painted().contains(c) <==> c.tile != 0 && tm.tile(c.x, c.y) == c.tile,
{
    let dim = tm.chunk_dim as int;
    law_shown_cells_are_the_painted_ones(tm, c);
    assert(in_order(tm.chunks));
    if tm.painted().contains(c) {
        let (k, lx, ly) = choose|k: int, lx: int, ly: int|
            {
                &&& 0 <= k < tm.chunks.len()
                &&& 0 <= lx < tm.chunk_dim
                &&& 0 <= ly < tm.chunk_dim
                &&& #[trigger] tm.chunks[k].at(tm.chunk_dim as int, lx, ly) != 0
                &&& c == tm.chunks[k].cell(tm.chunk_dim as int, lx, ly)
            };
        let m = tm.chunks[k];
        assert(m.fits(dim));
        lemma_cell_of_chunk(dim, m.coord.0 as int, lx);
        lemma_cell_of_chunk(dim, m.coord.1 as int, ly);
        assert(c.x == m.coord.0 * dim + lx);
        assert(c.y == m.coord.1 * dim + ly);
        lemma_found(tm.chunks, k);
        assert(chunk_of(dim, c.x, c.y) == m.coord);
        assert(place_of(dim, c.x, c.y) == ly * dim + lx);
    }
    if c.tile != 0 && tm.tile(c.x, c.y) == c.tile {
        let d = chunk_of(dim, c.x, c.y);
        lemma_cell(dim, c.x, c.y);
        lemma_before(tm.chunks, d);
        let k = chunks_before(tm.chunks, d) as int;
        let m = tm.chunks[k];
        let (lx, ly) = (c.x as int % dim, c.y as int % dim);
        assert(m.coord == d);
        assert(m.fits(dim));
        vstd::arithmetic::div_mod::lemma_fundamental_div_mod(c.x as int, dim);
        vstd::arithmetic::div_mod::lemma_fundamental_div_mod(c.y as int, dim);
        assert(m.coord.0 * dim == dim * (c.x as int / dim)) by (nonlinear_arith)
            requires
                m.coord.0 as int == c.x as int / dim,
        ;
        assert(m.coord.1 * dim == dim * (c.y as int / dim)) by (nonlinear_arith)
            requires
                m.coord.1 as int == c.y as int / dim,
        ;
        assert(m.at(dim, lx, ly) == c.tile);
        assert(c == m.cell(dim, lx, ly));
    }
}

} // verus!
