//! Tile painting and what the paint panel shows.

use inf_editor_core::bits::F64;
use inf_editor_core::guid::Guid;
use inf_editor_core::scene::component::{Component, Transform, Vec2d};
use inf_editor_core::scene::doc::SceneDoc;
use inf_editor_core::scene::record::EntityRecord;
use inf_editor_core::scene::tilemap::{build_dto, TileChunk, Tilemap, TilemapCellDto};

fn f(x: f64) -> F64 {
    F64::from_bits(x.to_bits())
}

fn empty_map() -> Tilemap {
    Tilemap {
        texture: None,
        tile_size: Vec2d { x: f(1.0), y: f(0.5) },
        atlas_cols: 4,
        atlas_rows: 4,
        chunk_dim: 32,
        chunks: vec![],
        style: Component { bytes: vec![] },
    }
}

fn doc_with(map: Option<Tilemap>) -> (SceneDoc, Guid) {
    let g = Guid::from_u128(0x7113);
    let mut doc = SceneDoc::new();
    let mut rec = EntityRecord::named(g, "Map".to_string(), None, Transform::identity());
    rec.tilemap = map;
    assert!(doc.edit_create(rec));
    (doc, g)
}

#[test]
fn build_dto_projects_painted_cells() {
    let (mut doc, e) = doc_with(Some(empty_map()));
    // Two cells in two different chunks.
    assert_eq!(doc.edit_paint_tiles(e, &vec![(0, 0, 3), (40, -1, 7)]), 2);

    let dto = build_dto(&doc, e).unwrap();
    assert_eq!(dto.atlas_cols, 4);
    assert_eq!(dto.atlas_rows, 4);
    assert_eq!(dto.palette_cols, 4);
    assert_eq!(dto.cells.len(), 2);
    assert!(dto.cells.iter().any(|c| c.x == 0 && c.y == 0 && c.tile == 3));
    assert!(dto.cells.iter().any(|c| c.x == 40 && c.y == -1 && c.tile == 7));
}

#[test]
fn build_dto_none_for_non_tilemap() {
    let (doc, e) = doc_with(None);
    assert!(build_dto(&doc, e).is_none());
    assert!(build_dto(&doc, Guid::from_u128(1)).is_none());
}

#[test]
fn paint_stroke_is_one_undo_step() {
    let (mut doc, e) = doc_with(Some(empty_map()));
    // A stroke of several cells.
    let n = doc.edit_paint_tiles(e, &vec![(0, 0, 1), (1, 0, 1), (2, 0, 1)]);
    assert_eq!(n, 3);
    assert_eq!(build_dto(&doc, e).unwrap().cells.len(), 3);

    // One undo reverts the whole stroke.
    assert!(doc.undo());
    assert_eq!(build_dto(&doc, e).unwrap().cells.len(), 0);
    assert!(doc.redo());
    assert_eq!(build_dto(&doc, e).unwrap().cells.len(), 3);
}

#[test]
fn painting_same_index_is_a_noop() {
    let (mut doc, e) = doc_with(Some(empty_map()));
    assert_eq!(doc.edit_paint_tiles(e, &vec![(5, 5, 2)]), 1);
    // Repainting the same value changes nothing and records no undo entry.
    assert_eq!(doc.edit_paint_tiles(e, &vec![(5, 5, 2)]), 0);
    assert!(doc.history.can_undo());
    doc.undo(); // undo the first paint
    assert_eq!(build_dto(&doc, e).unwrap().cells.len(), 0);
}

#[test]
fn erasing_drops_the_cell() {
    let (mut doc, e) = doc_with(Some(empty_map()));
    doc.edit_paint_tiles(e, &vec![(0, 0, 4)]);
    assert_eq!(doc.edit_paint_tiles(e, &vec![(0, 0, 0)]), 1); // erase
    assert_eq!(build_dto(&doc, e).unwrap().cells.len(), 0);
    // Undo restores the erased tile.
    assert!(doc.undo());
    assert_eq!(build_dto(&doc, e).unwrap().cells[0].tile, 4);
}

#[test]
fn cells_come_chunk_by_chunk_and_row_by_row() {
    let mut map = empty_map();
    map.chunk_dim = 2;
    map.texture = Some(Guid::from_u128(0xAB));
    map.atlas_cols = 0;
    map.chunks = vec![
        TileChunk { coord: (-1, 0), tiles: vec![0, 9, 8, 0] },
        TileChunk { coord: (1, 2), tiles: vec![1, 2, 3, 4] },
    ];
    let (doc, e) = doc_with(Some(map));
    let dto = build_dto(&doc, e).unwrap();
    let cell = |x: i32, y: i32, tile: u32| TilemapCellDto { x, y, tile };
    assert_eq!(
        dto.cells,
        vec![
            cell(-1, 0, 9),
            cell(-2, 1, 8),
            cell(2, 4, 1),
            cell(3, 4, 2),
            cell(2, 5, 3),
            cell(3, 5, 4),
        ]
    );
    assert_eq!(dto.entity, "00000000-0000-0000-0000-000000007113");
    assert_eq!(dto.texture.as_deref(), Some("00000000-0000-0000-0000-0000000000ab"));
    assert_eq!((dto.tile_width, dto.tile_height), (f(1.0), f(0.5)));
    assert_eq!((dto.atlas_cols, dto.palette_cols, dto.atlas_rows), (1, 1, 4));
}

#[test]
fn a_stroke_taken_back_leaves_the_map_it_found() {
    let mut map = empty_map();
    for (x, y, t) in [(0, 0, 5), (33, 0, 6), (-1, -1, 7)] {
        map.set_tile(x, y, t);
    }
    assert_eq!(
        map.chunks.iter().map(|c| c.coord).collect::<Vec<(i32, i32)>>(),
        vec![(-1, -1), (0, 0), (1, 0)]
    );
    assert_eq!((map.tile(33, 0), map.tile(-1, -1), map.tile(7, 7)), (6, 7, 0));
    let before = map.clone();
    let (mut doc, e) = doc_with(Some(map));
    // Erases a whole chunk, makes another and passes one cell twice.
    assert_eq!(
        doc.edit_paint_tiles(e, &vec![(33, 0, 0), (100, 100, 1), (0, 0, 8), (0, 0, 9), (-1, -1, 7)]),
        4
    );
    let painted = doc.entities[0].parts.tilemap.clone().unwrap();
    assert_eq!((painted.tile(0, 0), painted.tile(33, 0), painted.tile(100, 100)), (9, 0, 1));
    assert_eq!(
        painted.chunks.iter().map(|c| c.coord).collect::<Vec<(i32, i32)>>(),
        vec![(-1, -1), (0, 0), (3, 3)]
    );
    assert!(doc.undo());
    assert_eq!(doc.entities[0].parts.tilemap.clone().unwrap(), before);
    assert!(doc.redo());
    assert_eq!(doc.entities[0].parts.tilemap.clone().unwrap(), painted);
}

#[test]
fn cells_at_the_edge_of_the_plane_can_be_painted() {
    let mut map = empty_map();
    map.set_tile(i32::MIN, i32::MAX, 3);
    assert_eq!(map.tile(i32::MIN, i32::MAX), 3);
    assert_eq!(map.chunks[0].coord, (-67108864, 67108863));
}

#[test]
fn a_map_can_be_checked_before_it_is_painted_or_shown() {
    let chunk = |x: i32, y: i32, tiles: Vec<u32>| TileChunk { coord: (x, y), tiles };
    let map = |dim: i32, chunks: Vec<TileChunk>| {
        let mut m = empty_map();
        m.chunk_dim = dim;
        m.chunks = chunks;
        m
    };
    let told = |m: &Tilemap| (m.is_settled(), m.is_fit());
    assert_eq!(told(&empty_map()), (true, true));
    assert_eq!(told(&map(0, vec![])), (false, true));
    assert_eq!(told(&map(-1, vec![])), (false, false));
    assert_eq!(told(&map(1, vec![chunk(0, 1, vec![5]), chunk(1, 0, vec![6])])), (true, true));
    assert_eq!(told(&map(1, vec![chunk(1, 0, vec![5]), chunk(0, 1, vec![6])])), (false, true));
    assert_eq!(told(&map(1, vec![chunk(0, 1, vec![5]), chunk(0, 1, vec![6])])), (false, true));
    assert_eq!(told(&map(1, vec![chunk(0, 0, vec![0])])), (false, true));
    assert_eq!(told(&map(2, vec![chunk(0, 0, vec![1])])), (false, false));
    assert_eq!(told(&map(1, vec![chunk(i32::MIN, i32::MAX, vec![1])])), (true, true));
    assert_eq!(told(&map(2, vec![chunk(i32::MAX, 0, vec![1; 4])])), (true, false));
    assert_eq!(told(&map(2, vec![chunk(0x3fff_ffff, -0x4000_0000, vec![1; 4])])), (true, true));
}
