//! Cuts, strokes, digs and their replay.

use inf_editor_core::bits::F64;
use inf_editor_core::guid::Guid;
use inf_editor_core::scene::carve::{
    CarveRefusal, CarveTally, CarveVerdict, DIG_TOO_LARGE_REFUSAL, INLINE_TERRAIN_CARVE_REFUSAL,
    MAX_DIG_SAMPLES, POISONED_STORE_CARVE_REFUSAL, SPOIL_SHORTFALL_REFUSAL,
    SPOIL_TOO_LARGE_REFUSAL, VOLUME_NOT_LOADED_CARVE_REFUSAL,
};
use inf_editor_core::scene::command::{EditCommand, HoleDelta, HostWork, VoxelDelta};
use inf_editor_core::scene::component::{Component, Transform, Vec3d};
use inf_editor_core::scene::dig::{
    ground_surface_y, replay_opens_ground, spoil_site, spoil_step, spoil_stroke, CarveNote,
    HoleReplay, ReplayOutcome, SpoilStep, StoreState,
};
use inf_editor_core::scene::doc::SceneDoc;
use inf_editor_core::scene::record::EntityRecord;
use inf_editor_core::scene::stroke::{
    CarveStroke, CutOutcome, CutReport, Opening, ShapeBox, SpoilChoice, SpoilOutcome, SpoilReport,
};
use inf_editor_core::scene::terrain::{Terrain, TerrainData};

const MATERIALS: usize = 4;

fn f(x: f64) -> F64 {
    F64::from_bits(x.to_bits())
}

fn v3(x: f64, y: f64, z: f64) -> Vec3d {
    Vec3d { x: f(x), y: f(y), z: f(z) }
}

fn g(n: u128) -> Guid {
    Guid::from_u128(n)
}

fn shape(lo: f64, hi: f64) -> ShapeBox {
    ShapeBox { valid: true, lo: v3(lo, lo, lo), hi: v3(hi, hi, hi) }
}

fn cut(carved: [u64; MATERIALS]) -> CutOutcome {
    CutOutcome::Cut(CutReport {
        touched: carved.iter().sum::<u64>() + 1,
        carved: carved.to_vec(),
        filled: 0,
        created_chunks: 1,
        changed: true,
    })
}

fn placed(counts: [u64; MATERIALS]) -> SpoilOutcome {
    SpoilOutcome::Placed(SpoilReport { placed: counts.to_vec(), created_chunks: 2 })
}

fn voxels(patches: usize) -> VoxelDelta {
    VoxelDelta { data: Component { bytes: vec![7] }, memory_bytes: 100, patches }
}

fn holes(patches: usize) -> HoleDelta {
    HoleDelta { data: Component { bytes: vec![9] }, memory_bytes: 10, patches }
}

fn terrain(n: u128, asset: Option<Guid>) -> EntityRecord {
    let mut rec = EntityRecord::named(g(n), format!("T{n}"), None, Transform::identity());
    rec.terrain = Some(Terrain {
        meters_per_sample: f(1.0),
        tile_resolution: 8,
        data: TerrainData::new(8, f(1.0)),
        layers: Component { bytes: vec![] },
        macro_variation: f(0.0),
        asset,
        biome_set: None,
        biome_population: vec![],
    });
    rec
}

/// A prop, two terrains with assets and one stored in the level.
fn level() -> SceneDoc {
    let mut doc = SceneDoc::new();
    for rec in [
        EntityRecord::named(g(1), "Prop".to_string(), None, Transform::identity()),
        terrain(2, Some(g(20))),
        terrain(3, None),
        terrain(4, Some(g(40))),
    ] {
        assert!(doc.edit_create(rec));
    }
    doc.history.clear();
    doc.mark_saved();
    doc
}

#[test]
fn every_refusal_has_its_sentence() {
    let said = |r: CarveRefusal| r.message();
    assert_eq!(said(CarveRefusal::InlineTerrain { terrain: g(1) }), INLINE_TERRAIN_CARVE_REFUSAL);
    assert_eq!(said(CarveRefusal::VolumeNotLoaded), VOLUME_NOT_LOADED_CARVE_REFUSAL);
    assert_eq!(said(CarveRefusal::PoisonedStore), POISONED_STORE_CARVE_REFUSAL);
    assert_eq!(said(CarveRefusal::TooLarge { samples: 1 }), DIG_TOO_LARGE_REFUSAL);
    assert_eq!(said(CarveRefusal::SpoilTooLarge { voxels: 1 }), SPOIL_TOO_LARGE_REFUSAL);
    assert_eq!(said(CarveRefusal::SpoilShortfall), SPOIL_SHORTFALL_REFUSAL);
    assert!(INLINE_TERRAIN_CARVE_REFUSAL.starts_with("Carve refused: this cut breaks through"));
    assert!(DIG_TOO_LARGE_REFUSAL.contains("Nothing was cut."));
}

#[test]
fn the_verdict_names_the_terrains_a_cut_opens() {
    let doc = level();
    let none = doc.carve_verdict(&vec![true, false, false, false]);
    assert_eq!(none, CarveVerdict::NoSurface);
    assert!(none.allowed() && none.terrains().is_empty());
    let opens = doc.carve_verdict(&vec![false, true, false, true]);
    assert_eq!(opens, CarveVerdict::Opens { terrains: vec![g(2), g(4)] });
    assert_eq!(opens.terrains(), vec![g(2), g(4)]);
    let refused = doc.carve_verdict(&vec![false, true, true, true]);
    assert_eq!(refused, CarveVerdict::RefusedInline { terrain: g(3) });
    assert!(!refused.allowed() && refused.terrains().is_empty());
}

#[test]
fn totals_break_down_by_material() {
    let mut t = CarveTally::zero(MATERIALS);
    assert!(t.is_noop() && t.conserved());
    assert_eq!(t.material_breakdown(), "");
    t.carved_by_material = vec![412, 0, 96, 0];
    assert_eq!(t.material_breakdown(), "layer 0: 412, layer 2: 96");
    assert!(!t.conserved());
    t.spoiled_by_material = vec![412, 0, 96, 0];
    assert!(t.conserved());
    assert_eq!(t.spoiled(), 508);
    t.holes = 1;
    assert!(!t.is_noop());
}

#[test]
fn a_refused_cut_opens_no_ground() {
    let mut doc = level();
    let v0 = doc.version;
    let mut stroke = CarveStroke::begin(g(9), MATERIALS);
    let open = vec![Opening { terrain: g(2), changed: 5 }];
    assert_eq!(
        stroke.dab(&mut doc, &CutOutcome::Poisoned, &shape(0.0, 1.0), &vec![g(2)], &open),
        Err(CarveRefusal::PoisonedStore)
    );
    assert_eq!(
        stroke.dab(&mut doc, &CutOutcome::NotLoaded, &shape(0.0, 1.0), &vec![g(2)], &open),
        Err(CarveRefusal::VolumeNotLoaded)
    );
    assert_eq!(CutOutcome::Poisoned.refusal(), Some(CarveRefusal::PoisonedStore));
    assert_eq!(cut([0; 4]).refusal(), None);
    assert!(stroke.tally().is_noop());
    assert_eq!(stroke.bounds(), None);
    assert!(stroke.opened.is_empty());
    assert_eq!(doc.version, v0);
    assert!(!doc.is_dirty());
}

#[test]
fn dabs_add_up() {
    let mut doc = level();
    let mut stroke = CarveStroke::begin(g(9), MATERIALS);
    assert_eq!(stroke.volume(), g(9));
    let open = |t: u128, n: u64| Opening { terrain: g(t), changed: n };
    let both = vec![g(2), g(4)];
    stroke.dab(&mut doc, &cut([3, 0, 1, 0]), &shape(0.0, 1.0), &both, &vec![open(4, 2), open(2, 0)]).unwrap();
    let t = stroke
        .dab(&mut doc, &cut([1, 0, 0, 5]), &shape(-3.0, 0.5), &both, &vec![open(4, 1)])
        .unwrap();
    assert_eq!(t.carved_by_material, vec![4, 0, 1, 5]);
    assert_eq!((t.carved, t.touched, t.created_chunks, t.holes), (10, 12, 2, 3));
    assert_eq!(stroke.bounds(), Some((v3(-3.0, -3.0, -3.0), v3(1.0, 1.0, 1.0))));
    assert_eq!(stroke.opened, vec![g(2), g(4)]);
    assert!(doc.is_dirty());
    assert_eq!(doc.history.undo_len(), 0, "a dab records nothing yet");
    // A shape that is none does not drag the bounds to the origin.
    let mut degenerate = shape(0.0, 0.0);
    degenerate.valid = false;
    stroke.dab(&mut doc, &cut([0; 4]), &degenerate, &vec![], &vec![]).unwrap();
    let mut unbounded = shape(0.0, 1.0);
    unbounded.hi.x = f(f64::INFINITY);
    stroke.dab(&mut doc, &cut([0; 4]), &unbounded, &vec![], &vec![]).unwrap();
    assert_eq!(stroke.bounds(), Some((v3(-3.0, -3.0, -3.0), v3(1.0, 1.0, 1.0))));
}

#[test]
fn a_cut_below_the_ground_still_marks_the_document() {
    let mut doc = level();
    let v0 = doc.version;
    let mut stroke = CarveStroke::begin_deferred(g(9), MATERIALS);
    assert!(!stroke.remesh);
    stroke.dab(&mut doc, &cut([1, 0, 0, 0]), &shape(0.0, 1.0), &vec![], &vec![]).unwrap();
    assert_eq!(doc.version, v0 + 1);
    let idle = CutOutcome::Cut(CutReport {
        touched: 0,
        carved: vec![0; MATERIALS],
        filled: 0,
        created_chunks: 0,
        changed: false,
    });
    stroke.dab(&mut doc, &idle, &shape(0.0, 1.0), &vec![], &vec![]).unwrap();
    assert_eq!(doc.version, v0 + 1, "a dab that moved nothing marks nothing");
}

fn dug(carved: [u64; MATERIALS]) -> CarveStroke {
    let mut doc = level();
    let mut stroke = CarveStroke::begin(g(9), MATERIALS);
    stroke.dab(&mut doc, &cut(carved), &shape(0.0, 2.0), &vec![], &vec![]).unwrap();
    stroke
}

#[test]
fn the_heap_goes_where_it_was_told() {
    let stroke = dug([5, 0, 0, 0]);
    let site = v3(10.0, 1.0, 2.0);
    let ground = Some(f(-4.0));
    assert_eq!(spoil_site(&stroke, SpoilChoice::Discard, site, ground), None);
    assert_eq!(spoil_site(&stroke, SpoilChoice::Auto, site, ground), Some(v3(10.0, -4.0, 2.0)));
    assert_eq!(spoil_site(&stroke, SpoilChoice::Auto, site, None), Some(site));
    let at = v3(7.0, 7.0, 7.0);
    assert_eq!(spoil_site(&stroke, SpoilChoice::At(at), site, ground), Some(at));
    let lost = v3(f64::NAN, 0.0, 0.0);
    assert_eq!(spoil_site(&stroke, SpoilChoice::At(lost), site, ground), None);
    let fresh = CarveStroke::begin(g(9), MATERIALS);
    assert_eq!(spoil_site(&fresh, SpoilChoice::At(at), site, ground), None);
    assert_eq!(SpoilChoice::default(), SpoilChoice::Discard);
}

#[test]
fn a_heap_stands_on_the_topmost_ground() {
    assert_eq!(ground_surface_y(&vec![]), None);
    assert_eq!(ground_surface_y(&vec![None, None]), None);
    let heights = vec![None, Some(f(1.0)), Some(f(3.0)), Some(f(-9.0)), None];
    assert_eq!(ground_surface_y(&heights), Some(f(3.0)));
}

#[test]
fn a_heap_holds_exactly_what_was_removed() {
    let site = v3(1.0, 1.0, 1.0);
    let mut stroke = dug([5, 0, 2, 0]);
    let plan = stroke.spoil_plan(site);
    assert_eq!(plan.counts, vec![5, 0, 2, 0]);
    assert_eq!((plan.site, plan.excluding), (site, stroke.bounds()));
    let step = SpoilStep::Place(site);
    assert_eq!(
        spoil_stroke(&mut stroke, step, &placed([5, 0, 1, 1])),
        Err(CarveRefusal::SpoilShortfall)
    );
    assert_eq!(
        spoil_stroke(&mut stroke, step, &SpoilOutcome::Poisoned),
        Err(CarveRefusal::PoisonedStore)
    );
    assert_eq!(
        spoil_stroke(&mut stroke, step, &SpoilOutcome::NotLoaded),
        Err(CarveRefusal::VolumeNotLoaded)
    );
    assert_eq!(stroke.tally().spoiled(), 0);
    assert_eq!(spoil_stroke(&mut stroke, step, &placed([5, 0, 2, 0])), Ok(()));
    let t = stroke.tally();
    assert!(t.conserved());
    assert_eq!((t.spoiled(), t.filled, t.touched, t.created_chunks), (7, 7, 15, 3));
}

#[test]
fn a_stroke_too_large_for_a_heap_is_told() {
    let site = v3(1.0, 1.0, 1.0);
    let full = dug([MAX_DIG_SAMPLES, 0, 0, 0]);
    assert_eq!(spoil_step(&full, SpoilChoice::At(site), site, None), SpoilStep::Place(site));
    assert_eq!(spoil_step(&full, SpoilChoice::Discard, site, None), SpoilStep::Skip);
    let over = dug([MAX_DIG_SAMPLES, 1, 0, 0]);
    assert_eq!(
        spoil_step(&over, SpoilChoice::Discard, site, None),
        SpoilStep::Refuse(CarveRefusal::SpoilTooLarge { voxels: MAX_DIG_SAMPLES + 1 })
    );
}

#[test]
fn a_stroke_is_one_entry_and_an_empty_one_none() {
    let mut doc = level();
    let stroke = dug([5, 0, 0, 0]);
    assert!(!doc.edit_commit_carve(&stroke, voxels(0), vec![(g(2), holes(0))]));
    assert_eq!(doc.history.undo_len(), 0);
    assert!(doc.edit_commit_carve(&stroke, voxels(3), vec![(g(2), holes(0)), (g(4), holes(1))]));
    assert_eq!(doc.history.undo_label(), Some("Carve Voxels"));
    assert!(matches!(
        &doc.history.undo[0].commands[0],
        EditCommand::CarveVoxels { volume, delta, holes }
            if *volume == g(9) && delta.patches == 3 && holes.len() == 1 && holes[0].0 == g(4)
    ));
    // Holes alone are a record too.
    assert!(doc.edit_commit_carve(&stroke, voxels(0), vec![(g(4), holes(1))]));
    assert_eq!(doc.history.undo_len(), 2);
}

#[test]
fn a_dig_that_displaced_its_soil_is_an_excavation() {
    let mut doc = level();
    let site = v3(1.0, 1.0, 1.0);
    let (t, recorded, refusal) = doc.edit_commit_dig(
        dug([5, 0, 0, 0]),
        SpoilStep::Place(site),
        &placed([5, 0, 0, 0]),
        voxels(1),
        vec![],
    );
    assert!(t.conserved() && recorded && refusal.is_none());
    assert_eq!(doc.history.undo_label(), Some("Excavate"));
    // A heap that does not fit leaves the cut, as one entry.
    let (t, recorded, refusal) = doc.edit_commit_dig(
        dug([5, 0, 0, 0]),
        SpoilStep::Place(site),
        &placed([4, 0, 0, 0]),
        voxels(1),
        vec![],
    );
    assert!(!t.conserved() && recorded);
    assert_eq!(refusal, Some(CarveRefusal::SpoilShortfall));
    assert_eq!(doc.history.undo_label(), Some("Carve Voxels"));
    assert_eq!(doc.history.undo_len(), 2);
}

fn refusal_of(
    doc: &SceneDoc,
    samples: Vec<u64>,
    store: StoreState,
    crossings: Vec<Vec<bool>>,
) -> Option<CarveRefusal> {
    doc.edit_dig(g(9), MATERIALS, &samples, store, &crossings).err()
}

#[test]
fn a_dig_is_judged_whole() {
    let doc = level();
    let clear = vec![false; 4];
    let inline = vec![false, false, true, false];
    assert_eq!(
        refusal_of(&doc, vec![MAX_DIG_SAMPLES, 1], StoreState::Poisoned, vec![inline.clone()]),
        Some(CarveRefusal::TooLarge { samples: MAX_DIG_SAMPLES + 1 })
    );
    assert_eq!(
        refusal_of(&doc, vec![u64::MAX, u64::MAX], StoreState::Ready, vec![]),
        Some(CarveRefusal::TooLarge { samples: u64::MAX })
    );
    assert_eq!(
        refusal_of(&doc, vec![1], StoreState::Poisoned, vec![inline.clone()]),
        Some(CarveRefusal::PoisonedStore)
    );
    assert_eq!(
        refusal_of(&doc, vec![1], StoreState::NotLoaded, vec![inline.clone()]),
        Some(CarveRefusal::VolumeNotLoaded)
    );
    assert_eq!(
        refusal_of(&doc, vec![1, 1], StoreState::Ready, vec![clear.clone(), inline]),
        Some(CarveRefusal::InlineTerrain { terrain: g(3) })
    );
    assert_eq!(refusal_of(&doc, vec![MAX_DIG_SAMPLES], StoreState::Ready, vec![clear]), None);
    assert_eq!(doc.history.undo_len(), 0);
    assert!(!doc.is_dirty());
}

#[test]
fn a_dig_is_cut_leg_by_leg_and_committed_as_one() {
    let mut doc = level();
    let crossings = vec![vec![false, true, false, true], vec![false; 4]];
    let mut dig = doc.edit_dig(g(9), MATERIALS, &vec![10, 10], StoreState::Ready, &crossings).ok().unwrap();
    assert_eq!(dig.next_terrains(), Some(&vec![g(2), g(4)]));
    let open = vec![Opening { terrain: g(2), changed: 1 }];
    assert_eq!(doc.cut_leg(&mut dig, &cut([2, 0, 0, 0]), &shape(0.0, 1.0), &open), Ok(()));
    assert_eq!(dig.next_terrains(), Some(&vec![]));
    assert_eq!(doc.cut_leg(&mut dig, &cut([1, 0, 0, 0]), &shape(1.0, 2.0), &vec![]), Ok(()));
    assert_eq!(dig.next_terrains(), None);
    let step = spoil_step(&dig.stroke, SpoilChoice::Auto, v3(9.0, 0.0, 0.0), Some(f(2.0)));
    assert_eq!(step, SpoilStep::Place(v3(9.0, 2.0, 0.0)));
    let t = doc
        .finish_dig(dig, None, step, &placed([3, 0, 0, 0]), voxels(2), vec![(g(2), holes(1))])
        .unwrap();
    assert!(t.conserved());
    assert_eq!(t.carved, 3);
    assert_eq!(doc.history.undo_len(), 1);
    assert_eq!(doc.history.undo_label(), Some("Excavate"));
}

#[test]
fn a_leg_that_is_refused_leaves_an_entry_for_what_was_cut() {
    let mut doc = level();
    let crossings = vec![vec![false; 4], vec![false; 4]];
    let mut dig = doc.edit_dig(g(9), MATERIALS, &vec![10, 10], StoreState::Ready, &crossings).ok().unwrap();
    assert!(doc.cut_leg(&mut dig, &cut([2, 0, 0, 0]), &shape(0.0, 1.0), &vec![]).is_ok());
    let refusal = doc
        .cut_leg(&mut dig, &CutOutcome::NotLoaded, &shape(1.0, 2.0), &vec![])
        .unwrap_err();
    assert_eq!(dig.cut, 1);
    let end = doc.finish_dig(
        dig,
        Some(refusal),
        SpoilStep::Skip,
        &SpoilOutcome::NotLoaded,
        voxels(1),
        vec![],
    );
    assert_eq!(end, Err(CarveRefusal::VolumeNotLoaded));
    assert_eq!(doc.history.undo_label(), Some("Carve Voxels"));
}

#[test]
fn the_two_halves_of_a_cut_are_replayed_together() {
    assert!(replay_opens_ground(3, ReplayOutcome::Replayed(true)));
    assert!(!replay_opens_ground(3, ReplayOutcome::Replayed(false)));
    assert!(!replay_opens_ground(3, ReplayOutcome::Poisoned));
    assert!(replay_opens_ground(0, ReplayOutcome::Replayed(false)));
    assert!(replay_opens_ground(0, ReplayOutcome::Poisoned));

    let mut doc = level();
    let v0 = doc.version;
    let replays = vec![
        HoleReplay { terrain: g(2), patches: 4, skipped: Some(0) },
        HoleReplay { terrain: g(4), patches: 5, skipped: Some(2) },
        HoleReplay { terrain: g(8), patches: 6, skipped: None },
    ];
    let skipped = CarveNote::PatchesSkipped { terrain: g(4), skipped: 2, patches: 5 };
    let missing = CarveNote::TerrainMissing { terrain: g(8), patches: 6 };
    assert_eq!(
        doc.raw_write_carve(3, 3, ReplayOutcome::Replayed(true), &replays),
        vec![skipped, missing]
    );
    assert_eq!(
        doc.raw_write_carve(3, 3, ReplayOutcome::Replayed(false), &replays),
        vec![CarveNote::VolumeMissing { patches: 3, holes: 3 }]
    );
    assert_eq!(
        doc.raw_write_carve(3, 3, ReplayOutcome::Poisoned, &replays),
        vec![
            CarveNote::Unreadable { holes: 3 },
            CarveNote::VolumeMissing { patches: 3, holes: 3 },
        ]
    );
    assert_eq!(
        doc.raw_write_carve(0, 3, ReplayOutcome::Poisoned, &replays),
        vec![CarveNote::UnreadableWithoutSamples { holes: 3 }, skipped, missing]
    );
    assert_eq!(doc.version, v0 + 4, "the document is marked either way");
    assert!(doc.is_dirty());
}

#[test]
fn undoing_a_cut_asks_the_host_for_both_halves() {
    let mut doc = level();
    assert!(doc.edit_commit_carve(&dug([1, 0, 0, 0]), voxels(2), vec![(g(2), holes(1))]));
    assert!(doc.history.undo_needs_host());
    let replay = doc.begin_undo().unwrap();
    assert!(matches!(
        replay.step(&mut doc, 0),
        Some(HostWork::Carve { volume, delta, holes, revert: true })
            if volume == g(9) && delta.patches == 2 && holes.len() == 1
    ));
    doc.finish_replay(replay);
    assert!(doc.history.redo_needs_host() && !doc.history.undo_needs_host());
}
