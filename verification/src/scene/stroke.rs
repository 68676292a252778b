//! Carve strokes: what the answers of the volume and of the ground come to, dab
//! by dab.

use crate::bits::F64;
use crate::guid::Guid;
use crate::scene::carve;
use crate::scene::carve::{copy_counts, same_counts, sum_of, CarveRefusal, CarveTally, TallyModel};
use crate::scene::component::Vec3d;
use crate::scene::doc::SceneDoc;
use vstd::prelude::*;

verus! {

/// Where the material of a dig goes.
#[derive(Clone, Copy, Debug, PartialEq, Eq, Structural)]
pub enum SpoilChoice {
    /// Out of the world.
    Discard,
    /// Onto a heap at the default site.
    Auto,
    /// Onto a heap at this point; one that is not finite discards.
    At(Vec3d),
}

impl Default for SpoilChoice {
    fn default() -> (r: SpoilChoice)
        ensures
            r == SpoilChoice::Discard,
    {
        SpoilChoice::Discard
    }
}

/// What a volume reports of one cut: the samples that changed, those removed by
/// material, those filled, the chunks made, and whether anything changed.
#[derive(Debug, PartialEq, Eq)]
pub struct CutReport {
    pub touched: u64,
    pub carved: Vec<u64>,
    pub filled: u64,
    pub created_chunks: u64,
    pub changed: bool,
}

/// What the volumes answer to a cut.
#[derive(Debug, PartialEq, Eq)]
pub enum CutOutcome {
    /// The working set cannot be read.
    Poisoned,
    /// The volume has no loaded chunks.
    NotLoaded,
    Cut(CutReport),
}

/// The box around the shape of a cut, and whether the shape is a proper one.
#[derive(Clone, Copy, Debug, PartialEq, Eq, Structural)]
pub struct ShapeBox {
    pub valid: bool,
    pub lo: Vec3d,
    pub hi: Vec3d,
}

/// How many samples of a terrain's hole mask a cut moved.
#[derive(Clone, Copy, Debug, PartialEq, Eq, Structural)]
pub struct Opening {
    pub terrain: Guid,
    pub changed: u64,
}

/// What a heap came to: the samples placed by material, and the chunks made.
#[derive(Debug, PartialEq, Eq)]
pub struct SpoilReport {
    pub placed: Vec<u64>,
    pub created_chunks: u64,
}

/// What the volumes answer to a heap.
#[derive(Debug, PartialEq, Eq)]
pub enum SpoilOutcome {
    Poisoned,
    NotLoaded,
    Placed(SpoilReport),
}

// ---------------------------------------------------------------- boxes

pub open spec fn finite_point(p: Vec3d) -> bool {
    p.x.finite() && p.y.finite() && p.z.finite()
}

pub fn is_finite_point(p: &Vec3d) -> (r: bool)
    ensures
        r == finite_point(*p),
{
    p.x.is_finite() && p.y.is_finite() && p.z.is_finite()
}

/// The smaller of two numbers; the second where neither is smaller.
pub open spec fn lower(a: F64, b: F64) -> F64 {
    if a.below(b) {
        a
    } else {
        b
    }
}

/// The greater of two numbers; the second where neither is greater.
pub open spec fn upper(a: F64, b: F64) -> F64 {
    if b.below(a) {
        a
    } else {
        b
    }
}

fn min_of(a: F64, b: F64) -> (r: F64)
    ensures
        r == lower(a, b),
{
    if a.less(&b) {
        a
    } else {
        b
    }
}

fn max_of(a: F64, b: F64) -> (r: F64)
    ensures
        r == upper(a, b),
{
    if b.less(&a) {
        a
    } else {
        b
    }
}

/// The bounds of a stroke with one more shape: the box around both, and no
/// change for a shape that is none.
pub open spec fn grown(bounds: Option<(Vec3d, Vec3d)>, shape: ShapeBox) -> Option<(Vec3d, Vec3d)> {
    if shape.valid && finite_point(shape.lo) && finite_point(shape.hi) {
        match bounds {
            Some((l, h)) => Some(
                (
                    Vec3d {
                        x: lower(l.x, shape.lo.x),
                        y: lower(l.y, shape.lo.y),
                        z: lower(l.z, shape.lo.z),
                    },
                    Vec3d {
                        x: upper(h.x, shape.hi.x),
                        y: upper(h.y, shape.hi.y),
                        z: upper(h.z, shape.hi.z),
                    },
                ),
            ),
            None => Some((shape.lo, shape.hi)),
        }
    } else {
        bounds
    }
}

fn grow(bounds: Option<(Vec3d, Vec3d)>, shape: &ShapeBox) -> (r: Option<(Vec3d, Vec3d)>)
    ensures
        r == grown(bounds, *shape),
{
    if shape.valid && is_finite_point(&shape.lo) && is_finite_point(&shape.hi) {
        match bounds {
            Some((l, h)) => Some(
                (
                    Vec3d {
                        x: min_of(l.x, shape.lo.x),
                        y: min_of(l.y, shape.lo.y),
                        z: min_of(l.z, shape.lo.z),
                    },
                    Vec3d {
                        x: max_of(h.x, shape.hi.x),
                        y: max_of(h.y, shape.hi.y),
                        z: max_of(h.z, shape.hi.z),
                    },
                ),
            ),
            None => Some((shape.lo, shape.hi)),
        }
    } else {
        bounds
    }
}

// ---------------------------------------------------------------- stroke

/// A carve gesture in progress.
pub struct CarveStroke {
    /// The volume that is cut.
    pub volume: Guid,
    pub tally: CarveTally,
    /// The box around every shape that was cut.
    pub bounds: Option<(Vec3d, Vec3d)>,
    /// Whether each dab is meshed at once.
    pub remesh: bool,
    /// The terrains whose hole masks the stroke has to do with, in order.
    pub opened: Vec<Guid>,
}

/// What a stroke holds.
pub struct StrokeModel {
    pub volume: Guid,
    pub tally: TallyModel,
    pub bounds: Option<(Vec3d, Vec3d)>,
    pub remesh: bool,
    pub opened: Seq<Guid>,
}

impl View for CarveStroke {
    type V = StrokeModel;

    open spec fn view(&self) -> StrokeModel {
        StrokeModel {
            volume: self.volume,
            tally: self.tally@,
            bounds: self.bounds,
            remesh: self.remesh,
            opened: self.opened@,
        }
    }
}

/// Identities in ascending order, each once.
pub open spec fn ascending(list: Seq<Guid>) -> bool {
    forall|i: int, j: int|
        #![trigger list[i], list[j]]
        0 <= i < j < list.len() ==> list[i].value < list[j].value
}

impl StrokeModel {
    /// The totals go together, and the terrains are listed in order.
    pub open spec fn wf(self) -> bool {
        self.tally.wf() && ascending(self.opened)
    }
}

/// Whether every opening is on one of the terrains.
pub open spec fn openings_on(openings: Seq<Opening>, terrains: Seq<Guid>) -> bool {
    forall|i: int|
        0 <= i < openings.len() ==> terrains.contains((#[trigger] openings[i]).terrain)
}

/// The samples that the first `n` openings moved.
pub open spec fn opened_samples(openings: Seq<Opening>, n: int) -> int
    decreases n,
{
    if n <= 0 {
        0
    } else {
        opened_samples(openings, n - 1) + openings[n - 1].changed
    }
}

/// Whether one of the openings is on that terrain.
pub open spec fn opens(openings: Seq<Opening>, guid: Guid) -> bool {
    exists|i: int| 0 <= i < openings.len() && (#[trigger] openings[i]).terrain == guid
}

/// The counts of both, material by material.
pub open spec fn summed(a: Seq<u64>, b: Seq<u64>) -> Seq<u64> {
    Seq::new(a.len(), |i: int| (a[i] + b[i]) as u64)
}

impl TallyModel {
    /// The totals after a cut and the openings that followed it.
    pub open spec fn after_cut(
        self,
        touched: int,
        carved: Seq<u64>,
        filled: int,
        created_chunks: int,
        holes: int,
    ) -> TallyModel {
        TallyModel {
            touched: self.touched + touched,
            carved: self.carved + carve::total(carved),
            filled: self.filled + filled,
            created_chunks: self.created_chunks + created_chunks,
            holes: self.holes + holes,
            carved_by_material: summed(self.carved_by_material, carved),
            spoiled_by_material: self.spoiled_by_material,
        }
    }

    /// The totals after a heap was placed.
    pub open spec fn after_spoil(self, placed: Seq<u64>, created_chunks: int) -> TallyModel {
        TallyModel {
            touched: self.touched + carve::total(placed),
            filled: self.filled + carve::total(placed),
            created_chunks: self.created_chunks + created_chunks,
            spoiled_by_material: placed,
            ..self
        }
    }

    /// Whether the totals are counts of 64 bits.
    pub open spec fn fits(self) -> bool {
        &&& self.touched <= u64::MAX
        &&& self.carved <= u64::MAX
        &&& self.filled <= u64::MAX
        &&& self.created_chunks <= u64::MAX
        &&& self.holes <= u64::MAX
    }
}

/// Whether adding the counts of a report stays within 64 bits.
pub open spec fn cut_fits(t: TallyModel, report: CutReport, openings: Seq<Opening>) -> bool {
    &&& report.carved@.len() == t.carved_by_material.len()
    &&& t.after_cut(
        report.touched as int,
        report.carved@,
        report.filled as int,
        report.created_chunks as int,
        opened_samples(openings, openings.len() as int),
    ).fits()
    &&& forall|i: int|
        0 <= i < report.carved@.len() ==> t.carved_by_material[i] + (#[trigger] report.carved@[i])
            <= u64::MAX
}

/// The refusal that a volume's answer comes to.
pub open spec fn cut_refusal(cut: CutOutcome) -> Option<CarveRefusal> {
    match cut {
        CutOutcome::Poisoned => Some(CarveRefusal::PoisonedStore),
        CutOutcome::NotLoaded => Some(CarveRefusal::VolumeNotLoaded),
        CutOutcome::Cut(_) => None,
    }
}

impl CutOutcome {
    /// Whether the cut was made, and the ground above it may be opened.
    pub fn refusal(&self) -> (r: Option<CarveRefusal>)
        ensures
            r == cut_refusal(*self),
    {
        match self {
            CutOutcome::Poisoned => Some(CarveRefusal::PoisonedStore),
            CutOutcome::NotLoaded => Some(CarveRefusal::VolumeNotLoaded),
            CutOutcome::Cut(_) => None,
        }
    }
}

impl CarveStroke {
    /// Open a stroke on a volume of so many materials, each dab meshed as it
    /// lands.
    pub fn begin(volume: Guid, materials: usize) -> (r: CarveStroke)
        ensures
            r@ == (StrokeModel {
                volume,
                tally: TallyModel::zero(materials as nat),
                bounds: None,
                remesh: true,
                opened: Seq::empty(),
            }),
            r@.wf(),
    {
        let r = CarveStroke {
            volume,
            tally: CarveTally::zero(materials),
            bounds: None,
            remesh: true,
            opened: Vec::new(),
        };
        proof {
            assert(r@.opened =~= Seq::<Guid>::empty());
        }
        r
    }

    /// Open a stroke whose dabs are meshed later.
    pub fn begin_deferred(volume: Guid, materials: usize) -> (r: CarveStroke)
        ensures
            r@ == (StrokeModel {
                volume,
                tally: TallyModel::zero(materials as nat),
                bounds: None,
                remesh: false,
                opened: Seq::empty(),
            }),
            r@.wf(),
    {
        let mut r = CarveStroke::begin(volume, materials);
        r.remesh = false;
        r
    }

    /// The volume that is cut.
    pub fn volume(&self) -> (r: Guid)
        ensures
            r == self@.volume,
    {
        self.volume
    }

    /// The totals so far.
    pub fn tally(&self) -> (r: CarveTally)
        ensures
            r@ == self@.tally,
    {
        self.tally.clone()
    }

    /// The box around everything that was cut so far.
    pub fn bounds(&self) -> (r: Option<(Vec3d, Vec3d)>)
        ensures
            r == self@.bounds,
    {
        self.bounds
    }

    /// Keep a terrain among those the stroke has to do with.
    fn note_opened(&mut self, terrain: Guid)
        ensures
            final(self)@ == (StrokeModel { opened: final(self)@.opened, ..old(self)@ }),
            ascending(old(self)@.opened) ==> ascending(final(self)@.opened),
            forall|g: Guid|
                #[trigger] final(self)@.opened.contains(g) <==> old(self)@.opened.contains(g) || g
                    == terrain,
    {
        let ghost before = self.opened@;
        let mut p: usize = 0;
        while p < self.opened.len() && self.opened[p].value < terrain.value
            invariant
                before == self.opened@,
                p <= self.opened.len(),
                forall|i: int| 0 <= i < p ==> (#[trigger] before[i]).value < terrain.value,
            decreases self.opened.len() - p,
        {
            p = p + 1;
        }
        if p < self.opened.len() && self.opened[p] == terrain {
            proof {
                assert(before[p as int] == terrain);
            }
            return;
        }
        self.opened.insert(p, terrain);
        proof {
            let out = before.insert(p as int, terrain);
            if ascending(before) {
                assert forall|i: int, j: int|
                    #![trigger out[i], out[j]]
                    0 <= i < j < out.len() implies out[i].value < out[j].value by {
                    if j < p {
                        assert(out[i] == before[i] && out[j] == before[j]);
                    } else if j == p {
                        assert(out[i] == before[i]);
                    } else {
                        assert(out[j] == before[j - 1]);
                        if j - 1 > p {
                            assert(before[p as int].value < before[j - 1].value);
                        }
                        if i < p {
                            assert(out[i] == before[i]);
                            assert(before[i].value < before[j - 1].value);
                        } else if i > p {
                            assert(out[i] == before[i - 1]);
                            assert(before[i - 1].value < before[j - 1].value);
                        } else {
                            assert(before[p as int].value >= terrain.value);
                            assert(before[p as int] != terrain);
                            assert(before[p as int].value != terrain.value);
                        }
                    }
                }
            }
            assert forall|g: Guid| out.contains(g) <==> before.contains(g) || g == terrain by {
                assert(out[p as int] == terrain);
                if before.contains(g) {
                    let i = choose|i: int| 0 <= i < before.len() && before[i] == g;
                    if i < p {
                        assert(out[i] == g);
                    } else {
                        assert(out[i + 1] == g);
                    }
                }
                if out.contains(g) {
                    let i = choose|i: int| 0 <= i < out.len() && out[i] == g;
                    if i < p {
                        assert(before[i] == g);
                    } else if i > p {
                        assert(before[i - 1] == g);
                    }
                }
            }
        }
    }

    /// Lay one dab. `cut` is what the volumes answered, `terrains` the grounds the
    /// cut was judged to reach when the gesture started, and `openings` what they
    /// answered after the cut: no other ground is opened. A cut that was refused leaves the stroke and
    /// the document as they were. A dab that moved anything marks the document,
    /// also where no ground was opened.
    pub fn dab(
        &mut self,
        doc: &mut SceneDoc,
        cut: &CutOutcome,
        shape: &ShapeBox,
        terrains: &Vec<Guid>,
        openings: &Vec<Opening>,
    ) -> (r: Result<CarveTally, CarveRefusal>)
        requires
            openings_on(openings@, terrains@),
            cut matches CutOutcome::Cut(report) ==> cut_fits(
                old(self)@.tally,
                *report,
                openings@,
            ),
        ensures
            old(self)@.wf() ==> final(self)@.wf(),
            forall|g: Guid|
                #[trigger] final(self)@.opened.contains(g) ==> old(self)@.opened.contains(g)
                    || terrains@.contains(g),
            final(doc).history == old(doc).history,
            match cut {
                CutOutcome::Cut(report) => {
                    &&& r matches Ok(t) && t@ == final(self)@.tally
                    &&& final(self)@ == (StrokeModel {
                        tally: old(self)@.tally.after_cut(
                            report.touched as int,
                            report.carved@,
                            report.filled as int,
                            report.created_chunks as int,
                            opened_samples(openings@, openings@.len() as int),
                        ),
                        bounds: grown(old(self)@.bounds, *shape),
                        opened: final(self)@.opened,
                        ..old(self)@
                    })
                    &&& forall|g: Guid|
                        #[trigger] final(self)@.opened.contains(g) <==> old(self)@.opened.contains(g) || opens(
                            openings@,
                            g,
                        )
                    &&& final(doc)@ == (if report.changed || opened_samples(
                        openings@,
                        openings@.len() as int,
                    ) > 0 {
                        old(doc)@.touched()
                    } else {
                        old(doc)@
                    })
                },
                _ => {
                    &&& r is Err && cut_refusal(*cut) == Some(r->Err_0)
                    &&& final(self)@ == old(self)@
                    &&& final(doc)@ == old(doc)@
                },
            },
    {
        let report = match cut {
            CutOutcome::Poisoned => {
                return Err(CarveRefusal::PoisonedStore);
            },
            CutOutcome::NotLoaded => {
                return Err(CarveRefusal::VolumeNotLoaded);
            },
            CutOutcome::Cut(report) => report,
        };
        let ghost start = self@;
        let ghost holes = opened_samples(openings@, openings@.len() as int);
        let mut moved = report.changed;
        proof {
            lemma_opened_samples(openings@, 0, openings@.len() as int);
            assert(carve::total(report.carved@) <= u64::MAX);
        }
        self.tally.touched = self.tally.touched + report.touched;
        self.tally.carved = self.tally.carved + sum_of(&report.carved);
        self.tally.filled = self.tally.filled + report.filled;
        self.tally.created_chunks = self.tally.created_chunks + report.created_chunks;
        self.tally.carved_by_material = add_counts(&self.tally.carved_by_material, &report.carved);
        self.bounds = grow(self.bounds, shape);
        let ghost cut_done = self@;
        let mut i: usize = 0;
        while i < openings.len()
            invariant
                i <= openings.len(),
                ascending(start.opened) ==> ascending(self@.opened),
                holes == opened_samples(openings@, openings@.len() as int),
                start.tally.holes + holes <= u64::MAX,
                self@ == (StrokeModel {
                    tally: TallyModel {
                        holes: start.tally.holes + opened_samples(openings@, i as int),
                        ..cut_done.tally
                    },
                    opened: self@.opened,
                    ..cut_done
                }),
                forall|g: Guid|
                    #[trigger] self@.opened.contains(g) <==> start.opened.contains(g) || opens(
                        openings@.take(i as int),
                        g,
                    ),
                moved == (report.changed || opened_samples(openings@, i as int) > 0),
            decreases openings.len() - i,
        {
            let o = openings[i];
            proof {
                lemma_opened_samples(openings@, 0, i as int);
                lemma_opened_samples(openings@, i + 1, openings@.len() as int);
            }
            let ghost known = self@.opened;
            self.note_opened(o.terrain);
            self.tally.holes = self.tally.holes + o.changed;
            if o.changed > 0 {
                moved = true;
            }
            proof {
                assert forall|g: Guid| #[trigger]
                    self@.opened.contains(g) <==> start.opened.contains(g) || opens(
                    openings@.take(i + 1),
                    g,
                ) by {
                    assert(self@.opened.contains(g) <==> known.contains(g) || g == o.terrain);
                    lemma_opens_step(openings@, i as int, g);
                }
            }
            i = i + 1;
        }
        proof {
            assert(openings@.take(i as int) =~= openings@);
            if start.tally.wf() {
                assert(self@.tally.wf());
            }
        }
        if moved {
            doc.touch();
        }
        Ok(self.tally.clone())
    }

    /// What a heap is asked for: the counts of every material, the site, and
    /// the box it has to stay out of.
    pub fn spoil_plan(&self, site: Vec3d) -> (r: SpoilPlan)
        ensures
            r.counts@ == self@.tally.carved_by_material,
            r.site == site,
            r.excluding == self@.bounds,
    {
        SpoilPlan {
            counts: copy_counts(&self.tally.carved_by_material),
            site,
            excluding: self.bounds,
        }
    }

    /// Take up the heap that was placed. A stroke that removed nothing needs
    /// none; a heap that does not hold exactly what was removed is refused.
    pub fn spoil(&mut self, outcome: &SpoilOutcome) -> (r: Result<(), CarveRefusal>)
        requires
            outcome matches SpoilOutcome::Placed(report) ==> old(self)@.tally.after_spoil(
                report.placed@,
                report.created_chunks as int,
            ).fits(),
        ensures
            r == spoil_answer(old(self)@.tally, *outcome),
            old(self)@.wf() ==> final(self)@.wf(),
            final(self)@ == (StrokeModel {
                tally: spoiled_tally(old(self)@.tally, *outcome),
                ..old(self)@
            }),
    {
        proof {
            carve::lemma_total_zero(self@.tally.carved_by_material);
        }
        if all_zero(&self.tally.carved_by_material) {
            return Ok(());
        }
        match outcome {
            SpoilOutcome::Poisoned => Err(CarveRefusal::PoisonedStore),
            SpoilOutcome::NotLoaded => Err(CarveRefusal::VolumeNotLoaded),
            SpoilOutcome::Placed(report) => {
                if !same_counts(&report.placed, &self.tally.carved_by_material) {
                    return Err(CarveRefusal::SpoilShortfall);
                }
                let placed = sum_of(&report.placed);
                self.tally.spoiled_by_material = copy_counts(&report.placed);
                self.tally.filled = self.tally.filled + placed;
                self.tally.touched = self.tally.touched + placed;
                self.tally.created_chunks = self.tally.created_chunks + report.created_chunks;
                Ok(())
            },
        }
    }
}

/// What a heap is asked for.
#[derive(Debug, PartialEq, Eq)]
pub struct SpoilPlan {
    pub counts: Vec<u64>,
    pub site: Vec3d,
    pub excluding: Option<(Vec3d, Vec3d)>,
}

/// Whether nothing was removed.
pub open spec fn nothing_removed(t: TallyModel) -> bool {
    carve::total(t.carved_by_material) == 0
}

/// What taking up a heap answers.
pub open spec fn spoil_answer(t: TallyModel, outcome: SpoilOutcome) -> Result<(), CarveRefusal> {
    if nothing_removed(t) {
        Ok(())
    } else {
        match outcome {
            SpoilOutcome::Poisoned => Err(CarveRefusal::PoisonedStore),
            SpoilOutcome::NotLoaded => Err(CarveRefusal::VolumeNotLoaded),
            SpoilOutcome::Placed(report) => if report.placed@ == t.carved_by_material {
                Ok(())
            } else {
                Err(CarveRefusal::SpoilShortfall)
            },
        }
    }
}

/// The totals after a heap was taken up.
pub open spec fn spoiled_tally(t: TallyModel, outcome: SpoilOutcome) -> TallyModel {
    match outcome {
        SpoilOutcome::Placed(report) => if !nothing_removed(t) && report.placed@
            == t.carved_by_material {
            t.after_spoil(report.placed@, report.created_chunks as int)
        } else {
            t
        },
        _ => t,
    }
}

fn all_zero(counts: &Vec<u64>) -> (r: bool)
    ensures
        r == (forall|i: int| 0 <= i < counts@.len() ==> (#[trigger] counts@[i]) == 0),
{
    let mut i: usize = 0;
    while i < counts.len()
        invariant
            i <= counts.len(),
            forall|j: int| 0 <= j < i ==> (#[trigger] counts@[j]) == 0,
        decreases counts.len() - i,
    {
        if counts[i] != 0 {
            assert(counts@[i as int] != 0);
            return false;
        }
        i = i + 1;
    }
    true
}

fn add_counts(a: &Vec<u64>, b: &Vec<u64>) -> (r: Vec<u64>)
    requires
        a.len() == b.len(),
        forall|i: int| 0 <= i < a@.len() ==> a@[i] + (#[trigger] b@[i]) <= u64::MAX,
    ensures
        r@ == summed(a@, b@),
{
    let mut out: Vec<u64> = Vec::new();
    let mut i: usize = 0;
    while i < a.len()
        invariant
            a.len() == b.len(),
            i <= a.len(),
            forall|k: int| 0 <= k < a@.len() ==> a@[k] + (#[trigger] b@[k]) <= u64::MAX,
            out.len() == i,
            forall|k: int| 0 <= k < i ==> (#[trigger] out@[k]) == a@[k] + b@[k],
        decreases a.len() - i,
    {
        assert(a@[i as int] + b@[i as int] <= u64::MAX);
        out.push(a[i] + b[i]);
        i = i + 1;
    }
    proof {
        assert(out@ =~= summed(a@, b@));
    }
    out
}

proof fn lemma_opens_step(openings: Seq<Opening>, i: int, g: Guid)
    requires
        0 <= i < openings.len(),
    ensures
        opens(openings.take(i + 1), g) <==> opens(openings.take(i), g) || g == openings[i].terrain,
{
    let s = openings.take(i);
    let u = openings.take(i + 1);
    if opens(s, g) {
        let k = choose|k: int| 0 <= k < s.len() && (#[trigger] s[k]).terrain == g;
        assert(u[k].terrain == g);
    }
    if opens(u, g) {
        let k = choose|k: int| 0 <= k < u.len() && (#[trigger] u[k]).terrain == g;
        if k < i {
            assert(s[k].terrain == g);
        }
    }
    assert(u[i] == openings[i]);
}

proof fn lemma_opened_samples(openings: Seq<Opening>, a: int, b: int)
    ensures
        opened_samples(openings, b) >= 0,
        0 <= a <= b ==> opened_samples(openings, a) <= opened_samples(openings, b),
    decreases b,
{
    if b > 0 {
        lemma_opened_samples(openings, a, b - 1);
        lemma_opened_samples(openings, 0, b - 1);
    }
}

// ---------------------------------------------------------------- laws

/// The number of samples removed is the sum over the materials, and stays so
/// from dab to dab.
pub proof fn law_removed_is_the_sum_over_materials(
    t: TallyModel,
    report: CutReport,
    openings: Seq<Opening>,
)
    requires
        t.carved == carve::total(t.carved_by_material),
        cut_fits(t, report, openings),
    ensures
        ({
            let after = t.after_cut(
                report.touched as int,
                report.carved@,
                report.filled as int,
                report.created_chunks as int,
                opened_samples(openings, openings.len() as int),
            );
            after.carved == carve::total(after.carved_by_material)
        }),
{
    lemma_total_of_sum(t.carved_by_material, report.carved@);
}

proof fn lemma_total_of_sum(a: Seq<u64>, b: Seq<u64>)
    requires
        a.len() == b.len(),
        forall|i: int| 0 <= i < b.len() ==> a[i] + (#[trigger] b[i]) <= u64::MAX,
    ensures
        carve::total(summed(a, b)) == carve::total(a) + carve::total(b),
    decreases a.len(),
{
    if a.len() > 0 {
        let (c, d) = (a.drop_last(), b.drop_last());
        assert forall|i: int| 0 <= i < d.len() implies c[i] + (#[trigger] d[i]) <= u64::MAX by {
            assert(d[i] == b[i]);
        }
        lemma_total_of_sum(c, d);
        assert(summed(a, b).drop_last() =~= summed(c, d));
        assert(a[a.len() - 1] + b[b.len() - 1] <= u64::MAX);
    }
}

/// A box that grew holds the box it was and the shape it grew by, in each
/// direction.
pub proof fn law_bounds_hold_every_shape(l: F64, h: F64, lo: F64, hi: F64)
    requires
        l.finite() && h.finite() && lo.finite() && hi.finite(),
    ensures
        lower(l, lo).at_most(l) && lower(l, lo).at_most(lo),
        h.at_most(upper(h, hi)) && hi.at_most(upper(h, hi)),
        lower(l, lo).finite() && upper(h, hi).finite(),
{
}

proof fn lemma_opened_is_the_sum(openings: Seq<Opening>, n: int)
    requires
        0 <= n <= openings.len(),
    ensures
        opened_samples(openings, n) == openings.take(n).fold_left(
            0int,
            |sum: int, o: Opening| sum + o.changed,
        ),
    decreases n,
{
    let f = |sum: int, o: Opening| sum + o.changed;
    if n > 0 {
        lemma_opened_is_the_sum(openings, n - 1);
        assert(openings.take(n).drop_last() =~= openings.take(n - 1));
        assert(openings.take(n).last() == openings[n - 1]);
    }
}

proof fn lemma_total_is_the_sum(counts: Seq<u64>)
    ensures
        carve::total(counts) == counts.fold_left(0int, |sum: int, x: u64| sum + x),
    decreases counts.len(),
{
    if counts.len() > 0 {
        lemma_total_is_the_sum(counts.drop_last());
    }
}

/// A cut adds its counts to the totals, each to its own: what was touched, what was
/// removed in all and of each material, what was filled, the chunks that were made
/// and the samples that the openings moved. What was placed as a heap stays.
pub proof fn law_a_cut_adds_its_counts(
    before: CarveTally,
    report: CutReport,
    openings: Seq<Opening>,
    after: CarveTally,
)
    requires
        cut_fits(before@, report, openings),
        after@ == before@.after_cut(
            report.touched as int,
            report.carved@,
            report.filled as int,
            report.created_chunks as int,
            opened_samples(openings, openings.len() as int),
        ),
    ensures
        after.touched == before.touched + report.touched,
        after.carved == before.carved + report.carved@.fold_left(0int, |sum: int, x: u64| sum + x),
        after.filled == before.filled + report.filled,
        after.created_chunks == before.created_chunks + report.created_chunks,
        after.holes == before.holes + openings.fold_left(
            0int,
            |sum: int, o: Opening| sum + o.changed,
        ),
        after.carved_by_material@.len() == before.carved_by_material@.len(),
        forall|i: int|
            0 <= i < before.carved_by_material@.len() ==> (#[trigger] after.carved_by_material@[i])
                == before.carved_by_material@[i] + report.carved@[i],
        after.spoiled_by_material@ == before.spoiled_by_material@,
{
    lemma_total_is_the_sum(report.carved@);
    lemma_opened_is_the_sum(openings, openings.len() as int);
    assert(openings.take(openings.len() as int) =~= openings);
    assert(after@.carved_by_material == summed(before@.carved_by_material, report.carved@));
    assert forall|i: int| 0 <= i < before.carved_by_material@.len() implies (
    #[trigger] after.carved_by_material@[i]) == before.carved_by_material@[i] + report.carved@[i] by {
        assert(report.carved@[i] >= 0);
        assert(before@.carved_by_material[i] + report.carved@[i] <= u64::MAX);
    }
}

/// When a heap is taken up. Where nothing of any material was removed there is
/// nothing to place. Otherwise the volumes have to be readable and the volume
/// loaded, and the heap has to hold exactly what was removed, material by
/// material. Then its samples count as placed, as filled and as touched; a heap
/// that is refused counts as nothing, and what was removed stays either way.
pub proof fn law_a_heap_holds_what_was_removed(
    before: CarveTally,
    outcome: SpoilOutcome,
    after: CarveTally,
)
    requires
        after@ == spoiled_tally(before@, outcome),
    ensures
        ({
            let r = spoil_answer(before@, outcome);
            let removed = before.carved_by_material@;
            let none = forall|i: int| 0 <= i < removed.len() ==> (#[trigger] removed[i]) == 0;
            let sum = removed.fold_left(0int, |sum: int, x: u64| sum + x);
            &&& none ==> r is Ok && after@ == before@
            &&& !none && outcome is Poisoned ==> r == Err::<(), CarveRefusal>(
                CarveRefusal::PoisonedStore,
            ) && after@ == before@
            &&& !none && outcome is NotLoaded ==> r == Err::<(), CarveRefusal>(
                CarveRefusal::VolumeNotLoaded,
            ) && after@ == before@
            &&& !none ==> (outcome matches SpoilOutcome::Placed(report) ==> {
                &&& report.placed@ != removed ==> r == Err::<(), CarveRefusal>(
                    CarveRefusal::SpoilShortfall,
                ) && after@ == before@
                &&& report.placed@ == removed ==> {
                    &&& r is Ok
                    &&& after.spoiled_by_material@ == removed
                    &&& after.filled == before.filled + sum
                    &&& after.touched == before.touched + sum
                    &&& after.created_chunks == before.created_chunks + report.created_chunks
                }
            })
            &&& after.carved_by_material@ == removed
            &&& after.carved == before.carved
            &&& after.holes == before.holes
        }),
{
    let removed = before.carved_by_material@;
    carve::lemma_total_zero(removed);
    lemma_total_is_the_sum(removed);
}

/// The box of a stroke reaches around every shape that was cut, and no farther:
/// each of its sides is one of the old box or one of the shape. A shape that is
/// not valid, or not of points in space, leaves the box as it was.
pub proof fn law_the_box_reaches_around_the_shape(bounds: Option<(Vec3d, Vec3d)>, shape: ShapeBox)
    requires
        bounds matches Some((l, h)) ==> finite_point(l) && finite_point(h),
    ensures
        ({
            let fit = shape.valid && shape.lo.x.finite() && shape.lo.y.finite() && shape.lo.z.finite()
                && shape.hi.x.finite() && shape.hi.y.finite() && shape.hi.z.finite();
            let r = grown(bounds, shape);
            &&& !fit ==> r == bounds
            &&& fit && bounds is None ==> r == Some((shape.lo, shape.hi))
            &&& fit ==> (bounds matches Some((l, h)) ==> (r matches Some((a, b)) && {
                &&& a.x.at_most(l.x) && a.x.at_most(shape.lo.x) && (a.x == l.x || a.x == shape.lo.x)
                &&& a.y.at_most(l.y) && a.y.at_most(shape.lo.y) && (a.y == l.y || a.y == shape.lo.y)
                &&& a.z.at_most(l.z) && a.z.at_most(shape.lo.z) && (a.z == l.z || a.z == shape.lo.z)
                &&& h.x.at_most(b.x) && shape.hi.x.at_most(b.x) && (b.x == h.x || b.x == shape.hi.x)
                &&& h.y.at_most(b.y) && shape.hi.y.at_most(b.y) && (b.y == h.y || b.y == shape.hi.y)
                &&& h.z.at_most(b.z) && shape.hi.z.at_most(b.z) && (b.z == h.z || b.z == shape.hi.z)
            }))
        }),
{
}

/// A cut that was not made is refused for the reason it was not made, and one that
/// was made is not refused.
pub proof fn law_a_cut_is_refused_for_its_reason(cut: CutOutcome)
    ensures
        cut is Poisoned <==> cut_refusal(cut) == Some(CarveRefusal::PoisonedStore),
        cut is NotLoaded <==> cut_refusal(cut) == Some(CarveRefusal::VolumeNotLoaded),
        cut is Cut <==> cut_refusal(cut) is None,
{
}

} // verus!
