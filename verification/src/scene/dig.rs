//! Digs: cut, displace, commit; and the replay of a cut from the history.

use crate::bits::F64;
use crate::guid::Guid;
use crate::scene::carve;
use crate::scene::carve::{
    sum_of, CarveRefusal, CarveTally, CarveVerdict, TallyModel, VerdictModel, MAX_DIG_SAMPLES,
};
use crate::scene::command::{EditCommand, HoleDelta, VoxelDelta};
use crate::scene::component::Vec3d;
use crate::scene::doc::SceneDoc;
use crate::scene::entity::EntityModel;
use crate::scene::stroke;
use crate::scene::stroke::{
    is_finite_point, CarveStroke, CutOutcome, Opening, ShapeBox, SpoilChoice, SpoilOutcome,
    StrokeModel,
};
use vstd::prelude::*;

verus! {

// ---------------------------------------------------------------- the heap

/// The topmost of the first `n` answers.
pub open spec fn topmost(answers: Seq<Option<F64>>, n: int) -> Option<F64>
    decreases n,
{
    if n <= 0 {
        None
    } else {
        match (topmost(answers, n - 1), answers[n - 1]) {
            (best, None) => best,
            (None, Some(y)) => Some(y),
            (Some(b), Some(y)) => if b.below(y) {
                Some(y)
            } else {
                Some(b)
            },
        }
    }
}

/// The topmost ground under a point. `answers` holds what each terrain answers,
/// in creation order; a terrain has no answer where it does not reach or has a
/// hole.
pub fn ground_surface_y(answers: &Vec<Option<F64>>) -> (r: Option<F64>)
    ensures
        r == topmost(answers@, answers@.len() as int),
{
    let mut best: Option<F64> = None;
    let mut i: usize = 0;
    while i < answers.len()
        invariant
            i <= answers.len(),
            best == topmost(answers@, i as int),
        decreases answers.len() - i,
    {
        match answers[i] {
            Some(y) => {
                match best {
                    Some(b) => {
                        if b.less(&y) {
                            best = Some(y);
                        }
                    },
                    None => {
                        best = Some(y);
                    },
                }
            },
            None => {},
        }
        i = i + 1;
    }
    best
}

/// Where the material of a stroke goes: nowhere where there is none or it is
/// discarded, to the author's point where that is finite, and to the default
/// site, set on the ground there, otherwise.
pub open spec fn site_of(
    s: StrokeModel,
    choice: SpoilChoice,
    default_site: Vec3d,
    ground: Option<F64>,
) -> Option<Vec3d> {
    if stroke::nothing_removed(s.tally) {
        None
    } else {
        match choice {
            SpoilChoice::Discard => None,
            SpoilChoice::At(p) => if stroke::finite_point(p) {
                Some(p)
            } else {
                None
            },
            SpoilChoice::Auto => if s.bounds is None {
                None
            } else {
                match ground {
                    Some(y) => Some(Vec3d { y, ..default_site }),
                    None => Some(default_site),
                }
            },
        }
    }
}

/// Where the material of a stroke goes. `default_site` is the default site for
/// the bounds and the amount of the stroke, and `ground` the ground under it.
pub fn spoil_site(
    stroke: &CarveStroke,
    choice: SpoilChoice,
    default_site: Vec3d,
    ground: Option<F64>,
) -> (r: Option<Vec3d>)
    requires
        carve::total(stroke@.tally.carved_by_material) <= u64::MAX,
    ensures
        r == site_of(stroke@, choice, default_site, ground),
{
    if sum_of(&stroke.tally.carved_by_material) == 0 {
        return None;
    }
    match choice {
        SpoilChoice::Discard => None,
        SpoilChoice::At(p) => if is_finite_point(&p) {
            Some(p)
        } else {
            None
        },
        SpoilChoice::Auto => {
            if stroke.bounds.is_none() {
                return None;
            }
            match ground {
                Some(y) => Some(Vec3d { x: default_site.x, y, z: default_site.z }),
                None => Some(default_site),
            }
        },
    }
}

/// What has to be done about the material of a stroke.
#[derive(Clone, Copy, Debug, PartialEq, Eq, Structural)]
pub enum SpoilStep {
    /// It is more than one heap can hold.
    Refuse(CarveRefusal),
    /// It is discarded, or there is none.
    Skip,
    /// A heap is placed there.
    Place(Vec3d),
}

/// What has to be done about the material of a stroke.
pub open spec fn step_of(
    s: StrokeModel,
    choice: SpoilChoice,
    default_site: Vec3d,
    ground: Option<F64>,
) -> SpoilStep {
    let removed = carve::total(s.tally.carved_by_material);
    if removed > MAX_DIG_SAMPLES {
        SpoilStep::Refuse(CarveRefusal::SpoilTooLarge { voxels: removed as u64 })
    } else {
        match site_of(s, choice, default_site, ground) {
            Some(p) => SpoilStep::Place(p),
            None => SpoilStep::Skip,
        }
    }
}

pub fn spoil_step(
    stroke: &CarveStroke,
    choice: SpoilChoice,
    default_site: Vec3d,
    ground: Option<F64>,
) -> (r: SpoilStep)
    requires
        carve::total(stroke@.tally.carved_by_material) <= u64::MAX,
    ensures
        r == step_of(stroke@, choice, default_site, ground),
{
    let removed = sum_of(&stroke.tally.carved_by_material);
    if removed > MAX_DIG_SAMPLES {
        return SpoilStep::Refuse(CarveRefusal::SpoilTooLarge { voxels: removed });
    }
    match spoil_site(stroke, choice, default_site, ground) {
        Some(p) => SpoilStep::Place(p),
        None => SpoilStep::Skip,
    }
}

/// What displacing the material of a stroke answers. `outcome` is what placing
/// the heap gave, where one had to be placed.
pub open spec fn displaced(s: StrokeModel, step: SpoilStep, outcome: SpoilOutcome) -> Result<
    (),
    CarveRefusal,
> {
    match step {
        SpoilStep::Refuse(refusal) => Err(refusal),
        SpoilStep::Skip => Ok(()),
        SpoilStep::Place(_) => stroke::spoil_answer(s.tally, outcome),
    }
}

/// The stroke after its material was displaced.
pub open spec fn displaced_stroke(s: StrokeModel, step: SpoilStep, outcome: SpoilOutcome) -> StrokeModel {
    match step {
        SpoilStep::Place(_) => StrokeModel {
            tally: stroke::spoiled_tally(s.tally, outcome),
            ..s
        },
        _ => s,
    }
}

/// Displace the material of a stroke. `step` is what had to be done, and
/// `outcome` what placing the heap gave.
pub fn spoil_stroke(stroke: &mut CarveStroke, step: SpoilStep, outcome: &SpoilOutcome) -> (r: Result<
    (),
    CarveRefusal,
>)
    requires
        outcome matches SpoilOutcome::Placed(report) ==> old(stroke)@.tally.after_spoil(
            report.placed@,
            report.created_chunks as int,
        ).fits(),
    ensures
        r == displaced(old(stroke)@, step, *outcome),
        old(stroke)@.wf() ==> final(stroke)@.wf(),
        final(stroke)@ == displaced_stroke(old(stroke)@, step, *outcome),
{
    match step {
        SpoilStep::Refuse(refusal) => Err(refusal),
        SpoilStep::Skip => Ok(()),
        SpoilStep::Place(_) => stroke.spoil(outcome),
    }
}

// ---------------------------------------------------------------- commit

/// The hole records of the first `n` terrains that say anything.
pub open spec fn said_holes(holes: Seq<(Guid, HoleDelta)>, n: int) -> Seq<(Guid, HoleDelta)>
    decreases n,
{
    if n <= 0 {
        Seq::empty()
    } else if holes[n - 1].1.patches > 0 {
        said_holes(holes, n - 1).push(holes[n - 1])
    } else {
        said_holes(holes, n - 1)
    }
}

/// The name of the entry a stroke makes: a dig that displaced its material is
/// an excavation.
pub open spec fn stroke_label(t: TallyModel) -> Seq<char> {
    if carve::total(t.spoiled_by_material) > 0 {
        "Excavate"@
    } else {
        "Carve Voxels"@
    }
}

fn keep_said(holes: Vec<(Guid, HoleDelta)>) -> (r: Vec<(Guid, HoleDelta)>)
    ensures
        r@ == said_holes(holes@, holes@.len() as int),
{
    let ghost all = holes@;
    let mut out: Vec<(Guid, HoleDelta)> = Vec::new();
    proof {
        assert(out@ =~= said_holes(all, 0));
    }
    for h in it: holes
        invariant
            it.seq() == all,
            out@ == said_holes(all, it.index() as int),
    {
        if h.1.patches > 0 {
            out.push(h);
        }
    }
    out
}

impl CarveStroke {
    /// Close a stroke into the record of its two halves, the terrains that have
    /// nothing to say left out; nothing where it changed nothing. `delta` and
    /// `holes` are what the volume and the terrains recorded.
    pub fn finish(&self, delta: VoxelDelta, holes: Vec<(Guid, HoleDelta)>) -> (r: Option<
        (VoxelDelta, Vec<(Guid, HoleDelta)>),
    >)
        ensures
            ({
                let said = said_holes(holes@, holes@.len() as int);
                if delta.patches == 0 && said.len() == 0 {
                    r is None
                } else {
                    r matches Some((d, h)) && d == delta && h@ == said
                }
            }),
    {
        let said = keep_said(holes);
        if delta.patches == 0 && said.len() == 0 {
            return None;
        }
        Some((delta, said))
    }
}

/// What committing a stroke comes to: one entry with both halves, or nothing
/// where both are empty. The document itself was changed by the dabs.
pub open spec fn committed(
    before: SceneDoc,
    after: SceneDoc,
    s: StrokeModel,
    delta: VoxelDelta,
    holes: Seq<(Guid, HoleDelta)>,
    recorded: bool,
) -> bool {
    let said = said_holes(holes, holes.len() as int);
    &&& after@ == before@
    &&& recorded == (delta.patches > 0 || said.len() > 0)
    &&& recorded ==> exists|cmd: EditCommand|
        {
            &&& #[trigger] before.history.recorded(&after.history, stroke_label(s.tally), cmd)
            &&& cmd matches EditCommand::CarveVoxels { volume, delta: d, holes: h } && volume == s.volume
                && *d == delta && h@ == said
        }
    &&& !recorded ==> after.history == before.history
}

impl SceneDoc {
    /// Commit a stroke as one entry, and tell whether there was anything to
    /// record. `delta` and `holes` are the records of its two halves.
    pub fn edit_commit_carve(
        &mut self,
        stroke: &CarveStroke,
        delta: VoxelDelta,
        holes: Vec<(Guid, HoleDelta)>,
    ) -> (r: bool)
        requires
            old(self).history.wf(),
            carve::total(stroke@.tally.spoiled_by_material) <= u64::MAX,
        ensures
            final(self).history.wf(),
            committed(*old(self), *final(self), stroke@, delta, holes@, r),
    {
        let excavated = stroke.tally.spoiled() > 0;
        let (delta, said) = match stroke.finish(delta, holes) {
            Some(halves) => halves,
            None => {
                return false;
            },
        };
        let cmd = EditCommand::CarveVoxels {
            volume: stroke.volume,
            delta: Box::new(delta),
            holes: said,
        };
        if excavated {
            self.record_edit("Excavate", cmd);
        } else {
            self.record_edit("Carve Voxels", cmd);
        }
        assert(old(self).history.recorded(&self.history, stroke_label(stroke@.tally), cmd));
        true
    }

    /// Close a brush stroke as a dig: displace its material, then commit. A
    /// heap that is refused still commits the cut. The final totals, whether an
    /// entry was made, and the refusal are told.
    pub fn edit_commit_dig(
        &mut self,
        stroke: CarveStroke,
        step: SpoilStep,
        outcome: &SpoilOutcome,
        delta: VoxelDelta,
        holes: Vec<(Guid, HoleDelta)>,
    ) -> (r: (CarveTally, bool, Option<CarveRefusal>))
        requires
            old(self).history.wf(),
            carve::total(stroke@.tally.spoiled_by_material) <= u64::MAX,
            outcome matches SpoilOutcome::Placed(report) ==> stroke@.tally.after_spoil(
                report.placed@,
                report.created_chunks as int,
            ).fits(),
        ensures
            final(self).history.wf(),
            ({
                let after = displaced_stroke(stroke@, step, *outcome);
                &&& r.0@ == after.tally
                &&& committed(*old(self), *final(self), after, delta, holes@, r.1)
                &&& r.2 == (match displaced(stroke@, step, *outcome) {
                    Ok(_) => None,
                    Err(refusal) => Some(refusal),
                })
            }),
    {
        let mut stroke = stroke;
        proof {
            lemma_displaced_fits(stroke@, step, *outcome);
        }
        let refusal = match spoil_stroke(&mut stroke, step, outcome) {
            Ok(_) => None,
            Err(refusal) => Some(refusal),
        };
        let tally = stroke.tally();
        let recorded = self.edit_commit_carve(&stroke, delta, holes);
        (tally, recorded, refusal)
    }
}

proof fn lemma_displaced_fits(s: StrokeModel, step: SpoilStep, outcome: SpoilOutcome)
    requires
        carve::total(s.tally.spoiled_by_material) <= u64::MAX,
        s.tally.filled >= 0,
        outcome matches SpoilOutcome::Placed(report) ==> s.tally.after_spoil(
            report.placed@,
            report.created_chunks as int,
        ).fits(),
    ensures
        carve::total(displaced_stroke(s, step, outcome).tally.spoiled_by_material) <= u64::MAX,
{
}

// ---------------------------------------------------------------- dig

/// Whether the volume of a dig can be cut.
#[derive(Clone, Copy, Debug, PartialEq, Eq, Structural)]
pub enum StoreState {
    Poisoned,
    NotLoaded,
    Ready,
}

/// The samples the first `n` shapes ask for together.
pub open spec fn asked(samples: Seq<u64>, n: int) -> int
    decreases n,
{
    if n <= 0 {
        0
    } else {
        asked(samples, n - 1) + samples[n - 1]
    }
}

/// The largest number of samples that can be told.
pub open spec fn told(samples: int) -> u64 {
    if samples <= u64::MAX {
        samples as u64
    } else {
        u64::MAX
    }
}

/// The first leg, from `n` on, that breaks through a terrain stored in the
/// level, by that terrain.
pub open spec fn refused_leg(
    entities: Seq<EntityModel>,
    crossings: Seq<Vec<bool>>,
    n: int,
) -> Option<Guid>
    decreases crossings.len() - n,
{
    if n < 0 || n >= crossings.len() {
        None
    } else {
        match carve::verdict_of(entities, crossings[n]@) {
            VerdictModel::RefusedInline { terrain } => Some(terrain),
            _ => refused_leg(entities, crossings, n + 1),
        }
    }
}

/// The terrains that leg `n` opens.
pub open spec fn leg_terrains(
    entities: Seq<EntityModel>,
    crossings: Seq<Vec<bool>>,
    n: int,
) -> Seq<Guid> {
    match carve::verdict_of(entities, crossings[n]@) {
        VerdictModel::Opens { terrains } => terrains,
        _ => Seq::empty(),
    }
}

/// The judgement on a dig, in the order in which the questions are asked: its
/// size, whether the volumes can be read, whether the volume is loaded, whether
/// any leg breaks through a terrain stored in the level.
pub open spec fn judged(
    entities: Seq<EntityModel>,
    samples: Seq<u64>,
    store: StoreState,
    crossings: Seq<Vec<bool>>,
) -> Option<CarveRefusal> {
    let total = asked(samples, samples.len() as int);
    if total > MAX_DIG_SAMPLES {
        Some(CarveRefusal::TooLarge { samples: told(total) })
    } else {
        match store {
            StoreState::Poisoned => Some(CarveRefusal::PoisonedStore),
            StoreState::NotLoaded => Some(CarveRefusal::VolumeNotLoaded),
            StoreState::Ready => match refused_leg(entities, crossings, 0) {
                Some(terrain) => Some(CarveRefusal::InlineTerrain { terrain }),
                None => None,
            },
        }
    }
}

/// A dig that was judged and may be cut, leg by leg.
pub struct Dig {
    pub stroke: CarveStroke,
    /// The terrains that each leg opens.
    pub plan: Vec<Vec<Guid>>,
    /// How many legs were cut.
    pub cut: usize,
}

impl Dig {
    /// The terrains of the leg that is cut next; nothing where every leg was.
    pub fn next_terrains(&self) -> (r: Option<&Vec<Guid>>)
        ensures
            r == (if self.cut < self.plan@.len() {
                Some(&self.plan@[self.cut as int])
            } else {
                None
            }),
    {
        if self.cut < self.plan.len() {
            Some(&self.plan[self.cut])
        } else {
            None
        }
    }
}

impl SceneDoc {
    /// Judge a dig whole, before anything is cut: `samples` holds what each
    /// shape asks for, and `crossings` for each leg which surfaces it crosses.
    pub fn edit_dig(
        &self,
        volume: Guid,
        materials: usize,
        samples: &Vec<u64>,
        store: StoreState,
        crossings: &Vec<Vec<bool>>,
    ) -> (r: Result<Dig, CarveRefusal>)
        requires
            forall|i: int|
                0 <= i < crossings.len() ==> (#[trigger] crossings@[i]).len() == self.entities.len(),
        ensures
            match judged(self@.entities, samples@, store, crossings@) {
                Some(refusal) => r == Err::<Dig, CarveRefusal>(refusal),
                None => r matches Ok(dig) && {
                    &&& dig.stroke@ == (StrokeModel {
                        volume,
                        tally: TallyModel::zero(materials as nat),
                        bounds: None,
                        remesh: false,
                        opened: Seq::empty(),
                    })
                    &&& dig.stroke@.wf()
                    &&& dig.cut == 0
                    &&& dig.plan@.len() == crossings@.len()
                    &&& forall|i: int|
                        0 <= i < crossings@.len() ==> (#[trigger] dig.plan@[i])@ == leg_terrains(
                            self@.entities,
                            crossings@,
                            i,
                        )
                },
            },
    {
        let mut total: u64 = 0;
        let mut i: usize = 0;
        while i < samples.len()
            invariant
                i <= samples.len(),
                total == told(asked(samples@, i as int)),
            decreases samples.len() - i,
        {
            proof {
                lemma_asked(samples@, i as int);
            }
            total = total.saturating_add(samples[i]);
            i = i + 1;
        }
        proof {
            lemma_asked(samples@, samples@.len() as int);
        }
        if total > MAX_DIG_SAMPLES {
            return Err(CarveRefusal::TooLarge { samples: total });
        }
        match store {
            StoreState::Poisoned => {
                return Err(CarveRefusal::PoisonedStore);
            },
            StoreState::NotLoaded => {
                return Err(CarveRefusal::VolumeNotLoaded);
            },
            StoreState::Ready => {},
        }
        let mut plan: Vec<Vec<Guid>> = Vec::new();
        let mut n: usize = 0;
        while n < crossings.len()
            invariant
                forall|i: int|
                    0 <= i < crossings.len() ==> (#[trigger] crossings@[i]).len()
                        == self.entities.len(),
                n <= crossings.len(),
                plan.len() == n,
                refused_leg(self@.entities, crossings@, 0) == refused_leg(
                    self@.entities,
                    crossings@,
                    n as int,
                ),
                forall|i: int|
                    0 <= i < n ==> (#[trigger] plan@[i])@ == leg_terrains(
                        self@.entities,
                        crossings@,
                        i,
                    ),
                asked(samples@, samples@.len() as int) <= MAX_DIG_SAMPLES,
                store == StoreState::Ready,
            decreases crossings.len() - n,
        {
            assert(crossings@[n as int].len() == self.entities.len());
            let verdict = self.carve_verdict(&crossings[n]);
            match &verdict {
                CarveVerdict::RefusedInline { terrain } => {
                    return Err(CarveRefusal::InlineTerrain { terrain: *terrain });
                },
                _ => {},
            }
            plan.push(verdict.terrains());
            n = n + 1;
        }
        Ok(Dig { stroke: CarveStroke::begin_deferred(volume, materials), plan, cut: 0 })
    }

    /// Cut the next leg of a dig. Only the grounds it was judged to reach are
    /// opened.
    pub fn cut_leg(
        &mut self,
        dig: &mut Dig,
        cut: &CutOutcome,
        shape: &ShapeBox,
        openings: &Vec<Opening>,
    ) -> (r: Result<(), CarveRefusal>)
        requires
            old(dig).cut < old(dig).plan.len(),
            stroke::openings_on(openings@, old(dig).plan@[old(dig).cut as int]@),
            cut matches CutOutcome::Cut(report) ==> stroke::cut_fits(
                old(dig).stroke@.tally,
                *report,
                openings@,
            ),
        ensures
            old(dig).stroke@.wf() ==> final(dig).stroke@.wf(),
            forall|g: Guid|
                #[trigger] final(dig).stroke@.opened.contains(g) ==> old(
                    dig,
                ).stroke@.opened.contains(g) || old(dig).plan@[old(dig).cut as int]@.contains(g),
            final(dig).plan == old(dig).plan,
            final(self).history == old(self).history,
            match cut {
                CutOutcome::Cut(report) => {
                    &&& r is Ok
                    &&& final(dig).cut == old(dig).cut + 1
                    &&& final(dig).stroke@ == (StrokeModel {
                        tally: old(dig).stroke@.tally.after_cut(
                            report.touched as int,
                            report.carved@,
                            report.filled as int,
                            report.created_chunks as int,
                            stroke::opened_samples(openings@, openings@.len() as int),
                        ),
                        bounds: stroke::grown(old(dig).stroke@.bounds, *shape),
                        opened: final(dig).stroke@.opened,
                        ..old(dig).stroke@
                    })
                    &&& forall|g: Guid|
                        #[trigger] final(dig).stroke@.opened.contains(g) <==> old(
                            dig,
                        ).stroke@.opened.contains(g) || stroke::opens(openings@, g)
                    &&& final(self)@ == (if report.changed || stroke::opened_samples(
                        openings@,
                        openings@.len() as int,
                    ) > 0 {
                        old(self)@.touched()
                    } else {
                        old(self)@
                    })
                },
                _ => {
                    &&& r is Err && stroke::cut_refusal(*cut) == Some(r->Err_0)
                    &&& final(dig).cut == old(dig).cut
                    &&& final(dig).stroke@ == old(dig).stroke@
                    &&& final(self)@ == old(self)@
                },
            },
    {
        match dig.stroke.dab(self, cut, shape, &dig.plan[dig.cut], openings) {
            Ok(_) => {
                dig.cut = dig.cut + 1;
                Ok(())
            },
            Err(refusal) => Err(refusal),
        }
    }

    /// Close a dig: where a leg was refused the legs that were cut are committed
    /// and the refusal is told; otherwise the material is displaced first, and a
    /// heap that is refused commits the cut too.
    pub fn finish_dig(
        &mut self,
        dig: Dig,
        refused: Option<CarveRefusal>,
        step: SpoilStep,
        outcome: &SpoilOutcome,
        delta: VoxelDelta,
        holes: Vec<(Guid, HoleDelta)>,
    ) -> (r: Result<CarveTally, CarveRefusal>)
        requires
            old(self).history.wf(),
            carve::total(dig.stroke@.tally.spoiled_by_material) <= u64::MAX,
            outcome matches SpoilOutcome::Placed(report) ==> dig.stroke@.tally.after_spoil(
                report.placed@,
                report.created_chunks as int,
            ).fits(),
        ensures
            final(self).history.wf(),
            ({
                let before = dig.stroke@;
                let after = displaced_stroke(before, step, *outcome);
                match (refused, displaced(before, step, *outcome)) {
                    (Some(refusal), _) => {
                        &&& r == Err::<CarveTally, CarveRefusal>(refusal)
                        &&& exists|entry: bool| #[trigger]
                            committed(*old(self), *final(self), before, delta, holes@, entry)
                    },
                    (None, Err(refusal)) => {
                        &&& r == Err::<CarveTally, CarveRefusal>(refusal)
                        &&& exists|entry: bool| #[trigger]
                            committed(*old(self), *final(self), after, delta, holes@, entry)
                    },
                    (None, Ok(_)) => {
                        &&& r matches Ok(t) && t@ == after.tally
                        &&& exists|entry: bool| #[trigger]
                            committed(*old(self), *final(self), after, delta, holes@, entry)
                    },
                }
            }),
    {
        match refused {
            Some(refusal) => {
                let entry = self.edit_commit_carve(&dig.stroke, delta, holes);
                assert(committed(*old(self), *self, dig.stroke@, delta, holes@, entry));
                Err(refusal)
            },
            None => {
                let (tally, entry, refusal) = self.edit_commit_dig(
                    dig.stroke,
                    step,
                    outcome,
                    delta,
                    holes,
                );
                match refusal {
                    Some(refusal) => Err(refusal),
                    None => Ok(tally),
                }
            },
        }
    }
}

proof fn lemma_asked(samples: Seq<u64>, n: int)
    ensures
        asked(samples, n) >= 0,
    decreases n,
{
    if n > 0 {
        lemma_asked(samples, n - 1);
    }
}

// ---------------------------------------------------------------- replay

/// What the volumes answer to the replay of a cut.
#[derive(Clone, Copy, Debug, PartialEq, Eq, Structural)]
pub enum ReplayOutcome {
    Poisoned,
    /// Whether the volume was there to be written.
    Replayed(bool),
}

/// What a terrain answers to the replay of its holes: how many of the patches
/// were skipped, and nothing where there is no terrain.
#[derive(Clone, Copy, Debug, PartialEq, Eq, Structural)]
pub struct HoleReplay {
    pub terrain: Guid,
    pub patches: usize,
    pub skipped: Option<usize>,
}

/// What the log has to say of a replay.
#[derive(Clone, Copy, Debug, PartialEq, Eq, Structural)]
pub enum CarveNote {
    /// The volumes could not be read; the record moved no sample, and its holes
    /// are replayed as usual.
    UnreadableWithoutSamples { holes: usize },
    /// The volumes could not be read; neither half was replayed.
    Unreadable { holes: usize },
    /// The volume was not there; its patches were not replayed, and the holes
    /// above them were left alone.
    VolumeMissing { patches: usize, holes: usize },
    /// A terrain was not there; its holes were not replayed.
    TerrainMissing { terrain: Guid, patches: usize },
    /// Some patches of a terrain's holes were skipped.
    PatchesSkipped { terrain: Guid, skipped: usize, patches: usize },
}

/// Whether the holes of a cut are replayed: its samples were, or it has none.
pub open spec fn replays_holes(patches: usize, outcome: ReplayOutcome) -> bool {
    patches == 0 || outcome == ReplayOutcome::Replayed(true)
}

/// Whether the holes of a cut are replayed after the volumes answered. The
/// ground is not touched otherwise.
pub fn replay_opens_ground(patches: usize, outcome: ReplayOutcome) -> (r: bool)
    ensures
        r == replays_holes(patches, outcome),
{
    if patches == 0 {
        return true;
    }
    match outcome {
        ReplayOutcome::Replayed(done) => done,
        ReplayOutcome::Poisoned => false,
    }
}

/// What the log has to say of the volumes.
pub open spec fn volume_notes(patches: usize, holes: usize, outcome: ReplayOutcome) -> Seq<CarveNote> {
    let unread = match outcome {
        ReplayOutcome::Poisoned => if patches == 0 {
            seq![CarveNote::UnreadableWithoutSamples { holes }]
        } else {
            seq![CarveNote::Unreadable { holes }]
        },
        ReplayOutcome::Replayed(_) => Seq::empty(),
    };
    if replays_holes(patches, outcome) {
        unread
    } else {
        unread.push(CarveNote::VolumeMissing { patches, holes })
    }
}

/// What the log has to say of the first `n` terrains.
pub open spec fn ground_notes(replays: Seq<HoleReplay>, n: int) -> Seq<CarveNote>
    decreases n,
{
    if n <= 0 {
        Seq::empty()
    } else {
        let before = ground_notes(replays, n - 1);
        let h = replays[n - 1];
        match h.skipped {
            None => before.push(CarveNote::TerrainMissing { terrain: h.terrain, patches: h.patches }),
            Some(skipped) => if skipped > 0 {
                before.push(
                    CarveNote::PatchesSkipped { terrain: h.terrain, skipped, patches: h.patches },
                )
            } else {
                before
            },
        }
    }
}

impl SceneDoc {
    /// Take up the replay of a cut, forward or back: `patches` and `holes` count
    /// the records of its two halves, `outcome` is what the volumes answered and
    /// `replays` what the terrains answered, where they were asked. Neither half
    /// is replayed without the other. The document is marked either way, and
    /// what the log has to say is told.
    pub fn raw_write_carve(
        &mut self,
        patches: usize,
        holes: usize,
        outcome: ReplayOutcome,
        replays: &Vec<HoleReplay>,
    ) -> (r: Vec<CarveNote>)
        ensures
            final(self)@ == old(self)@.touched(),
            final(self).history == old(self).history,
            r@ == (if replays_holes(patches, outcome) {
                volume_notes(patches, holes, outcome) + ground_notes(
                    replays@,
                    replays@.len() as int,
                )
            } else {
                volume_notes(patches, holes, outcome)
            }),
    {
        let mut notes: Vec<CarveNote> = Vec::new();
        match outcome {
            ReplayOutcome::Poisoned => {
                if patches == 0 {
                    notes.push(CarveNote::UnreadableWithoutSamples { holes });
                } else {
                    notes.push(CarveNote::Unreadable { holes });
                }
            },
            ReplayOutcome::Replayed(_) => {},
        }
        if !replay_opens_ground(patches, outcome) {
            notes.push(CarveNote::VolumeMissing { patches, holes });
            proof {
                assert(notes@ =~= volume_notes(patches, holes, outcome));
            }
            self.touch();
            return notes;
        }
        proof {
            assert(notes@ =~= volume_notes(patches, holes, outcome));
            assert(notes@ + ground_notes(replays@, 0) =~= notes@);
        }
        let ghost head = notes@;
        let mut n: usize = 0;
        while n < replays.len()
            invariant
                n <= replays.len(),
                notes@ == head + ground_notes(replays@, n as int),
            decreases replays.len() - n,
        {
            let h = replays[n];
            match h.skipped {
                None => {
                    notes.push(CarveNote::TerrainMissing { terrain: h.terrain, patches: h.patches });
                },
                Some(skipped) => {
                    if skipped > 0 {
                        notes.push(
                            CarveNote::PatchesSkipped {
                                terrain: h.terrain,
                                skipped,
                                patches: h.patches,
                            },
                        );
                    }
                },
            }
            proof {
                assert(notes@ =~= head + ground_notes(replays@, n + 1));
            }
            n = n + 1;
        }
        self.touch();
        notes
    }
}

// ---------------------------------------------------------------- laws

/// A dig that displaced its material lost none of it: what was removed was
/// placed again, material by material. One that removed nothing had nothing to
/// lose.
pub proof fn law_displaced_material_is_conserved(s: StrokeModel, site: Vec3d, outcome: SpoilOutcome)
    requires
        s.tally.wf(),
        displaced(s, SpoilStep::Place(site), outcome) is Ok,
    ensures
        displaced_stroke(s, SpoilStep::Place(site), outcome).tally.is_conserved(),
{
    if stroke::nothing_removed(s.tally) {
        carve::lemma_total_zero(s.tally.carved_by_material);
        assert(s.tally.carved_by_material =~= s.tally.spoiled_by_material);
    }
}

/// A heap that was refused changes no total: the cut stands as it was.
pub proof fn law_refused_heap_leaves_the_totals(s: StrokeModel, step: SpoilStep, outcome: SpoilOutcome)
    requires
        displaced(s, step, outcome) is Err,
    ensures
        displaced_stroke(s, step, outcome) == s,
{
}

/// A dig is refused before anything is cut exactly where it is too large, the
/// volumes cannot be read, the volume is not loaded, or some leg breaks through
/// a terrain stored in the level.
pub proof fn law_when_a_dig_is_refused(
    entities: Seq<EntityModel>,
    samples: Seq<u64>,
    store: StoreState,
    crossings: Seq<Vec<bool>>,
)
    ensures
        judged(entities, samples, store, crossings) is Some <==> {
            ||| asked(samples, samples.len() as int) > MAX_DIG_SAMPLES
            ||| store != StoreState::Ready
            ||| exists|n: int|
                0 <= n < crossings.len() && carve::verdict_of(
                    entities,
                    (#[trigger] crossings[n])@,
                ) is RefusedInline
        },
{
    lemma_refused_leg(entities, crossings, 0);
}

proof fn lemma_refused_leg(entities: Seq<EntityModel>, crossings: Seq<Vec<bool>>, from: int)
    requires
        0 <= from <= crossings.len(),
    ensures
        refused_leg(entities, crossings, from) is Some <==> exists|n: int|
            from <= n < crossings.len() && carve::verdict_of(
                entities,
                (#[trigger] crossings[n])@,
            ) is RefusedInline,
    decreases crossings.len() - from,
{
    if from < crossings.len() {
        lemma_refused_leg(entities, crossings, from + 1);
        if carve::verdict_of(entities, crossings[from]@) is RefusedInline {
        } else if exists|n: int|
            from <= n < crossings.len() && carve::verdict_of(
                entities,
                (#[trigger] crossings[n])@,
            ) is RefusedInline {
            let n = choose|n: int|
                from <= n < crossings.len() && carve::verdict_of(
                    entities,
                    (#[trigger] crossings[n])@,
                ) is RefusedInline;
            assert(from + 1 <= n);
        }
    }
}

/// The sum of a list of counts.
proof fn lemma_asked_is_the_sum(samples: Seq<u64>, n: int)
    requires
        0 <= n <= samples.len(),
    ensures
        asked(samples, n) == samples.take(n).fold_left(0int, |sum: int, x: u64| sum + x),
    decreases n,
{
    let f = |sum: int, x: u64| sum + x;
    if n > 0 {
        lemma_asked_is_the_sum(samples, n - 1);
        assert(samples.take(n).drop_last() =~= samples.take(n - 1));
        assert(samples.take(n).last() == samples[n - 1]);
    }
}

proof fn lemma_first_refused_leg(entities: Seq<EntityModel>, crossings: Seq<Vec<bool>>, from: int) -> (at:
    int)
    requires
        0 <= from <= crossings.len(),
    ensures
        from <= at <= crossings.len(),
        at < crossings.len() ==> (carve::verdict_of(entities, crossings[at]@)
            matches VerdictModel::RefusedInline { terrain } && refused_leg(entities, crossings, from)
            == Some(terrain)),
        at == crossings.len() ==> refused_leg(entities, crossings, from) is None,
        forall|n: int|
            from <= n < at ==> !(carve::verdict_of(entities, (#[trigger] crossings[n])@) is RefusedInline),
    decreases crossings.len() - from,
{
    if from == crossings.len() {
        from
    } else if carve::verdict_of(entities, crossings[from]@) is RefusedInline {
        from
    } else {
        lemma_first_refused_leg(entities, crossings, from + 1)
    }
}

/// Why a dig is refused, on what was asked of it. One whose shapes ask for more
/// than two million samples together is too large, whatever else holds; then the
/// volumes have to be readable and the volume loaded; and then no leg may cross a
/// terrain that is stored in the level. The refusal names the terrain of the first
/// leg that does, and in that leg of the first such entity. Every other dig may
/// be cut.
pub proof fn law_what_a_dig_is_refused_for(
    doc: SceneDoc,
    samples: Seq<u64>,
    store: StoreState,
    crossings: Seq<Vec<bool>>,
)
    requires
        forall|n: int|
            0 <= n < crossings.len() ==> (#[trigger] crossings[n])@.len() == doc.entities@.len(),
    ensures
        ({
            let r = judged(doc@.entities, samples, store, crossings);
            let sum = samples.fold_left(0int, |sum: int, x: u64| sum + x);
            let inline = |n: int, i: int|
                crossings[n]@[i] && (doc.entities@[i].parts.terrain matches Some(t) && t.asset is None);
            let legs = crossings.len();
            let count = doc.entities@.len();
            &&& sum > 2_000_000 ==> r is Some && r->0 is TooLarge && r->0->TooLarge_samples == (if sum
                <= u64::MAX {
                sum
            } else {
                u64::MAX as int
            })
            &&& sum <= 2_000_000 && store is Poisoned ==> r == Some(CarveRefusal::PoisonedStore)
            &&& sum <= 2_000_000 && store is NotLoaded ==> r == Some(CarveRefusal::VolumeNotLoaded)
            &&& sum <= 2_000_000 && store is Ready ==> {
                &&& r is None <==> forall|n: int, i: int|
                    0 <= n < legs && 0 <= i < count ==> !(#[trigger] inline(n, i))
                &&& r is Some ==> exists|n: int, i: int|
                    {
                        &&& 0 <= n < legs && 0 <= i < count
                        &&& #[trigger] inline(n, i)
                        &&& r == Some(CarveRefusal::InlineTerrain { terrain: doc.entities@[i].guid })
                        &&& forall|m: int, j: int|
                            0 <= m < n && 0 <= j < count ==> !(#[trigger] inline(m, j))
                        &&& forall|j: int| 0 <= j < i ==> !(#[trigger] inline(n, j))
                    }
            }
        }),
{
    let all = doc@.entities;
    let inline = |n: int, i: int|
        crossings[n]@[i] && (doc.entities@[i].parts.terrain matches Some(t) && t.asset is None);
    let count = doc.entities@.len() as int;
    lemma_asked_is_the_sum(samples, samples.len() as int);
    assert(samples.take(samples.len() as int) =~= samples);
    let at = lemma_first_refused_leg(all, crossings, 0);
    assert forall|m: int, j: int| 0 <= m < at && 0 <= j < count implies !(#[trigger] inline(m, j)) by {
        lemma_not_inline(doc, crossings[m]@, j);
    }
    if at < crossings.len() {
        let cut = crossings[at]@;
        let i = lemma_named_inline(doc, cut);
        assert(inline(at, i));
        assert forall|j: int| 0 <= j < i implies !(#[trigger] inline(at, j)) by {}
    }
}

/// A verdict that lets a cut pass crosses no terrain stored in the level.
proof fn lemma_not_inline(doc: SceneDoc, cut: Seq<bool>, j: int)
    requires
        cut.len() == doc.entities@.len(),
        0 <= j < cut.len(),
        !(carve::verdict_of(doc@.entities, cut) is RefusedInline),
    ensures
        !(cut[j] && (doc.entities@[j].parts.terrain matches Some(t) && t.asset is None)),
{
    carve::lemma_first_inline(doc@.entities, cut, 0);
    assert(doc@.entities[j] == doc.entities@[j]@);
}

/// A verdict that refuses a cut names the first entity that it is refused for.
proof fn lemma_named_inline(doc: SceneDoc, cut: Seq<bool>) -> (i: int)
    requires
        cut.len() == doc.entities@.len(),
        carve::verdict_of(doc@.entities, cut) is RefusedInline,
    ensures
        0 <= i < cut.len(),
        cut[i] && (doc.entities@[i].parts.terrain matches Some(t) && t.asset is None),
        carve::verdict_of(doc@.entities, cut) == (VerdictModel::RefusedInline {
            terrain: doc.entities@[i].guid,
        }),
        forall|j: int|
            0 <= j < i ==> !(cut[j] && ((#[trigger] doc.entities@[j]).parts.terrain matches Some(t)
                && t.asset is None)),
{
    let all = doc@.entities;
    carve::lemma_first_inline(all, cut, 0);
    let i = carve::first_inline(all, cut, 0);
    assert(all[i] == doc.entities@[i]@);
    assert forall|j: int| 0 <= j < i implies !(cut[j] && (
    (#[trigger] doc.entities@[j]).parts.terrain matches Some(t) && t.asset is None)) by {
        assert(all[j] == doc.entities@[j]@);
    }
    i
}

proof fn lemma_topmost(answers: Seq<Option<F64>>, n: int)
    requires
        0 <= n <= answers.len(),
        forall|i: int|
            0 <= i < answers.len() && (#[trigger] answers[i]) is Some ==> !answers[i]->0.nan(),
    ensures
        topmost(answers, n) is None <==> forall|i: int|
            0 <= i < n ==> (#[trigger] answers[i]) is None,
        topmost(answers, n) matches Some(y) ==> !y.nan() && exists|i: int|
            0 <= i < n && #[trigger] answers[i] == Some(y),
        forall|i: int|
            0 <= i < n && (#[trigger] answers[i]) is Some ==> topmost(answers, n) is Some
                && answers[i]->0.at_most(topmost(answers, n)->0),
    decreases n,
{
    if n > 0 {
        lemma_topmost(answers, n - 1);
        if topmost(answers, n - 1) is Some {
            let y = topmost(answers, n - 1)->0;
            let i = choose|i: int| 0 <= i < n - 1 && #[trigger] answers[i] == Some(y);
            assert(answers[i] == Some(y));
        }
    }
}

/// The ground under a point is the topmost that any terrain answers with: it is
/// one of the answers and none is above it, and there is none only where no
/// terrain answers.
pub proof fn law_the_topmost_ground_is_found(answers: Seq<Option<F64>>)
    requires
        forall|i: int|
            0 <= i < answers.len() && (#[trigger] answers[i]) is Some ==> !answers[i]->0.nan(),
    ensures
        ({
            let r = topmost(answers, answers.len() as int);
            &&& r is None <==> forall|i: int|
                0 <= i < answers.len() ==> (#[trigger] answers[i]) is None
            &&& r matches Some(y) ==> exists|i: int|
                0 <= i < answers.len() && #[trigger] answers[i] == Some(y)
            &&& forall|i: int|
                0 <= i < answers.len() && (#[trigger] answers[i]) is Some ==> r is Some
                    && answers[i]->0.at_most(r->0)
        }),
{
    lemma_topmost(answers, answers.len() as int);
}

/// Where the material of a stroke goes. A stroke that removed nothing of any
/// material, and one whose material is discarded, needs no heap. The author's
/// point is taken as it is where it is a point in space. The default site keeps
/// its place in the plane and stands on the ground where there is ground. A stroke
/// that removed more than one heap can hold is refused one.
pub proof fn law_where_the_material_goes(
    s: CarveStroke,
    choice: SpoilChoice,
    default_site: Vec3d,
    ground: Option<F64>,
)
    ensures
        ({
            let r = step_of(s@, choice, default_site, ground);
            let counts = s.tally.carved_by_material@;
            let none = forall|i: int| 0 <= i < counts.len() ==> (#[trigger] counts[i]) == 0;
            let sum = counts.fold_left(0int, |sum: int, x: u64| sum + x);
            &&& sum > 2_000_000 <==> r is Refuse
            &&& r matches SpoilStep::Refuse(refusal) ==> (refusal matches CarveRefusal::SpoilTooLarge {
                voxels,
            } && (sum <= u64::MAX ==> voxels == sum))
            &&& sum <= 2_000_000 && (none || choice is Discard) ==> r is Skip
            &&& sum <= 2_000_000 && !none ==> match choice {
                SpoilChoice::Discard => r is Skip,
                SpoilChoice::At(p) => if p.x.finite() && p.y.finite() && p.z.finite() {
                    r == SpoilStep::Place(p)
                } else {
                    r is Skip
                },
                SpoilChoice::Auto => match (s.bounds, ground) {
                    (None, _) => r is Skip,
                    (Some(_), Some(y)) => r == SpoilStep::Place(
                        Vec3d { x: default_site.x, y, z: default_site.z },
                    ),
                    (Some(_), None) => r == SpoilStep::Place(default_site),
                },
            }
        }),
{
    let counts = s.tally.carved_by_material@;
    carve::lemma_total_zero(counts);
    lemma_total_is_the_sum(counts);
}

proof fn lemma_total_is_the_sum(counts: Seq<u64>)
    ensures
        carve::total(counts) == counts.fold_left(0int, |sum: int, x: u64| sum + x),
    decreases counts.len(),
{
    if counts.len() > 0 {
        lemma_total_is_the_sum(counts.drop_last());
    }
}

/// The hole records of the first `n` terrains that say anything, by their places.
proof fn lemma_said_places(holes: Seq<(Guid, HoleDelta)>, n: int) -> (places: Seq<int>)
    requires
        0 <= n <= holes.len(),
    ensures
        said_holes(holes, n).len() == places.len(),
        forall|k: int|
            0 <= k < places.len() ==> 0 <= (#[trigger] places[k]) < n && said_holes(holes, n)[k]
                == holes[places[k]] && holes[places[k]].1.patches > 0,
        forall|j: int, k: int|
            #![trigger places[j], places[k]]
            0 <= j < k < places.len() ==> places[j] < places[k],
        forall|i: int|
            0 <= i < n && (#[trigger] holes[i]).1.patches > 0 ==> places.contains(i),
    decreases n,
{
    if n <= 0 {
        Seq::empty()
    } else {
        let before = lemma_said_places(holes, n - 1);
        if holes[n - 1].1.patches > 0 {
            let places = before.push(n - 1);
            assert forall|i: int| 0 <= i < n && (#[trigger] holes[i]).1.patches > 0 implies places.contains(
                i,
            ) by {
                if i < n - 1 {
                    let k = choose|k: int| 0 <= k < before.len() && before[k] == i;
                    assert(places[k] == i);
                } else {
                    assert(places[before.len() as int] == i);
                }
            }
            places
        } else {
            before
        }
    }
}

/// A stroke is committed whole. It makes an entry exactly where samples were moved
/// or some terrain has a hole to tell of; the entry holds the record of the volume
/// and, in their order, those of exactly the terrains that have; `places` are
/// where these stand. It is an excavation where any material was placed again,
/// and otherwise a carving. The document itself stays as the dabs left it.
pub proof fn law_a_stroke_is_committed_whole(
    before: SceneDoc,
    after: SceneDoc,
    s: CarveStroke,
    delta: VoxelDelta,
    holes: Seq<(Guid, HoleDelta)>,
    entry: bool,
) -> (places: Seq<int>)
    requires
        committed(before, after, s@, delta, holes, entry),
    ensures
        entry <==> delta.patches > 0 || exists|i: int|
            0 <= i < holes.len() && (#[trigger] holes[i]).1.patches > 0,
        after@ == before@,
        !entry ==> after.history == before.history,
        forall|j: int, k: int|
            #![trigger places[j], places[k]]
            0 <= j < k < places.len() ==> places[j] < places[k],
        forall|i: int|
            0 <= i < holes.len() ==> (places.contains(i) <==> (#[trigger] holes[i]).1.patches > 0),
        ({
            let placed = exists|i: int|
                0 <= i < s.tally.spoiled_by_material@.len() && (
                #[trigger] s.tally.spoiled_by_material@[i]) > 0;
            &&& entry && placed ==> exists|cmd: EditCommand|
                {
                    &&& #[trigger] before.history.recorded(&after.history, "Excavate"@, cmd)
                    &&& cmd matches EditCommand::CarveVoxels { volume, delta: d, holes: h } && volume
                        == s.volume && *d == delta && h@.len() == places.len() && forall|k: int|
                        0 <= k < places.len() ==> 0 <= (#[trigger] places[k]) < holes.len() && h@[k]
                            == holes[places[k]]
                }
            &&& entry && !placed ==> exists|cmd: EditCommand|
                {
                    &&& #[trigger] before.history.recorded(&after.history, "Carve Voxels"@, cmd)
                    &&& cmd matches EditCommand::CarveVoxels { volume, delta: d, holes: h } && volume
                        == s.volume && *d == delta && h@.len() == places.len() && forall|k: int|
                        0 <= k < places.len() ==> 0 <= (#[trigger] places[k]) < holes.len() && h@[k]
                            == holes[places[k]]
                }
        }),
{
    let places = lemma_said_places(holes, holes.len() as int);
    let said = said_holes(holes, holes.len() as int);
    let spoiled = s.tally.spoiled_by_material@;
    carve::lemma_total_zero(spoiled);
    if said.len() > 0 {
        assert(holes[places[0]].1.patches > 0);
    }
    if exists|i: int| 0 <= i < holes.len() && (#[trigger] holes[i]).1.patches > 0 {
        let i = choose|i: int| 0 <= i < holes.len() && (#[trigger] holes[i]).1.patches > 0;
        assert(places.contains(i));
    }
    if entry {
        let cmd = choose|cmd: EditCommand|
            {
                &&& #[trigger] before.history.recorded(&after.history, stroke_label(s@.tally), cmd)
                &&& cmd matches EditCommand::CarveVoxels { volume, delta: d, holes: h } && volume
                    == s@.volume && *d == delta && h@ == said
            };
        let placed = exists|i: int| 0 <= i < spoiled.len() && (#[trigger] spoiled[i]) > 0;
        if placed {
            assert(stroke_label(s@.tally) == "Excavate"@);
        } else {
            assert forall|i: int| 0 <= i < spoiled.len() implies (#[trigger] spoiled[i]) == 0 by {}
            assert(stroke_label(s@.tally) == "Carve Voxels"@);
        }
    }
    places
}

/// When the holes of a cut are replayed: where the cut moved no sample there is
/// nothing for the volumes to answer, and otherwise only where the volume was there
/// to be written.
pub proof fn law_when_the_ground_is_replayed(patches: usize, outcome: ReplayOutcome)
    ensures
        replays_holes(patches, outcome) <==> patches == 0 || outcome == ReplayOutcome::Replayed(true),
{
}

/// The two halves of a cut are replayed together: where the samples were not,
/// the holes above them are left alone.
pub proof fn law_halves_stay_together(patches: usize, outcome: ReplayOutcome)
    requires
        patches > 0,
        outcome != ReplayOutcome::Replayed(true),
    ensures
        !replays_holes(patches, outcome),
{
}

/// The plan of a dig that may be cut: each leg opens every terrain that it crosses
/// and no other, in the order of the entities; `places` are where they stand.
pub proof fn law_a_leg_opens_what_it_crosses(doc: SceneDoc, crossings: Seq<Vec<bool>>, n: int) -> (places:
    Seq<int>)
    requires
        0 <= n < crossings.len(),
        crossings[n]@.len() == doc.entities@.len(),
        forall|i: int|
            0 <= i < doc.entities@.len() && crossings[n]@[i] ==> ((
            #[trigger] doc.entities@[i]).parts.terrain matches Some(t) ==> t.asset is Some),
    ensures
        ({
            let terrains = leg_terrains(doc@.entities, crossings, n);
            let open = |i: int| crossings[n]@[i] && doc.entities@[i].parts.terrain is Some;
            let count = doc.entities@.len();
            &&& terrains.len() == places.len()
            &&& forall|k: int|
                0 <= k < places.len() ==> 0 <= (#[trigger] places[k]) < count && open(places[k])
                    && terrains[k] == doc.entities@[places[k]].guid
            &&& forall|j: int, k: int|
                #![trigger places[j], places[k]]
                0 <= j < k < places.len() ==> places[j] < places[k]
            &&& forall|i: int| 0 <= i < count && #[trigger] open(i) ==> places.contains(i)
        }),
{
    let cut = crossings[n]@;
    let all = doc@.entities;
    let count = doc.entities@.len() as int;
    let open = |i: int| cut[i] && doc.entities@[i].parts.terrain is Some;
    carve::lemma_first_inline(all, cut, 0);
    let at = carve::first_inline(all, cut, 0);
    if at < count {
        assert(all[at] == doc.entities@[at]@);
        assert(doc.entities@[at].parts.terrain is Some);
    }
    let places = carve::lemma_crossed_places(all, cut, count);
    assert forall|k: int| 0 <= k < places.len() implies open(#[trigger] places[k]) && all[places[k]].guid
        == doc.entities@[places[k]].guid by {
        assert(all[places[k]] == doc.entities@[places[k]]@);
    }
    assert forall|i: int| 0 <= i < count && #[trigger] open(i) implies places.contains(i) by {
        assert(all[i] == doc.entities@[i]@);
    }
    places
}

/// What displacing the material of a stroke comes to. Where a heap may not be made,
/// the refusal is the answer; where none is wanted, it succeeds; the stroke stays as
/// it is either way. Where one is made, it has to hold what was removed, material by
/// material: then its samples count as placed, as filled and as touched, and any
/// other outcome is an error that leaves the totals. The volume, the box and the
/// records of the stroke stay.
pub proof fn law_what_displacing_comes_to(
    before: CarveStroke,
    step: SpoilStep,
    outcome: SpoilOutcome,
    r: Result<(), CarveRefusal>,
    after: CarveStroke,
)
    requires
        r == displaced(before@, step, outcome),
        after@ == displaced_stroke(before@, step, outcome),
    ensures
        ({
            let removed = before.tally.carved_by_material@;
            let none = forall|i: int| 0 <= i < removed.len() ==> (#[trigger] removed[i]) == 0;
            let sum = removed.fold_left(0int, |sum: int, x: u64| sum + x);
            &&& step matches SpoilStep::Refuse(refusal) ==> r == Err::<(), CarveRefusal>(refusal)
            &&& step is Skip ==> r is Ok
            &&& !(step is Place) ==> after@ == before@
            &&& after@ == (StrokeModel { tally: after@.tally, ..before@ })
            &&& step is Place && none ==> r is Ok && after@ == before@
            &&& step is Place && !none ==> match outcome {
                SpoilOutcome::Poisoned => r == Err::<(), CarveRefusal>(CarveRefusal::PoisonedStore)
                    && after@ == before@,
                SpoilOutcome::NotLoaded => r == Err::<(), CarveRefusal>(CarveRefusal::VolumeNotLoaded)
                    && after@ == before@,
                SpoilOutcome::Placed(report) => if report.placed@ == removed {
                    &&& r is Ok
                    &&& after.tally.spoiled_by_material@ == removed
                    &&& after.tally.carved_by_material@ == removed
                    &&& after.tally.filled == before.tally.filled + sum
                    &&& after.tally.touched == before.tally.touched + sum
                    &&& after.tally.carved == before.tally.carved
                    &&& after.tally.created_chunks == before.tally.created_chunks
                        + report.created_chunks
                } else {
                    &&& r == Err::<(), CarveRefusal>(CarveRefusal::SpoilShortfall)
                    &&& after@ == before@
                },
            }
        }),
{
    if step is Place {
        stroke::law_a_heap_holds_what_was_removed(before.tally, outcome, after.tally);
    }
}

/// What the log says of the volumes after a replay. Volumes that answered say
/// nothing where the cut was replayed, or where it moved no sample; a cut that was
/// not replayed is told as missing. Volumes that cannot be read are told of as such,
/// and where the cut moved samples it is missing too.
pub proof fn law_what_the_log_says_of_the_volumes(patches: usize, holes: usize, outcome: ReplayOutcome)
    ensures
        ({
            let told = volume_notes(patches, holes, outcome);
            match outcome {
                ReplayOutcome::Replayed(done) => if done || patches == 0 {
                    told.len() == 0
                } else {
                    told == seq![CarveNote::VolumeMissing { patches, holes }]
                },
                ReplayOutcome::Poisoned => if patches == 0 {
                    told == seq![CarveNote::UnreadableWithoutSamples { holes }]
                } else {
                    told == seq![
                        CarveNote::Unreadable { holes },
                        CarveNote::VolumeMissing { patches, holes },
                    ]
                },
            }
        }),
{
    assert(volume_notes(patches, holes, ReplayOutcome::Poisoned) =~= (if patches == 0 {
        seq![CarveNote::UnreadableWithoutSamples { holes }]
    } else {
        seq![CarveNote::Unreadable { holes }, CarveNote::VolumeMissing { patches, holes }]
    }));
    assert(volume_notes(patches, holes, ReplayOutcome::Replayed(false)) =~= (if patches == 0 {
        Seq::empty()
    } else {
        seq![CarveNote::VolumeMissing { patches, holes }]
    }));
}

/// What the log says of the ground after a replay: every terrain that was not there,
/// and every one that left patches out, in order, and of the others nothing; `places`
/// are where they stand.
pub proof fn law_what_the_log_says_of_the_ground(replays: Seq<HoleReplay>, n: int) -> (places: Seq<int>)
    requires
        0 <= n <= replays.len(),
    ensures
        ({
            let told = ground_notes(replays, n);
            let lost = |i: int| replays[i].skipped != Some(0usize);
            &&& told.len() == places.len()
            &&& forall|k: int|
                0 <= k < places.len() ==> 0 <= (#[trigger] places[k]) < n && lost(places[k]) && told[k]
                    == (match replays[places[k]].skipped {
                    None => CarveNote::TerrainMissing {
                        terrain: replays[places[k]].terrain,
                        patches: replays[places[k]].patches,
                    },
                    Some(skipped) => CarveNote::PatchesSkipped {
                        terrain: replays[places[k]].terrain,
                        skipped,
                        patches: replays[places[k]].patches,
                    },
                })
            &&& forall|j: int, k: int|
                #![trigger places[j], places[k]]
                0 <= j < k < places.len() ==> places[j] < places[k]
            &&& forall|i: int| 0 <= i < n && #[trigger] lost(i) ==> places.contains(i)
        }),
    decreases n,
{
    let lost = |i: int| replays[i].skipped != Some(0usize);
    if n <= 0 {
        Seq::empty()
    } else {
        let before = law_what_the_log_says_of_the_ground(replays, n - 1);
        if replays[n - 1].skipped == Some(0usize) {
            assert(!lost(n - 1));
            before
        } else {
            assert(lost(n - 1));
            let places = before.push(n - 1);
            assert forall|i: int| 0 <= i < n && #[trigger] lost(i) implies places.contains(i) by {
                if i < n - 1 {
                    let k = choose|k: int| 0 <= k < before.len() && before[k] == i;
                    assert(places[k] == i);
                } else {
                    assert(places[before.len() as int] == i);
                }
            }
            places
        }
    }
}

} // verus!
