//! Carving voxels: the verdict on a cut, the running totals of a stroke, and
//! the excavation that displaces what it removes.
//!
//! A cut is two edits that have to behave as one: samples in a voxel volume,
//! and holes in the ground above. The volume and the ground answer for
//! themselves; what their answers mean for the stroke, the document and its
//! history is decided here. The volume answers first, and where it refuses, the
//! ground is not opened.

use crate::guid::Guid;
use crate::scene::doc::SceneDoc;
use crate::scene::entity::EntityModel;
use crate::text;
use crate::text::{concat3, decimal};
use vstd::prelude::*;

verus! {

/// The most samples one dig may move, cut and heap together.
pub const MAX_DIG_SAMPLES: u64 = 2_000_000;

pub const INLINE_TERRAIN_CARVE_REFUSAL: &'static str = "Carve refused: this cut breaks through an INLINE terrain, and a terrain stored in the level cannot save cave mouths (the level schema pins its tiles at a layout with no hole mask). Nothing was carved. Convert the terrain to asset-backed — import or export it as a .inf_terrain — and the same cut will work.";

pub const VOLUME_NOT_LOADED_CARVE_REFUSAL: &'static str = "Carve refused: the target voxel volume has no loaded chunks, so there is nothing to cut. Its .inf_voxel may have been released or its asset reference cleared since the gesture started. Nothing was carved, and no cave mouth was opened.";

pub const POISONED_STORE_CARVE_REFUSAL: &'static str = "Carve refused: the voxel working set is unreadable — a thread panicked while holding it, so the loaded chunks are in an unknown state. Nothing was carved, and no cave mouth was opened. Save your work and restart the editor.";

pub const DIG_TOO_LARGE_REFUSAL: &'static str = "Dig refused: this excavation is larger than one transaction may move. Nothing was cut. Reduce the pit's footprint or its depth, or dig it in several passes — a dig is committed whole, so half a foundation pit is not an option the editor offers.";

pub const SPOIL_SHORTFALL_REFUSAL: &'static str = "Spoil refused: the excavated soil could not be placed — the spoil site is buried in solid rock for as far as the pile could search, or the stroke removed more than one heap can hold. The cut itself is committed (Ctrl+Z takes it back); the material was discarded. Move the spoil site to open ground, or dig in smaller passes.";

pub const SPOIL_TOO_LARGE_REFUSAL: &'static str = "Spoil skipped: this stroke removed more material than one heap can hold, so the soil was discarded rather than piled. The cut is committed and Ctrl+Z takes it back. Dig in several passes if you want the spoil.";

/// Why a carve did not happen, or not in full.
#[derive(Clone, Copy, Debug, PartialEq, Eq, Structural)]
pub enum CarveRefusal {
    /// The cut breaks through a terrain that is stored in the level.
    InlineTerrain { terrain: Guid },
    /// The volume has no loaded chunks.
    VolumeNotLoaded,
    /// The working set of the volumes cannot be read.
    PoisonedStore,
    /// The dig asks for more samples than one dig may move.
    TooLarge { samples: u64 },
    /// A stroke removed more than one heap can hold; the cut stands.
    SpoilTooLarge { voxels: u64 },
    /// The heap could not hold what the cut removed; the cut stands.
    SpoilShortfall,
}

impl CarveRefusal {
    /// The sentence the tool shows.
    pub open spec fn sentence(self) -> Seq<char> {
        match self {
            CarveRefusal::InlineTerrain { .. } => INLINE_TERRAIN_CARVE_REFUSAL@,
            CarveRefusal::VolumeNotLoaded => VOLUME_NOT_LOADED_CARVE_REFUSAL@,
            CarveRefusal::PoisonedStore => POISONED_STORE_CARVE_REFUSAL@,
            CarveRefusal::TooLarge { .. } => DIG_TOO_LARGE_REFUSAL@,
            CarveRefusal::SpoilTooLarge { .. } => SPOIL_TOO_LARGE_REFUSAL@,
            CarveRefusal::SpoilShortfall => SPOIL_SHORTFALL_REFUSAL@,
        }
    }

    pub fn message(&self) -> (r: &'static str)
        ensures
            r@ == self.sentence(),
    {
        match self {
            CarveRefusal::InlineTerrain { .. } => INLINE_TERRAIN_CARVE_REFUSAL,
            CarveRefusal::VolumeNotLoaded => VOLUME_NOT_LOADED_CARVE_REFUSAL,
            CarveRefusal::PoisonedStore => POISONED_STORE_CARVE_REFUSAL,
            CarveRefusal::TooLarge { .. } => DIG_TOO_LARGE_REFUSAL,
            CarveRefusal::SpoilTooLarge { .. } => SPOIL_TOO_LARGE_REFUSAL,
            CarveRefusal::SpoilShortfall => SPOIL_SHORTFALL_REFUSAL,
        }
    }
}

// ---------------------------------------------------------------- verdict

/// What a proposed cut is allowed to do, decided before anything is written.
#[derive(Debug, PartialEq, Eq)]
pub enum CarveVerdict {
    /// It reaches no ground.
    NoSurface,
    /// It breaks through, and every terrain it breaks through can keep the
    /// mouths.
    Opens { terrains: Vec<Guid> },
    /// It breaks through a terrain that is stored in the level and cannot keep
    /// them. The whole cut is refused.
    RefusedInline { terrain: Guid },
}

/// What a verdict says.
pub enum VerdictModel {
    NoSurface,
    Opens { terrains: Seq<Guid> },
    RefusedInline { terrain: Guid },
}

impl View for CarveVerdict {
    type V = VerdictModel;

    open spec fn view(&self) -> VerdictModel {
        match self {
            CarveVerdict::NoSurface => VerdictModel::NoSurface,
            CarveVerdict::Opens { terrains } => VerdictModel::Opens { terrains: terrains@ },
            CarveVerdict::RefusedInline { terrain } => VerdictModel::RefusedInline {
                terrain: *terrain,
            },
        }
    }
}

impl CarveVerdict {
    /// Whether the tools may proceed.
    pub fn allowed(&self) -> (r: bool)
        ensures
            r == !(self@ is RefusedInline),
    {
        match self {
            CarveVerdict::RefusedInline { .. } => false,
            _ => true,
        }
    }

    /// The terrains whose hole masks the cut will move.
    pub fn terrains(&self) -> (r: Vec<Guid>)
        ensures
            r@ == (match self@ {
                VerdictModel::Opens { terrains } => terrains,
                _ => Seq::<Guid>::empty(),
            }),
    {
        match self {
            CarveVerdict::Opens { terrains } => copy_guids(terrains),
            _ => Vec::new(),
        }
    }
}

/// A copy of a list of identities.
pub fn copy_guids(list: &Vec<Guid>) -> (r: Vec<Guid>)
    ensures
        r@ == list@,
{
    let mut out: Vec<Guid> = Vec::new();
    let mut i: usize = 0;
    while i < list.len()
        invariant
            i <= list.len(),
            out@ == list@.take(i as int),
        decreases list.len() - i,
    {
        out.push(list[i]);
        i = i + 1;
    }
    proof {
        assert(out@ =~= list@);
    }
    out
}

/// Whether the cut breaks through the ground of entity `i`: it has a terrain,
/// and the cut crosses its surface.
pub open spec fn breaks_through(entities: Seq<EntityModel>, crosses: Seq<bool>, i: int) -> bool {
    entities[i].parts.terrain is Some && crosses[i]
}

/// Whether the ground of entity `i` is stored in the level.
pub open spec fn is_inline(entities: Seq<EntityModel>, i: int) -> bool {
    entities[i].parts.terrain matches Some(t) && t.asset is None
}

/// The terrains among the first `n` entities that the cut breaks through.
pub open spec fn crossed(entities: Seq<EntityModel>, crosses: Seq<bool>, n: int) -> Seq<Guid>
    decreases n,
{
    if n <= 0 {
        Seq::empty()
    } else if breaks_through(entities, crosses, n - 1) {
        crossed(entities, crosses, n - 1).push(entities[n - 1].guid)
    } else {
        crossed(entities, crosses, n - 1)
    }
}

/// The first entity whose ground the cut breaks through and which is stored in
/// the level; the number of entities where there is none.
pub open spec fn first_inline(entities: Seq<EntityModel>, crosses: Seq<bool>, from: int) -> int
    decreases entities.len() - from,
{
    if from < 0 || from >= entities.len() {
        entities.len() as int
    } else if breaks_through(entities, crosses, from) && is_inline(entities, from) {
        from
    } else {
        first_inline(entities, crosses, from + 1)
    }
}

/// The verdict on a cut, of which `crosses` says for each entity whether it
/// crosses the surface of its terrain.
pub open spec fn verdict_of(entities: Seq<EntityModel>, crosses: Seq<bool>) -> VerdictModel {
    let at = first_inline(entities, crosses, 0);
    if at < entities.len() {
        VerdictModel::RefusedInline { terrain: entities[at].guid }
    } else {
        let terrains = crossed(entities, crosses, entities.len() as int);
        if terrains.len() == 0 {
            VerdictModel::NoSurface
        } else {
            VerdictModel::Opens { terrains }
        }
    }
}

impl SceneDoc {
    /// Decide what a cut may do to the document's terrains. `crosses` holds for
    /// each entity whether the cut crosses the surface of its terrain.
    pub fn carve_verdict(&self, crosses: &Vec<bool>) -> (r: CarveVerdict)
        requires
            crosses.len() == self.entities.len(),
        ensures
            r@ == verdict_of(self@.entities, crosses@),
    {
        let ghost all = self@.entities;
        let mut terrains: Vec<Guid> = Vec::new();
        let mut i: usize = 0;
        proof {
            assert(terrains@ =~= crossed(all, crosses@, 0));
        }
        while i < self.entities.len()
            invariant
                all == self@.entities,
                crosses.len() == self.entities.len(),
                i <= self.entities.len(),
                terrains@ == crossed(all, crosses@, i as int),
                first_inline(all, crosses@, 0) == first_inline(all, crosses@, i as int),
            decreases self.entities.len() - i,
        {
            proof {
                assert(all[i as int] == self.entities@[i as int]@);
            }
            match &self.entities[i].parts.terrain {
                Some(t) => {
                    if crosses[i] {
                        if t.asset.is_none() {
                            return CarveVerdict::RefusedInline { terrain: self.entities[i].guid };
                        }
                        terrains.push(self.entities[i].guid);
                    }
                },
                None => {},
            }
            i = i + 1;
        }
        if terrains.len() == 0 {
            CarveVerdict::NoSurface
        } else {
            CarveVerdict::Opens { terrains }
        }
    }
}

/// The entities among the first `n` that the cut breaks through, by their places.
pub proof fn lemma_crossed_places(entities: Seq<EntityModel>, crosses: Seq<bool>, n: int) -> (places:
    Seq<int>)
    requires
        0 <= n <= entities.len(),
        crosses.len() == entities.len(),
    ensures
        crossed(entities, crosses, n).len() == places.len(),
        forall|k: int|
            0 <= k < places.len() ==> 0 <= (#[trigger] places[k]) < n && entities[places[k]].parts.terrain is Some
                && crosses[places[k]] && crossed(entities, crosses, n)[k] == entities[places[k]].guid,
        forall|j: int, k: int|
            #![trigger places[j], places[k]]
            0 <= j < k < places.len() ==> places[j] < places[k],
        forall|i: int|
            0 <= i < n && (#[trigger] entities[i]).parts.terrain is Some && crosses[i]
                ==> places.contains(i),
    decreases n,
{
    if n <= 0 {
        Seq::empty()
    } else {
        let before = lemma_crossed_places(entities, crosses, n - 1);
        if breaks_through(entities, crosses, n - 1) {
            let places = before.push(n - 1);
            assert forall|i: int|
                0 <= i < n && (#[trigger] entities[i]).parts.terrain is Some && crosses[i] implies places.contains(
                i,
            ) by {
                if i < n - 1 {
                    let k = choose|k: int| 0 <= k < before.len() && before[k] == i;
                    assert(places[k] == i);
                } else {
                    assert(places[before.len() as int] == i);
                }
            }
            places
        } else {
            before
        }
    }
}

/// The entity that a refusal names is the first whose terrain is stored in the
/// level and crossed.
pub proof fn lemma_first_inline(entities: Seq<EntityModel>, crosses: Seq<bool>, from: int)
    requires
        0 <= from <= entities.len(),
        crosses.len() == entities.len(),
    ensures
        ({
            let at = first_inline(entities, crosses, from);
            &&& from <= at <= entities.len()
            &&& at < entities.len() ==> crosses[at] && (entities[at].parts.terrain matches Some(t)
                && t.asset is None)
            &&& forall|i: int|
                from <= i < at && crosses[i] ==> ((#[trigger] entities[i]).parts.terrain matches Some(
                    t,
                ) ==> t.asset is Some)
        }),
    decreases entities.len() - from,
{
    if from < entities.len() {
        if !(breaks_through(entities, crosses, from) && is_inline(entities, from)) {
            lemma_first_inline(entities, crosses, from + 1);
        }
    }
}

/// A cut is refused exactly where it crosses a terrain that is stored in the
/// level, and the first such entity is named. A cut that is not refused opens
/// every terrain it crosses and no other, in the order of the entities; `places`
/// are where they stand. One that crosses no terrain reaches no ground.
pub proof fn law_carve_verdict(doc: SceneDoc, crosses: Seq<bool>, verdict: CarveVerdict) -> (places:
    Seq<int>)
    requires
        crosses.len() == doc@.entities.len(),
        verdict@ == verdict_of(doc@.entities, crosses),
    ensures
        ({
            let inline = |i: int|
                crosses[i] && (doc.entities@[i].parts.terrain matches Some(t) && t.asset is None);
            let open = |i: int| crosses[i] && doc.entities@[i].parts.terrain is Some;
            let n = doc.entities@.len();
            &&& verdict is RefusedInline <==> exists|i: int| 0 <= i < n && #[trigger] inline(i)
            &&& verdict matches CarveVerdict::RefusedInline { terrain } ==> exists|i: int|
                {
                    &&& 0 <= i < n
                    &&& #[trigger] inline(i)
                    &&& doc.entities@[i].guid == terrain
                    &&& forall|j: int| 0 <= j < i ==> !(#[trigger] inline(j))
                }
            &&& verdict is NoSurface <==> forall|i: int| 0 <= i < n ==> !(#[trigger] open(i))
            &&& verdict matches CarveVerdict::Opens { terrains } ==> {
                &&& terrains@.len() == places.len()
                &&& forall|k: int|
                    0 <= k < places.len() ==> 0 <= (#[trigger] places[k]) < n && open(places[k])
                        && terrains@[k] == doc.entities@[places[k]].guid
                &&& forall|j: int, k: int|
                    #![trigger places[j], places[k]]
                    0 <= j < k < places.len() ==> places[j] < places[k]
                &&& forall|i: int| 0 <= i < n && #[trigger] open(i) ==> places.contains(i)
            }
        }),
{
    let all = doc@.entities;
    let n = all.len() as int;
    let inline = |i: int|
        crosses[i] && (doc.entities@[i].parts.terrain matches Some(t) && t.asset is None);
    let open = |i: int| crosses[i] && doc.entities@[i].parts.terrain is Some;
    assert forall|i: int| 0 <= i < n implies inline(i) == (crosses[i] && (
    (#[trigger] all[i]).parts.terrain matches Some(t) && t.asset is None)) && open(i) == (crosses[i]
        && all[i].parts.terrain is Some) && all[i].guid == doc.entities@[i].guid by {
        assert(all[i] == doc.entities@[i]@);
    }
    lemma_first_inline(all, crosses, 0);
    let at = first_inline(all, crosses, 0);
    let places = lemma_crossed_places(all, crosses, n);
    assert forall|i: int| 0 <= i < at implies !(#[trigger] inline(i)) by {
        assert(all[i] == doc.entities@[i]@);
    }
    if at < n {
        assert(all[at] == doc.entities@[at]@);
        assert(inline(at));
        assert(open(at));
    } else {
        if places.len() > 0 {
            assert(all[places[0]] == doc.entities@[places[0]]@);
            assert(open(places[0]));
        }
        assert forall|i: int| 0 <= i < n && #[trigger] open(i) implies places.contains(i) by {
            assert(all[i] == doc.entities@[i]@);
        }
        assert forall|k: int| 0 <= k < places.len() implies open(#[trigger] places[k]) by {
            assert(all[places[k]] == doc.entities@[places[k]]@);
        }
    }
    places
}

// ---------------------------------------------------------------- totals

/// The sum of the counts.
pub open spec fn total(counts: Seq<u64>) -> nat
    decreases counts.len(),
{
    if counts.len() == 0 {
        0
    } else {
        total(counts.drop_last()) + counts.last() as nat
    }
}

proof fn lemma_total_take(counts: Seq<u64>, i: int)
    requires
        0 <= i < counts.len(),
    ensures
        total(counts.take(i + 1)) == total(counts.take(i)) + counts[i],
        total(counts.take(i + 1)) <= total(counts),
    decreases counts.len() - i,
{
    assert(counts.take(i + 1).drop_last() =~= counts.take(i));
    if i + 1 < counts.len() {
        lemma_total_take(counts, i + 1);
    } else {
        assert(counts.take(i + 1) =~= counts);
    }
}

/// A sum is zero exactly where every count is.
pub proof fn lemma_total_zero(counts: Seq<u64>)
    ensures
        total(counts) == 0 <==> forall|i: int| 0 <= i < counts.len() ==> (#[trigger] counts[i]) == 0,
    decreases counts.len(),
{
    if counts.len() > 0 {
        let rest = counts.drop_last();
        lemma_total_zero(rest);
        if total(counts) == 0 {
            assert forall|i: int| 0 <= i < counts.len() implies (#[trigger] counts[i]) == 0 by {
                if i < rest.len() {
                    assert(rest[i] == counts[i]);
                }
            }
        }
        if forall|i: int| 0 <= i < counts.len() ==> (#[trigger] counts[i]) == 0 {
            assert forall|i: int| 0 <= i < rest.len() implies (#[trigger] rest[i]) == 0 by {
                assert(rest[i] == counts[i]);
            }
        }
    }
}

/// The sum of the counts.
pub fn sum_of(counts: &Vec<u64>) -> (r: u64)
    requires
        total(counts@) <= u64::MAX,
    ensures
        r == total(counts@),
{
    let mut sum: u64 = 0;
    let mut i: usize = 0;
    proof {
        assert(counts@.take(0) =~= Seq::<u64>::empty());
    }
    while i < counts.len()
        invariant
            i <= counts.len(),
            sum == total(counts@.take(i as int)),
            total(counts@) <= u64::MAX,
        decreases counts.len() - i,
    {
        proof {
            lemma_total_take(counts@, i as int);
        }
        sum = sum + counts[i];
        i = i + 1;
    }
    proof {
        assert(counts@.take(i as int) =~= counts@);
    }
    sum
}

/// The running totals of a stroke. The last two count samples by the material
/// they carry: those removed, and those placed again as a heap.
#[derive(Debug, PartialEq, Eq)]
pub struct CarveTally {
    pub touched: u64,
    pub carved: u64,
    pub filled: u64,
    pub created_chunks: u64,
    pub holes: u64,
    pub carved_by_material: Vec<u64>,
    pub spoiled_by_material: Vec<u64>,
}

/// What the totals say.
pub struct TallyModel {
    pub touched: int,
    pub carved: int,
    pub filled: int,
    pub created_chunks: int,
    pub holes: int,
    pub carved_by_material: Seq<u64>,
    pub spoiled_by_material: Seq<u64>,
}

impl View for CarveTally {
    type V = TallyModel;

    open spec fn view(&self) -> TallyModel {
        TallyModel {
            touched: self.touched as int,
            carved: self.carved as int,
            filled: self.filled as int,
            created_chunks: self.created_chunks as int,
            holes: self.holes as int,
            carved_by_material: self.carved_by_material@,
            spoiled_by_material: self.spoiled_by_material@,
        }
    }
}

/// A copy of a list of counts.
pub fn copy_counts(list: &Vec<u64>) -> (r: Vec<u64>)
    ensures
        r@ == list@,
{
    let mut out: Vec<u64> = Vec::new();
    let mut i: usize = 0;
    while i < list.len()
        invariant
            i <= list.len(),
            out@ == list@.take(i as int),
        decreases list.len() - i,
    {
        out.push(list[i]);
        i = i + 1;
    }
    proof {
        assert(out@ =~= list@);
    }
    out
}

fn zeros(n: usize) -> (r: Vec<u64>)
    ensures
        r@ == Seq::new(n as nat, |i: int| 0u64),
{
    let mut out: Vec<u64> = Vec::new();
    let mut i: usize = 0;
    while i < n
        invariant
            i <= n,
            out@ == Seq::new(i as nat, |j: int| 0u64),
        decreases n - i,
    {
        out.push(0);
        i = i + 1;
        proof {
            assert(out@ =~= Seq::new(i as nat, |j: int| 0u64));
        }
    }
    out
}

impl Clone for CarveTally {
    fn clone(&self) -> (r: Self)
        ensures
            r@ == self@,
    {
        CarveTally {
            touched: self.touched,
            carved: self.carved,
            filled: self.filled,
            created_chunks: self.created_chunks,
            holes: self.holes,
            carved_by_material: copy_counts(&self.carved_by_material),
            spoiled_by_material: copy_counts(&self.spoiled_by_material),
        }
    }
}

impl TallyModel {
    /// Nothing yet, of so many materials.
    pub open spec fn zero(materials: nat) -> TallyModel {
        TallyModel {
            touched: 0,
            carved: 0,
            filled: 0,
            created_chunks: 0,
            holes: 0,
            carved_by_material: Seq::new(materials, |i: int| 0u64),
            spoiled_by_material: Seq::new(materials, |i: int| 0u64),
        }
    }

    /// The totals go together: both lists count the same materials, and no more
    /// was placed of a material than was removed of it.
    pub open spec fn wf(self) -> bool {
        &&& self.carved_by_material.len() == self.spoiled_by_material.len()
        &&& forall|i: int|
            0 <= i < self.carved_by_material.len() ==> (#[trigger] self.spoiled_by_material[i])
                <= self.carved_by_material[i]
    }

    /// Whether every sample removed was placed again, material by material.
    pub open spec fn is_conserved(self) -> bool {
        self.carved_by_material == self.spoiled_by_material
    }
}

/// The breakdown of the first `n` materials: those with a count, each as
/// `layer <material>: <count>`, with commas between.
pub open spec fn breakdown(counts: Seq<u64>, n: int) -> Seq<char>
    decreases n,
{
    if n <= 0 {
        Seq::empty()
    } else {
        let before = breakdown(counts, n - 1);
        if counts[n - 1] == 0 {
            before
        } else {
            before + (if before.len() == 0 {
                Seq::empty()
            } else {
                ", "@
            }) + ("layer "@ + text::decimal_of((n - 1) as nat) + ": "@) + text::decimal_of(
                counts[n - 1] as nat,
            )
        }
    }
}

impl CarveTally {
    /// Nothing yet, of so many materials.
    pub fn zero(materials: usize) -> (r: CarveTally)
        ensures
            r@ == TallyModel::zero(materials as nat),
            r@.wf(),
    {
        CarveTally {
            touched: 0,
            carved: 0,
            filled: 0,
            created_chunks: 0,
            holes: 0,
            carved_by_material: zeros(materials),
            spoiled_by_material: zeros(materials),
        }
    }

    /// Whether the stroke changed nothing at all.
    pub fn is_noop(&self) -> (r: bool)
        ensures
            r == (self@.touched == 0 && self@.holes == 0),
    {
        self.touched == 0 && self.holes == 0
    }

    /// The number of samples placed as a heap.
    pub fn spoiled(&self) -> (r: u64)
        requires
            total(self@.spoiled_by_material) <= u64::MAX,
        ensures
            r == total(self@.spoiled_by_material),
    {
        sum_of(&self.spoiled_by_material)
    }

    /// Whether every sample removed was placed again, material by material and
    /// exactly.
    pub fn conserved(&self) -> (r: bool)
        ensures
            r == self@.is_conserved(),
    {
        same_counts(&self.carved_by_material, &self.spoiled_by_material)
    }

    /// What was removed, material by material, in one line; nothing where
    /// nothing was.
    pub fn material_breakdown(&self) -> (r: String)
        ensures
            r@ == breakdown(
                self@.carved_by_material,
                self@.carved_by_material.len() as int,
            ),
    {
        let counts = &self.carved_by_material;
        let mut line = String::new();
        let mut n: usize = 0;
        while n < counts.len()
            invariant
                counts@ == self@.carved_by_material,
                n <= counts.len(),
                line@ == breakdown(counts@, n as int),
            decreases counts.len() - n,
        {
            let count = counts[n];
            let ghost before = line@;
            if count > 0 {
                let layer = decimal(n as u64);
                let amount = decimal(count);
                if line.as_str().unicode_len() > 0 {
                    line.append(", ");
                }
                let head = concat3("layer ", layer.as_str(), ": ");
                line.append(head.as_str());
                line.append(amount.as_str());
                proof {
                    assert(line@ =~= breakdown(counts@, n + 1));
                }
            }
            n = n + 1;
        }
        line
    }
}

/// Whether two lists of counts are the same.
pub fn same_counts(a: &Vec<u64>, b: &Vec<u64>) -> (r: bool)
    ensures
        r == (a@ == b@),
{
    if a.len() != b.len() {
        return false;
    }
    let mut i: usize = 0;
    while i < a.len()
        invariant
            a.len() == b.len(),
            i <= a.len(),
            forall|j: int| 0 <= j < i ==> a@[j] == b@[j],
        decreases a.len() - i,
    {
        if a[i] != b[i] {
            return false;
        }
        i = i + 1;
    }
    proof {
        assert(a@ =~= b@);
    }
    true
}

/// The breakdown of a stroke's counts is empty exactly where every count is nought.
/// Its last entry is that of the last material with a count; what stands before it
/// is the breakdown of the materials before that one.
pub proof fn law_the_breakdown_lists_what_counts(counts: Seq<u64>, n: int)
    requires
        0 <= n <= counts.len(),
    ensures
        breakdown(counts, n).len() == 0 <==> forall|i: int| 0 <= i < n ==> (#[trigger] counts[i]) == 0,
        forall|i: int|
            0 <= i < n && (#[trigger] counts[i]) > 0 && (forall|j: int|
                i < j < n ==> (#[trigger] counts[j]) == 0) ==> {
                let entry = "layer "@ + text::decimal_of(i as nat) + ": "@ + text::decimal_of(
                    counts[i] as nat,
                );
                breakdown(counts, n) == (if forall|j: int|
                    0 <= j < i ==> (#[trigger] counts[j]) == 0 {
                    entry
                } else {
                    breakdown(counts, i) + ", "@ + entry
                })
            },
    decreases n,
{
    if n > 0 {
        law_the_breakdown_lists_what_counts(counts, n - 1);
        let before = breakdown(counts, n - 1);
        let entry = "layer "@ + text::decimal_of((n - 1) as nat) + ": "@ + text::decimal_of(
            counts[n - 1] as nat,
        );
        text::law_decimal_reads_back(counts[n - 1] as nat);
        if counts[n - 1] > 0 {
            if before.len() == 0 {
                assert(before =~= Seq::<char>::empty());
                assert(breakdown(counts, n) =~= entry);
            } else {
                assert(breakdown(counts, n) =~= before + ", "@ + entry);
            }
            assert(breakdown(counts, n).len() >= entry.len());
            assert forall|i: int|
                0 <= i < n && (#[trigger] counts[i]) > 0 && (forall|j: int|
                    i < j < n ==> (#[trigger] counts[j]) == 0) implies i == n - 1 by {
                if i < n - 1 {
                    assert(counts[n - 1] == 0);
                }
            }
        }
    }
}

/// The sentence that each refusal is shown with.
pub proof fn law_a_refusal_is_shown_in_words(refusal: CarveRefusal)
    ensures
        match refusal {
            CarveRefusal::InlineTerrain { .. } => refusal.sentence() == "Carve refused: this cut breaks through an INLINE terrain, and a terrain stored in the level cannot save cave mouths (the level schema pins its tiles at a layout with no hole mask). Nothing was carved. Convert the terrain to asset-backed — import or export it as a .inf_terrain — and the same cut will work."@,
            CarveRefusal::VolumeNotLoaded => refusal.sentence() == "Carve refused: the target voxel volume has no loaded chunks, so there is nothing to cut. Its .inf_voxel may have been released or its asset reference cleared since the gesture started. Nothing was carved, and no cave mouth was opened."@,
            CarveRefusal::PoisonedStore => refusal.sentence() == "Carve refused: the voxel working set is unreadable — a thread panicked while holding it, so the loaded chunks are in an unknown state. Nothing was carved, and no cave mouth was opened. Save your work and restart the editor."@,
            CarveRefusal::TooLarge { .. } => refusal.sentence() == "Dig refused: this excavation is larger than one transaction may move. Nothing was cut. Reduce the pit's footprint or its depth, or dig it in several passes — a dig is committed whole, so half a foundation pit is not an option the editor offers."@,
            CarveRefusal::SpoilTooLarge { .. } => refusal.sentence() == "Spoil skipped: this stroke removed more material than one heap can hold, so the soil was discarded rather than piled. The cut is committed and Ctrl+Z takes it back. Dig in several passes if you want the spoil."@,
            CarveRefusal::SpoilShortfall => refusal.sentence() == "Spoil refused: the excavated soil could not be placed — the spoil site is buried in solid rock for as far as the pile could search, or the stroke removed more than one heap can hold. The cut itself is committed (Ctrl+Z takes it back); the material was discarded. Move the spoil site to open ground, or dig in smaller passes."@,
        },
{
}

/// Material is conserved where of every material as much was placed as was removed.
pub proof fn law_conserved_is_material_by_material(t: CarveTally)
    ensures
        t@.is_conserved() <==> t.carved_by_material@.len() == t.spoiled_by_material@.len() && forall|i: int|
            0 <= i < t.carved_by_material@.len() ==> (#[trigger] t.carved_by_material@[i])
                == t.spoiled_by_material@[i],
{
    if t.carved_by_material@.len() == t.spoiled_by_material@.len() && (forall|i: int|
        0 <= i < t.carved_by_material@.len() ==> (#[trigger] t.carved_by_material@[i])
            == t.spoiled_by_material@[i]) {
        assert(t.carved_by_material@ =~= t.spoiled_by_material@);
    }
}

} // verus!
