//! Foliage: scattered instances, and the strokes that add and remove them.

use crate::guid::Guid;
use crate::scene::component::{blobs, clone_list, Component};
use crate::scene::doc::{changed, lemma_change_keeps_shape, models, DocModel, SceneDoc};
use crate::scene::entity::{Entity, EntityModel};
use crate::scene::record::PartsModel;
use vstd::prelude::*;

verus! {

/// A scatter of instances over a palette, each by its encoded form.
#[derive(Debug, PartialEq, Eq)]
pub struct Foliage {
    pub palette: Component,
    pub instances: Vec<Component>,
}

/// What a scatter holds.
pub struct FoliageModel {
    pub palette: Seq<u8>,
    pub instances: Seq<Seq<u8>>,
}

impl View for Foliage {
    type V = FoliageModel;

    open spec fn view(&self) -> FoliageModel {
        FoliageModel { palette: self.palette@, instances: blobs(self.instances@) }
    }
}

impl Clone for Foliage {
    fn clone(&self) -> (r: Self)
        ensures
            r@ == self@,
    {
        Foliage { palette: self.palette.clone(), instances: clone_list(&self.instances) }
    }
}

/// What the slot holds, where it is filled.
pub open spec fn foliage_now(slot: Option<Foliage>) -> Option<FoliageModel> {
    match slot {
        Some(f) => Some(f@),
        None => None,
    }
}

pub fn clone_foliage(slot: &Option<Foliage>) -> (r: Option<Foliage>)
    ensures
        foliage_now(r) == foliage_now(*slot),
{
    match slot {
        Some(f) => Some(f.clone()),
        None => None,
    }
}

// ---------------------------------------------------------------- strokes

/// An instance with the place it had.
pub type Uprooted = (int, Seq<u8>);

/// What the removed instances of a stroke hold.
pub open spec fn uprooted(removed: Seq<(usize, Component)>) -> Seq<Uprooted> {
    removed.map_values(|r: (usize, Component)| (r.0 as int, r.1@))
}

/// The instances without those at the first `n` places, the last place first.
pub open spec fn taken_out(instances: Seq<Seq<u8>>, removed: Seq<Uprooted>, n: int) -> Seq<Seq<u8>>
    decreases n,
{
    if n <= 0 {
        instances
    } else {
        let p = removed[n - 1].0;
        taken_out(
            if 0 <= p < instances.len() {
                instances.remove(p)
            } else {
                instances
            },
            removed,
            n - 1,
        )
    }
}

/// The place an instance goes back to: its own, or the end where that is past
/// it.
pub open spec fn bed(instances: Seq<Seq<u8>>, p: int) -> int {
    if p <= instances.len() {
        p
    } else {
        instances.len() as int
    }
}

/// The instances with the first `n` removed ones back at their places, the first
/// place first.
pub open spec fn put_back(instances: Seq<Seq<u8>>, removed: Seq<Uprooted>, n: int) -> Seq<Seq<u8>>
    decreases n,
{
    if n <= 0 {
        instances
    } else {
        let before = put_back(instances, removed, n - 1);
        before.insert(bed(before, removed[n - 1].0), removed[n - 1].1)
    }
}

impl FoliageModel {
    /// The scatter after a stroke: the removed instances taken out, and those
    /// that were added at the end.
    pub open spec fn painted(self, added: Seq<Seq<u8>>, removed: Seq<Uprooted>) -> FoliageModel {
        FoliageModel {
            instances: taken_out(self.instances, removed, removed.len() as int) + added,
            ..self
        }
    }

    /// The scatter before a stroke: the added instances off the end, and the
    /// removed ones back at their places.
    pub open spec fn unpainted(self, added: Seq<Seq<u8>>, removed: Seq<Uprooted>) -> FoliageModel {
        let left = if added.len() <= self.instances.len() {
            self.instances.take(self.instances.len() - added.len())
        } else {
            Seq::empty()
        };
        FoliageModel { instances: put_back(left, removed, removed.len() as int), ..self }
    }

    /// Whether a stroke tells the truth about the scatter it is about to change:
    /// the instances it removes are there, their places in ascending order.
    pub open spec fn holds_all(self, removed: Seq<Uprooted>) -> bool {
        &&& forall|i: int|
            0 <= i < removed.len() ==> 0 <= (#[trigger] removed[i]).0 < self.instances.len()
                && self.instances[removed[i].0] == removed[i].1
        &&& forall|i: int, j: int|
            #![trigger removed[i], removed[j]]
            0 <= i < j < removed.len() ==> removed[i].0 < removed[j].0
    }
}

/// The slot after a stroke went forward, or back; an entity without foliage has
/// none after it either.
pub open spec fn slot_stroked(
    slot: Option<FoliageModel>,
    added: Seq<Seq<u8>>,
    removed: Seq<Uprooted>,
    revert: bool,
) -> Option<FoliageModel> {
    match slot {
        Some(f) => Some(
            if revert {
                f.unpainted(added, removed)
            } else {
                f.painted(added, removed)
            },
        ),
        None => None,
    }
}

/// The entities after a stroke on the foliage of one.
pub open spec fn with_stroke(
    entities: Seq<EntityModel>,
    guid: Guid,
    added: Seq<Seq<u8>>,
    removed: Seq<Uprooted>,
    revert: bool,
) -> Seq<EntityModel> {
    changed(
        entities,
        guid,
        |e: EntityModel|
            EntityModel {
                parts: PartsModel {
                    foliage: slot_stroked(e.parts.foliage, added, removed, revert),
                    ..e.parts
                },
                ..e
            },
    )
}

impl Foliage {
    /// Do, or redo, a stroke.
    pub fn paint(&mut self, added: &Vec<Component>, removed: &Vec<(usize, Component)>)
        ensures
            final(self)@ == old(self)@.painted(blobs(added@), uprooted(removed@)),
    {
        let ghost start = blobs(self.instances@);
        let ghost gone = uprooted(removed@);
        let mut n: usize = removed.len();
        while n > 0
            invariant
                gone == uprooted(removed@),
                n <= removed.len(),
                self.palette@ == old(self).palette@,
                taken_out(blobs(self.instances@), gone, n as int) == taken_out(
                    start,
                    gone,
                    gone.len() as int,
                ),
            decreases n,
        {
            n = n - 1;
            let p = removed[n].0;
            assert(gone[n as int].0 == p);
            if p < self.instances.len() {
                let ghost before = self.instances@;
                self.instances.remove(p);
                assert(blobs(self.instances@) =~= blobs(before).remove(p as int));
            }
        }
        let ghost kept = self.instances@;
        let mut i: usize = 0;
        assert(blobs(kept) =~= blobs(kept) + blobs(added@).take(0));
        while i < added.len()
            invariant
                i <= added.len(),
                self.palette@ == old(self).palette@,
                blobs(self.instances@) == blobs(kept) + blobs(added@).take(i as int),
            decreases added.len() - i,
        {
            let c = added[i].clone();
            let ghost before = self.instances@;
            self.instances.push(c);
            proof {
                assert(blobs(self.instances@) =~= blobs(before).push(c@));
                assert(blobs(self.instances@) =~= blobs(kept) + blobs(added@).take(i + 1));
            }
            i = i + 1;
        }
        assert(blobs(added@).take(i as int) =~= blobs(added@));
    }

    /// Undo a stroke.
    pub fn unpaint(&mut self, added: &Vec<Component>, removed: &Vec<(usize, Component)>)
        ensures
            final(self)@ == old(self)@.unpainted(blobs(added@), uprooted(removed@)),
    {
        let ghost all = self.instances@;
        let left: usize = if added.len() <= self.instances.len() {
            self.instances.len() - added.len()
        } else {
            0
        };
        self.instances.truncate(left);
        let ghost start = blobs(self.instances@);
        proof {
            assert(start =~= blobs(all).take(left as int));
            if added.len() > all.len() {
                assert(start =~= Seq::<Seq<u8>>::empty());
            }
        }
        let ghost gone = uprooted(removed@);
        let mut n: usize = 0;
        while n < removed.len()
            invariant
                gone == uprooted(removed@),
                n <= removed.len(),
                self.palette@ == old(self).palette@,
                blobs(self.instances@) == put_back(start, gone, n as int),
            decreases removed.len() - n,
        {
            let at = removed[n].0;
            let c = removed[n].1.clone();
            assert(gone[n as int] == (at as int, c@));
            let p: usize = if at <= self.instances.len() {
                at
            } else {
                self.instances.len()
            };
            let ghost before = self.instances@;
            self.instances.insert(p, c);
            assert(blobs(self.instances@) =~= blobs(before).insert(p as int, c@));
            n = n + 1;
        }
    }
}

impl Entity {
    /// Do, or undo, a stroke on the entity's foliage, where it has any.
    pub fn stroke_foliage(
        &mut self,
        added: &Vec<Component>,
        removed: &Vec<(usize, Component)>,
        revert: bool,
    )
        ensures
            final(self)@ == (EntityModel {
                parts: PartsModel {
                    foliage: slot_stroked(
                        old(self)@.parts.foliage,
                        blobs(added@),
                        uprooted(removed@),
                        revert,
                    ),
                    ..old(self)@.parts
                },
                ..old(self)@
            }),
    {
        let mut slot: Option<Foliage> = None;
        std::mem::swap(&mut self.parts.foliage, &mut slot);
        self.parts.foliage = match slot {
            Some(f) => {
                let mut f = f;
                if revert {
                    f.unpaint(added, removed);
                } else {
                    f.paint(added, removed);
                }
                Some(f)
            },
            None => None,
        };
    }
}

impl SceneDoc {
    fn stroke_foliage(
        &mut self,
        guid: Guid,
        added: &Vec<Component>,
        removed: &Vec<(usize, Component)>,
        revert: bool,
    )
        ensures
            final(self)@ == (DocModel {
                entities: with_stroke(
                    old(self)@.entities,
                    guid,
                    blobs(added@),
                    uprooted(removed@),
                    revert,
                ),
                ..old(self)@
            }),
            old(self).wf() ==> final(self).wf(),
            final(self).history == old(self).history,
    {
        let ghost (a, g) = (blobs(added@), uprooted(removed@));
        let ghost change = |e: EntityModel|
            EntityModel {
                parts: PartsModel {
                    foliage: slot_stroked(e.parts.foliage, a, g, revert),
                    ..e.parts
                },
                ..e
            };
        let i = self.index_of(guid);
        if i < self.entities.len() {
            let ghost before = self.entities@;
            self.entities[i].stroke_foliage(added, removed, revert);
            proof {
                assert(with_stroke(models(before), guid, a, g, revert) =~= changed(
                    models(before),
                    guid,
                    change,
                ));
                assert(models(self.entities@) =~= models(before).update(
                    i as int,
                    change(models(before)[i as int]),
                ));
                lemma_change_keeps_shape(models(before), guid, change);
            }
        }
    }

    /// Redo a stroke on the foliage of an entity.
    pub fn raw_apply_foliage(
        &mut self,
        guid: Guid,
        added: &Vec<Component>,
        removed: &Vec<(usize, Component)>,
    )
        ensures
            final(self)@ == (DocModel {
                entities: with_stroke(
                    old(self)@.entities,
                    guid,
                    blobs(added@),
                    uprooted(removed@),
                    false,
                ),
                ..old(self)@
            }),
            old(self).wf() ==> final(self).wf(),
            final(self).history == old(self).history,
    {
        self.stroke_foliage(guid, added, removed, false);
    }

    /// Undo a stroke on the foliage of an entity.
    pub fn raw_revert_foliage(
        &mut self,
        guid: Guid,
        added: &Vec<Component>,
        removed: &Vec<(usize, Component)>,
    )
        ensures
            final(self)@ == (DocModel {
                entities: with_stroke(
                    old(self)@.entities,
                    guid,
                    blobs(added@),
                    uprooted(removed@),
                    true,
                ),
                ..old(self)@
            }),
            old(self).wf() ==> final(self).wf(),
            final(self).history == old(self).history,
    {
        self.stroke_foliage(guid, added, removed, true);
    }
}

// ---------------------------------------------------------------- laws

/// A stroke on foliage is taken back: undone, it leaves every instance at the
/// place it had.
pub proof fn law_foliage_stroke_is_taken_back(
    f: FoliageModel,
    added: Seq<Seq<u8>>,
    removed: Seq<Uprooted>,
)
    requires
        f.holds_all(removed),
    ensures
        f.painted(added, removed).unpainted(added, removed) == f,
{
    let n = removed.len() as int;
    let kept = taken_out(f.instances, removed, n);
    let all = kept + added;
    assert(all.take(all.len() - added.len()) =~= kept);
    lemma_put_back(f.instances, removed, n);
}

proof fn lemma_put_back(instances: Seq<Seq<u8>>, removed: Seq<Uprooted>, n: int)
    requires
        0 <= n <= removed.len(),
        forall|i: int|
            0 <= i < n ==> 0 <= (#[trigger] removed[i]).0 < instances.len()
                && instances[removed[i].0] == removed[i].1,
        forall|i: int, j: int|
            #![trigger removed[i], removed[j]]
            0 <= i < j < n ==> removed[i].0 < removed[j].0,
    ensures
        put_back(taken_out(instances, removed, n), removed, n) == instances,
    decreases n,
{
    if n > 0 {
        let p = removed[n - 1].0;
        let rest = instances.remove(p);
        assert forall|i: int| 0 <= i < n - 1 implies 0 <= (#[trigger] removed[i]).0 < rest.len()
            && rest[removed[i].0] == removed[i].1 by {
            assert(removed[i].0 < removed[n - 1].0);
        }
        lemma_put_back(rest, removed, n - 1);
        assert(rest.insert(p, removed[n - 1].1) =~= instances);
    }
}

proof fn lemma_taken_out(instances: Seq<Seq<u8>>, removed: Seq<Uprooted>, n: int) -> (places: Seq<int>)
    requires
        0 <= n <= removed.len(),
        forall|i: int| 0 <= i < removed.len() ==> 0 <= (#[trigger] removed[i]).0 < instances.len(),
        forall|i: int, j: int|
            #![trigger removed[i], removed[j]]
            0 <= i < j < removed.len() ==> removed[i].0 < removed[j].0,
    ensures
        taken_out(instances, removed, n).len() == places.len(),
        forall|k: int|
            0 <= k < places.len() ==> 0 <= (#[trigger] places[k]) < instances.len() && taken_out(
                instances,
                removed,
                n,
            )[k] == instances[places[k]],
        forall|j: int, k: int|
            #![trigger places[j], places[k]]
            0 <= j < k < places.len() ==> places[j] < places[k],
        forall|p: int|
            0 <= p < instances.len() ==> (#[trigger] places.contains(p) <==> forall|i: int|
                0 <= i < n ==> (#[trigger] removed[i]).0 != p),
    decreases n,
{
    if n <= 0 {
        let places = Seq::new(instances.len(), |k: int| k);
        assert forall|p: int| 0 <= p < instances.len() implies #[trigger] places.contains(p) by {
            assert(places[p] == p);
        }
        places
    } else {
        let q = removed[n - 1].0;
        let less = instances.remove(q);
        let head = removed.take(n - 1);
        lemma_taken_out_prefix(less, removed, head, n - 1);
        assert forall|i: int| 0 <= i < head.len() implies 0 <= (#[trigger] head[i]).0 < less.len() by {
            assert(head[i] == removed[i]);
            assert(removed[i].0 < removed[n - 1].0);
        }
        let inner = lemma_taken_out(less, head, n - 1);
        let places = Seq::new(
            inner.len(),
            |k: int|
                if inner[k] < q {
                    inner[k]
                } else {
                    inner[k] + 1
                },
        );
        assert forall|p: int| 0 <= p < instances.len() implies (#[trigger] places.contains(p)
            <==> forall|i: int| 0 <= i < n ==> (#[trigger] removed[i]).0 != p) by {
            let s = if p < q {
                p
            } else {
                p - 1
            };
            if places.contains(p) {
                let k = choose|k: int| 0 <= k < places.len() && places[k] == p;
                assert(inner[k] == s && p != q);
                assert(inner.contains(s));
                assert forall|i: int| 0 <= i < n implies (#[trigger] removed[i]).0 != p by {
                    if i < n - 1 {
                        assert(head[i] == removed[i]);
                        assert(head[i].0 != s);
                        assert(removed[i].0 < removed[n - 1].0);
                    }
                }
            }
            if forall|i: int| 0 <= i < n ==> (#[trigger] removed[i]).0 != p {
                assert(removed[n - 1].0 != p);
                assert forall|i: int| 0 <= i < n - 1 implies (#[trigger] head[i]).0 != s by {
                    assert(head[i] == removed[i]);
                    assert(removed[i].0 < removed[n - 1].0);
                }
                assert(inner.contains(s));
                let k = choose|k: int| 0 <= k < inner.len() && inner[k] == s;
                assert(places[k] == p);
            }
        }
        places
    }
}

proof fn lemma_taken_out_prefix(
    instances: Seq<Seq<u8>>,
    a: Seq<Uprooted>,
    b: Seq<Uprooted>,
    n: int,
)
    requires
        n <= a.len(),
        n <= b.len(),
        forall|i: int| 0 <= i < n ==> (#[trigger] a[i]) == b[i],
    ensures
        taken_out(instances, a, n) == taken_out(instances, b, n),
    decreases n,
{
    if n > 0 {
        assert(a[n - 1] == b[n - 1]);
        let p = a[n - 1].0;
        lemma_taken_out_prefix(
            if 0 <= p < instances.len() {
                instances.remove(p)
            } else {
                instances
            },
            a,
            b,
            n - 1,
        );
    }
}

/// What a stroke does to a scatter: the instances at the places it removes go, every
/// other one stays in its order, and those it adds follow at the end in theirs;
/// `places` are where those that stay stood. The palette stays.
pub proof fn law_a_foliage_stroke(f: FoliageModel, added: Seq<Seq<u8>>, removed: Seq<Uprooted>) -> (places:
    Seq<int>)
    requires
        forall|i: int| 0 <= i < removed.len() ==> 0 <= (#[trigger] removed[i]).0 < f.instances.len(),
        forall|i: int, j: int|
            #![trigger removed[i], removed[j]]
            0 <= i < j < removed.len() ==> removed[i].0 < removed[j].0,
    ensures
        ({
            let out = f.painted(added, removed);
            let n = places.len() as int;
            &&& out.palette == f.palette
            &&& out.instances.len() == n + added.len()
            &&& forall|k: int|
                0 <= k < n ==> 0 <= (#[trigger] places[k]) < f.instances.len() && out.instances[k]
                    == f.instances[places[k]]
            &&& forall|j: int, k: int|
                #![trigger places[j], places[k]]
                0 <= j < k < n ==> places[j] < places[k]
            &&& forall|p: int|
                0 <= p < f.instances.len() ==> (#[trigger] places.contains(p) <==> forall|i: int|
                    0 <= i < removed.len() ==> (#[trigger] removed[i]).0 != p)
            &&& forall|k: int| 0 <= k < added.len() ==> out.instances[n + k] == #[trigger] added[k]
        }),
{
    lemma_taken_out(f.instances, removed, removed.len() as int)
}

} // verus!
