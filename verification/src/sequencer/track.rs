//! Property tracks.
//!
//! A track animates one scalar of one entity. Its keys are kept in the order of
//! their times, one key to a time; the left key of a segment says how the
//! segment is crossed. What a blend of two keys comes to is left to the caller,
//! who has the arithmetic.

use crate::bits::F64;
use crate::guid::Guid;
use vstd::prelude::*;

verus! {

/// How the segment to the right of a key is crossed.
#[derive(Clone, Copy, Debug, PartialEq, Eq, Structural)]
pub enum Interp {
    /// The left value holds until the next key.
    Step,
    /// The values blend linearly.
    Linear,
}

impl Default for Interp {
    fn default() -> (r: Interp)
        ensures
            r == Interp::Linear,
    {
        Interp::Linear
    }
}

/// One keyframe: a time in seconds and a value.
#[derive(Clone, Copy, Debug, PartialEq, Eq, Structural)]
pub struct Key {
    pub t: F64,
    pub value: F64,
    pub interp: Interp,
}

/// One scalar property track.
#[derive(Debug, PartialEq, Eq)]
pub struct PropertyTrack {
    /// The entity.
    pub target: Guid,
    /// The path of the scalar, as in `Transform.translation.x`.
    pub path: String,
    pub keys: Vec<Key>,
}

/// What a track holds.
pub struct TrackModel {
    pub target: Guid,
    pub path: Seq<char>,
    pub keys: Seq<Key>,
}

impl View for PropertyTrack {
    type V = TrackModel;

    open spec fn view(&self) -> TrackModel {
        TrackModel { target: self.target, path: self.path@, keys: self.keys@ }
    }
}

impl Clone for PropertyTrack {
    fn clone(&self) -> (r: Self)
        ensures
            r@ == self@,
    {
        let mut keys: Vec<Key> = Vec::new();
        let mut i: usize = 0;
        while i < self.keys.len()
            invariant
                i <= self.keys.len(),
                keys@ == self.keys@.take(i as int),
            decreases self.keys.len() - i,
        {
            keys.push(self.keys[i]);
            i = i + 1;
        }
        proof {
            assert(keys@ =~= self.keys@);
        }
        PropertyTrack { target: self.target, path: self.path.clone(), keys }
    }
}

/// What sampling a track comes to: a value as it stands, or the blend of two
/// neighbouring keys.
#[derive(Clone, Copy, Debug, PartialEq, Eq, Structural)]
pub enum Sample {
    Hold(F64),
    Blend(Key, Key),
}

// ---------------------------------------------------------------- keys

/// Keys whose times can be put in order: none is a not-a-number.
pub open spec fn orderable(keys: Seq<Key>) -> bool {
    forall|i: int| 0 <= i < keys.len() ==> !(#[trigger] keys[i]).t.nan()
}

/// Keys in the order of their times, one to a time.
pub open spec fn increasing(keys: Seq<Key>) -> bool {
    forall|i: int, j: int|
        #![trigger keys[i], keys[j]]
        0 <= i < j < keys.len() ==> keys[i].t.below(keys[j].t)
}

/// The number of leading keys before the time `t`.
pub open spec fn count_before(keys: Seq<Key>, t: F64) -> nat
    decreases keys.len(),
{
    if keys.len() == 0 || !keys[0].t.below(t) {
        0
    } else {
        1 + count_before(keys.drop_first(), t)
    }
}

/// Ordered keys with one more, which replaces a key at the same time.
pub open spec fn with_key(keys: Seq<Key>, k: Key) -> Seq<Key> {
    let p = count_before(keys, k.t) as int;
    if p < keys.len() && keys[p].t.equals(k.t) {
        keys.update(p, k)
    } else {
        keys.insert(p, k)
    }
}

/// The keys in the order of their times; of the keys at one time the one that
/// was authored last stays.
pub open spec fn settled(keys: Seq<Key>) -> Seq<Key>
    decreases keys.len(),
{
    if keys.len() == 0 {
        keys
    } else {
        with_key(settled(keys.drop_last()), keys.last())
    }
}

/// The last key at the time `t`.
pub open spec fn key_at(keys: Seq<Key>, t: F64) -> Option<int>
    decreases keys.len(),
{
    if keys.len() == 0 {
        None
    } else if keys.last().t.equals(t) {
        Some(keys.len() - 1)
    } else {
        key_at(keys.drop_last(), t)
    }
}

/// The keys with the one at `t` replaced, or with one more at the end.
pub open spec fn replaced(keys: Seq<Key>, t: F64, value: F64, interp: Interp) -> Seq<Key> {
    match key_at(keys, t) {
        Some(i) => keys.update(i, Key { t: keys[i].t, value, interp }),
        None => keys.push(Key { t, value, interp }),
    }
}

/// The first segment, from `i` on, that holds the time `t`.
pub open spec fn segment_of(keys: Seq<Key>, t: F64, i: int) -> int
    decreases keys.len() - i,
{
    if i < 0 || i + 1 >= keys.len() {
        keys.len() as int
    } else if keys[i].t.at_most(t) && t.below(keys[i + 1].t) {
        i
    } else {
        segment_of(keys, t, i + 1)
    }
}

/// What the keys come to at the time `t`: the first value up to the first key,
/// the last value from the last key on, and in between what the left key of the
/// segment asks for.
pub open spec fn sampled(keys: Seq<Key>, t: F64) -> Option<Sample> {
    if keys.len() == 0 {
        None
    } else if t.at_most(keys[0].t) {
        Some(Sample::Hold(keys[0].value))
    } else if keys.last().t.at_most(t) {
        Some(Sample::Hold(keys.last().value))
    } else {
        let i = segment_of(keys, t, 0);
        if i < keys.len() {
            match keys[i].interp {
                Interp::Step => Some(Sample::Hold(keys[i].value)),
                Interp::Linear => Some(Sample::Blend(keys[i], keys[i + 1])),
            }
        } else {
            Some(Sample::Hold(keys.last().value))
        }
    }
}

proof fn lemma_count_before(keys: Seq<Key>, t: F64)
    requires
        increasing(keys),
        orderable(keys),
        !t.nan(),
    ensures
        count_before(keys, t) <= keys.len(),
        forall|i: int| 0 <= i < count_before(keys, t) ==> (#[trigger] keys[i]).t.below(t),
        forall|i: int| count_before(keys, t) <= i < keys.len() ==> t.at_most((#[trigger] keys[i]).t),
    decreases keys.len(),
{
    if keys.len() > 0 {
        let rest = keys.drop_first();
        if keys[0].t.below(t) {
            assert forall|i: int, j: int| #![trigger rest[i], rest[j]] 0 <= i < j < rest.len() implies
                rest[i].t.below(rest[j].t) by {
                assert(rest[i] == keys[i + 1] && rest[j] == keys[j + 1]);
            }
            assert forall|i: int| 0 <= i < rest.len() implies !(#[trigger] rest[i]).t.nan() by {
                assert(rest[i] == keys[i + 1]);
            }
            lemma_count_before(rest, t);
            assert forall|i: int| 0 <= i < count_before(keys, t) implies (#[trigger] keys[i]).t.below(t) by {
                if i > 0 {
                    assert(keys[i] == rest[i - 1]);
                }
            }
            assert forall|i: int| count_before(keys, t) <= i < keys.len() implies t.at_most(
                (#[trigger] keys[i]).t,
            ) by {
                assert(keys[i] == rest[i - 1]);
            }
        } else {
            assert forall|i: int| 0 <= i < keys.len() implies t.at_most((#[trigger] keys[i]).t) by {
                if i > 0 {
                    assert(keys[0].t.below(keys[i].t));
                }
            }
        }
    }
}

/// Whether some key stands at the time `t`.
pub open spec fn has_time(keys: Seq<Key>, t: F64) -> bool {
    exists|j: int| 0 <= j < keys.len() && (#[trigger] keys[j]).t.equals(t)
}

/// Whether no later key stands at the time of key `i`.
pub open spec fn last_of_its_time(keys: Seq<Key>, i: int) -> bool {
    !has_time(keys.skip(i + 1), keys[i].t)
}

proof fn lemma_with_key_order(keys: Seq<Key>, k: Key)
    requires
        increasing(keys),
        orderable(keys),
        !k.t.nan(),
    ensures
        increasing(with_key(keys, k)),
        orderable(with_key(keys, k)),
{
    lemma_count_before(keys, k.t);
    let p = count_before(keys, k.t) as int;
    let out = with_key(keys, k);
    if p < keys.len() && keys[p].t.equals(k.t) {
        assert forall|i: int, j: int| #![trigger out[i], out[j]] 0 <= i < j < out.len() implies out[i].t.below(
            out[j].t,
        ) by {
            assert(keys[i].t.below(keys[j].t));
        }
        assert forall|i: int| 0 <= i < out.len() implies !(#[trigger] out[i]).t.nan() by {
            assert(!keys[i].t.nan());
        }
    } else {
        assert forall|i: int, j: int| #![trigger out[i], out[j]] 0 <= i < j < out.len() implies out[i].t.below(
            out[j].t,
        ) by {
            if i < p && j < p {
                assert(out[i] == keys[i] && out[j] == keys[j]);
            } else if i < p && j == p {
                assert(out[i] == keys[i]);
            } else if i < p && j > p {
                assert(out[i] == keys[i] && out[j] == keys[j - 1]);
            } else if i == p && j > p {
                assert(out[j] == keys[j - 1]);
                assert(k.t.at_most(keys[j - 1].t));
                if j - 1 > p {
                    assert(keys[p].t.below(keys[j - 1].t));
                }
            } else {
                assert(out[i] == keys[i - 1] && out[j] == keys[j - 1]);
            }
        }
        assert forall|i: int| 0 <= i < out.len() implies !(#[trigger] out[i]).t.nan() by {
            if i < p {
                assert(out[i] == keys[i]);
            } else if i > p {
                assert(out[i] == keys[i - 1]);
            }
        }
    }
}

proof fn lemma_with_key_contents(keys: Seq<Key>, k: Key, x: Key)
    requires
        increasing(keys),
        orderable(keys),
        !k.t.nan(),
    ensures
        with_key(keys, k).contains(x) <==> x == k || (keys.contains(x) && !x.t.equals(k.t)),
{
    lemma_count_before(keys, k.t);
    let p = count_before(keys, k.t) as int;
    let out = with_key(keys, k);
    assert(out[p] == k);
    let there = p < keys.len() && keys[p].t.equals(k.t);
    assert forall|i: int| 0 <= i < keys.len() && !(there && i == p) implies !(#[trigger] keys[i]).t.equals(
        k.t,
    ) by {
        if i > p {
            assert(keys[p].t.below(keys[i].t));
            assert(k.t.at_most(keys[p].t));
        } else if i < p {
            assert(keys[i].t.below(k.t));
        }
    }
    if out.contains(x) {
        let j = choose|j: int| 0 <= j < out.len() && out[j] == x;
        if j < p || (there && j > p) {
            assert(keys[j] == x);
        } else if j > p {
            assert(keys[j - 1] == x);
        }
    }
    if keys.contains(x) && !x.t.equals(k.t) {
        let i = choose|i: int| 0 <= i < keys.len() && keys[i] == x;
        if i < p || there {
            assert(out[i] == x);
        } else {
            assert(out[i + 1] == x);
        }
    }
}

proof fn lemma_settled_order(keys: Seq<Key>)
    requires
        orderable(keys),
    ensures
        increasing(settled(keys)),
        orderable(settled(keys)),
    decreases keys.len(),
{
    if keys.len() > 0 {
        assert forall|i: int| 0 <= i < keys.drop_last().len() implies !(#[trigger] keys.drop_last()[i]).t.nan() by {
            assert(keys.drop_last()[i] == keys[i]);
        }
        lemma_settled_order(keys.drop_last());
        lemma_with_key_order(settled(keys.drop_last()), keys.last());
    }
}

/// Whether some time is among the keys does not change when they are settled.
proof fn lemma_settled_times(keys: Seq<Key>, t: F64)
    requires
        orderable(keys),
        !t.nan(),
    ensures
        has_time(settled(keys), t) == has_time(keys, t),
    decreases keys.len(),
{
    if keys.len() > 0 {
        let rest = keys.drop_last();
        let k = keys.last();
        let before = settled(rest);
        let out = settled(keys);
        assert forall|i: int| 0 <= i < rest.len() implies !(#[trigger] rest[i]).t.nan() by {
            assert(rest[i] == keys[i]);
        }
        lemma_settled_order(rest);
        lemma_settled_times(rest, t);
        if has_time(out, t) {
            let j = choose|j: int| 0 <= j < out.len() && (#[trigger] out[j]).t.equals(t);
            lemma_with_key_contents(before, k, out[j]);
            assert(out.contains(out[j]));
            if out[j] == k {
                assert(keys[keys.len() - 1].t.equals(t));
            } else {
                let h = choose|h: int| 0 <= h < before.len() && before[h] == out[j];
                assert(before[h].t.equals(t));
                let g = choose|g: int| 0 <= g < rest.len() && (#[trigger] rest[g]).t.equals(t);
                assert(keys[g].t.equals(t));
            }
        }
        if has_time(keys, t) {
            let i = choose|i: int| 0 <= i < keys.len() && (#[trigger] keys[i]).t.equals(t);
            lemma_with_key_contents(before, k, k);
            let last = choose|j: int| 0 <= j < out.len() && out[j] == k;
            if k.t.equals(t) {
                assert(out[last].t.equals(t));
            } else {
                assert(i < rest.len() && rest[i].t.equals(t));
                let h = choose|h: int| 0 <= h < before.len() && (#[trigger] before[h]).t.equals(t);
                lemma_with_key_contents(before, k, before[h]);
                assert(before.contains(before[h]));
                let j = choose|j: int| 0 <= j < out.len() && out[j] == before[h];
                assert(out[j].t.equals(t));
            }
        }
    }
}

/// Which keys stay: those that are the last of their time, and no others.
proof fn lemma_settled_contents(keys: Seq<Key>, x: Key)
    requires
        orderable(keys),
    ensures
        settled(keys).contains(x) <==> exists|i: int|
            0 <= i < keys.len() && keys[i] == x && #[trigger] last_of_its_time(keys, i),
    decreases keys.len(),
{
    if keys.len() > 0 {
        let rest = keys.drop_last();
        let k = keys.last();
        let n = keys.len() - 1;
        let before = settled(rest);
        assert forall|i: int| 0 <= i < rest.len() implies !(#[trigger] rest[i]).t.nan() by {
            assert(rest[i] == keys[i]);
        }
        lemma_settled_order(rest);
        lemma_settled_contents(rest, x);
        lemma_with_key_contents(before, k, x);
        assert(last_of_its_time(keys, n));
        assert forall|i: int| 0 <= i < n implies #[trigger] last_of_its_time(keys, i) == (
        last_of_its_time(rest, i) && !keys[i].t.equals(k.t)) by {
            lemma_time_of_one_more(rest.skip(i + 1), k, keys[i].t);
            assert(keys.skip(i + 1) =~= rest.skip(i + 1).push(k));
        }
        if before.contains(x) && !x.t.equals(k.t) {
            let i = choose|i: int|
                0 <= i < rest.len() && rest[i] == x && #[trigger] last_of_its_time(rest, i);
            assert(last_of_its_time(keys, i));
        }
        if exists|i: int| 0 <= i < keys.len() && keys[i] == x && #[trigger] last_of_its_time(keys, i) {
            let i = choose|i: int|
                0 <= i < keys.len() && keys[i] == x && #[trigger] last_of_its_time(keys, i);
            if i < n {
                assert(rest[i] == x && last_of_its_time(rest, i));
            }
        }
    }
}

proof fn lemma_time_of_one_more(keys: Seq<Key>, k: Key, t: F64)
    ensures
        has_time(keys.push(k), t) == (has_time(keys, t) || k.t.equals(t)),
{
    let more = keys.push(k);
    if has_time(keys, t) {
        let j = choose|j: int| 0 <= j < keys.len() && (#[trigger] keys[j]).t.equals(t);
        assert(more[j].t.equals(t));
    }
    if k.t.equals(t) {
        assert(more[keys.len() as int].t.equals(t));
    }
    if has_time(more, t) {
        let j = choose|j: int| 0 <= j < more.len() && (#[trigger] more[j]).t.equals(t);
        if j < keys.len() {
            assert(keys[j].t.equals(t));
        }
    }
}

/// Settled keys are in order with one key to a time; they hold exactly the keys
/// that were authored last at their time, and so a key for every time.
pub proof fn law_settled_keys(keys: Seq<Key>, x: Key, t: F64)
    requires
        orderable(keys),
        !t.nan(),
    ensures
        increasing(settled(keys)),
        settled(keys).contains(x) <==> exists|i: int|
            0 <= i < keys.len() && keys[i] == x && #[trigger] last_of_its_time(keys, i),
        has_time(settled(keys), t) == has_time(keys, t),
{
    lemma_settled_order(keys);
    lemma_settled_contents(keys, x);
    lemma_settled_times(keys, t);
}

proof fn lemma_segment(keys: Seq<Key>, t: F64, from: int, i: int)
    requires
        forall|a: int, b: int|
            #![trigger keys[a], keys[b]]
            0 <= a < b < keys.len() ==> keys[a].t.below(keys[b].t),
        0 <= from <= i,
        i + 1 < keys.len(),
        keys[i].t.at_most(t),
        t.below(keys[i + 1].t),
    ensures
        segment_of(keys, t, from) == i,
    decreases i - from,
{
    if from < i {
        if from + 1 < i {
            assert(keys[from + 1].t.below(keys[i].t));
        }
        assert(!t.below(keys[from + 1].t));
        lemma_segment(keys, t, from + 1, i);
    }
}

proof fn lemma_no_segment(keys: Seq<Key>, t: F64, from: int)
    requires
        t.nan(),
        0 <= from <= keys.len(),
    ensures
        segment_of(keys, t, from) == keys.len(),
    decreases keys.len() - from,
{
    if from + 1 < keys.len() {
        lemma_no_segment(keys, t, from + 1);
    }
}

/// What a track with its keys in order comes to. Without a key there is nothing.
/// Up to the first key its value holds, and from the last key on, or at a time
/// that is no number, the last value. A time in between lies in one segment, and
/// there the left key decides: it holds its value, or it blends toward the key
/// that follows it.
pub proof fn law_sample_between_neighbours(track: PropertyTrack, t: F64, i: int)
    requires
        forall|a: int, b: int|
            #![trigger track.keys@[a], track.keys@[b]]
            0 <= a < b < track.keys@.len() ==> track.keys@[a].t.below(track.keys@[b].t),
    ensures
        ({
            let keys = track.keys@;
            let n = keys.len() as int;
            let r = sampled(keys, t);
            &&& n == 0 ==> r is None
            &&& n > 0 && t.at_most(keys[0].t) ==> r == Some(Sample::Hold(keys[0].value))
            &&& n > 0 && !t.at_most(keys[0].t) && (keys[n - 1].t.at_most(t) || t.nan()) ==> r == Some(
                Sample::Hold(keys[n - 1].value),
            )
            &&& 0 <= i && i + 1 < n && keys[i].t.at_most(t) && t.below(keys[i + 1].t)
                && keys[0].t.below(t) ==> match keys[i].interp {
                Interp::Step => r == Some(Sample::Hold(keys[i].value)),
                Interp::Linear => r == Some(Sample::Blend(keys[i], keys[i + 1])),
            }
        }),
{
    let keys = track.keys@;
    let n = keys.len() as int;
    if t.nan() {
        lemma_no_segment(keys, t, 0);
    }
    if 0 <= i && i + 1 < n && keys[i].t.at_most(t) && t.below(keys[i + 1].t) && keys[0].t.below(t) {
        lemma_segment(keys, t, 0, i);
        if i + 1 < n - 1 {
            assert(keys[i + 1].t.below(keys[n - 1].t));
        }
    }
}

/// Every time between the first and the last key lies in a segment.
pub proof fn law_every_time_has_its_segment(keys: Seq<Key>, t: F64) -> (i: int)
    requires
        keys.len() > 0,
        keys[0].t.at_most(t),
        t.below(keys.last().t),
        forall|a: int| 0 <= a < keys.len() ==> !(#[trigger] keys[a]).t.nan(),
    ensures
        0 <= i,
        i + 1 < keys.len(),
        keys[i].t.at_most(t),
        t.below(keys[i + 1].t),
    decreases keys.len(),
{
    let n = keys.len() as int;
    let rest = keys.drop_last();
    if n == 1 {
        0
    } else if keys[n - 2].t.at_most(t) {
        n - 2
    } else {
        assert forall|a: int| 0 <= a < rest.len() implies !(#[trigger] rest[a]).t.nan() by {
            assert(rest[a] == keys[a]);
        }
        law_every_time_has_its_segment(rest, t)
    }
}

impl PropertyTrack {
    pub fn new(target: Guid, path: String) -> (r: PropertyTrack)
        ensures
            r@ == (TrackModel { target, path: path@, keys: Seq::empty() }),
    {
        let r = PropertyTrack { target, path, keys: Vec::new() };
        proof {
            assert(r@.keys =~= Seq::<Key>::empty());
        }
        r
    }

    /// Put the keys in order, one to a time: the one that was authored last.
    pub fn sort_keys(&mut self)
        ensures
            final(self)@ == (TrackModel { keys: settled(old(self).keys@), ..old(self)@ }),
    {
        let mut out: Vec<Key> = Vec::new();
        let mut n: usize = 0;
        let ghost all = self.keys@;
        proof {
            assert(all.take(0) =~= Seq::<Key>::empty());
            assert(out@ =~= settled(all.take(0)));
        }
        while n < self.keys.len()
            invariant
                all == self.keys@,
                n <= self.keys.len(),
                out@ == settled(all.take(n as int)),
            decreases self.keys.len() - n,
        {
            let k = self.keys[n];
            proof {
                assert(all.take(n + 1).drop_last() =~= all.take(n as int));
            }
            let p = place_of(&out, &k.t);
            if p < out.len() && out[p].t.same_number(&k.t) {
                out.set(p, k);
            } else {
                out.insert(p, k);
            }
            n = n + 1;
        }
        proof {
            assert(all.take(n as int) =~= all);
        }
        self.keys = out;
    }

    /// Insert the key at `t`, or replace the one there. The track is handed back
    /// for the next call.
    pub fn set_key(&mut self, t: F64, value: F64, interp: Interp) -> (r: &mut PropertyTrack)
        ensures
            r@ == (TrackModel {
                keys: settled(replaced(old(self).keys@, t, value, interp)),
                ..old(self)@
            }),
            *final(self) == *final(r),
    {
        match find_key(&self.keys, &t) {
            Some(i) => {
                let at = self.keys[i].t;
                self.keys.set(i, Key { t: at, value, interp });
            },
            None => {
                self.keys.push(Key { t, value, interp });
            },
        }
        proof {
            assert(self.keys@ =~= replaced(old(self).keys@, t, value, interp));
        }
        self.sort_keys();
        self
    }

    /// Remove the nearest of the keys within `eps` of a time; `distances` holds
    /// how far from it each key is. Of two keys equally near the first goes.
    pub fn remove_key_near(&mut self, distances: &Vec<F64>, eps: F64) -> (r: bool)
        requires
            distances.len() == old(self).keys.len(),
        ensures
            match nearest(distances@, eps) {
                Some(i) => r && final(self)@ == (TrackModel {
                    keys: old(self).keys@.remove(i),
                    ..old(self)@
                }),
                None => !r && final(self)@ == old(self)@,
            },
    {
        let mut best: Option<usize> = None;
        let mut i: usize = 0;
        while i < distances.len()
            invariant
                i <= distances.len(),
                match best {
                    Some(b) => b < i && nearest(distances@.take(i as int), eps) == Some(b as int),
                    None => nearest(distances@.take(i as int), eps) is None,
                },
            decreases distances.len() - i,
        {
            let d = distances[i];
            proof {
                lemma_nearest_step(distances@, eps, i as int);
            }
            if d.less_or_equal(&eps) {
                match best {
                    Some(b) => {
                        if d.less(&distances[b]) {
                            best = Some(i);
                        }
                    },
                    None => {
                        best = Some(i);
                    },
                }
            }
            i = i + 1;
        }
        proof {
            assert(distances@.take(i as int) =~= distances@);
        }
        match best {
            Some(b) => {
                self.keys.remove(b);
                true
            },
            None => false,
        }
    }

    /// What the track comes to at the time `t`; nothing where it has no key.
    pub fn sample(&self, t: F64) -> (r: Option<Sample>)
        ensures
            r == sampled(self.keys@, t),
    {
        let n = self.keys.len();
        if n == 0 {
            return None;
        }
        let first = self.keys[0];
        let last = self.keys[n - 1];
        if t.less_or_equal(&first.t) {
            return Some(Sample::Hold(first.value));
        }
        if last.t.less_or_equal(&t) {
            return Some(Sample::Hold(last.value));
        }
        let mut i: usize = 0;
        while i + 1 < n
            invariant
                n == self.keys.len(),
                n > 0,
                i < n,
                last == self.keys@.last(),
                !t.at_most(self.keys@[0].t),
                !self.keys@.last().t.at_most(t),
                segment_of(self.keys@, t, 0) == segment_of(self.keys@, t, i as int),
            decreases n - i,
        {
            let k0 = self.keys[i];
            let k1 = self.keys[i + 1];
            if k0.t.less_or_equal(&t) && t.less(&k1.t) {
                return match k0.interp {
                    Interp::Step => Some(Sample::Hold(k0.value)),
                    Interp::Linear => Some(Sample::Blend(k0, k1)),
                };
            }
            i = i + 1;
        }
        Some(Sample::Hold(last.value))
    }
}

/// The place of the nearest of the distances within `eps`; the first of those
/// equally near.
pub open spec fn nearest(d: Seq<F64>, eps: F64) -> Option<int> {
    if exists|i: int| is_nearest(d, eps, i) {
        Some(choose|i: int| is_nearest(d, eps, i))
    } else {
        None
    }
}

/// Whether `i` is within `eps`, no later one within it is nearer, and every
/// earlier one within it is farther.
pub open spec fn is_nearest(d: Seq<F64>, eps: F64, i: int) -> bool {
    &&& 0 <= i < d.len()
    &&& d[i].at_most(eps)
    &&& forall|j: int| 0 <= j < d.len() && (#[trigger] d[j]).at_most(eps) ==> d[i].at_most(d[j])
    &&& forall|j: int| 0 <= j < i && (#[trigger] d[j]).at_most(eps) ==> d[i].below(d[j])
}

proof fn lemma_nearest_unique(d: Seq<F64>, eps: F64, i: int)
    requires
        is_nearest(d, eps, i),
    ensures
        nearest(d, eps) == Some(i),
{
    let k = choose|k: int| is_nearest(d, eps, k);
    if k < i {
        assert(d[i].below(d[k]));
        assert(d[k].at_most(d[i]));
    } else if i < k {
        assert(d[k].below(d[i]));
        assert(d[i].at_most(d[k]));
    }
}

proof fn lemma_nearest_step(d: Seq<F64>, eps: F64, i: int)
    requires
        0 <= i < d.len(),
    ensures
        nearest(d.take(i + 1), eps) == (if d[i].at_most(eps) {
            match nearest(d.take(i), eps) {
                Some(b) => if d[i].below(d[b]) {
                    Some(i)
                } else {
                    Some(b)
                },
                None => Some(i),
            }
        } else {
            nearest(d.take(i), eps)
        }),
{
    let s = d.take(i);
    let u = d.take(i + 1);
    assert forall|j: int| 0 <= j < i implies s[j] == #[trigger] d[j] && u[j] == d[j] by {}
    assert(u[i] == d[i]);
    if exists|b: int| is_nearest(s, eps, b) {
        let b = choose|b: int| is_nearest(s, eps, b);
        lemma_nearest_unique(s, eps, b);
        if d[i].at_most(eps) && d[i].below(d[b]) {
            assert forall|j: int| 0 <= j < u.len() && (#[trigger] u[j]).at_most(eps) implies u[i].at_most(
                u[j],
            ) by {
                if j < i {
                    assert(s[j].at_most(eps));
                    assert(s[b].at_most(s[j]));
                }
            }
            assert forall|j: int| 0 <= j < i && (#[trigger] u[j]).at_most(eps) implies u[i].below(
                u[j],
            ) by {
                assert(s[j].at_most(eps));
                assert(s[b].at_most(s[j]));
            }
            assert(is_nearest(u, eps, i));
            lemma_nearest_unique(u, eps, i);
        } else {
            assert forall|j: int| 0 <= j < u.len() && (#[trigger] u[j]).at_most(eps) implies u[b].at_most(
                u[j],
            ) by {
                if j < i {
                    assert(s[j].at_most(eps));
                }
            }
            assert forall|j: int| 0 <= j < b && (#[trigger] u[j]).at_most(eps) implies u[b].below(
                u[j],
            ) by {
                assert(s[j].at_most(eps));
            }
            assert(is_nearest(u, eps, b));
            lemma_nearest_unique(u, eps, b);
        }
    } else {
        assert forall|j: int| 0 <= j < i implies !(#[trigger] s[j]).at_most(eps) by {
            if s[j].at_most(eps) {
                lemma_nearest_exists(s, eps, j);
            }
        }
        if d[i].at_most(eps) {
            assert forall|j: int| 0 <= j < i implies !(#[trigger] u[j]).at_most(eps) by {
                assert(s[j] == u[j]);
            }
            assert(is_nearest(u, eps, i));
            lemma_nearest_unique(u, eps, i);
        } else {
            assert forall|j: int| !is_nearest(u, eps, j) by {
                if is_nearest(u, eps, j) {
                    if j < i {
                        assert(s[j] == u[j]);
                    }
                }
            }
        }
    }
}

/// Where some distance is within `eps`, one is nearest.
proof fn lemma_nearest_exists(d: Seq<F64>, eps: F64, j: int)
    requires
        0 <= j < d.len(),
        d[j].at_most(eps),
    ensures
        exists|i: int| is_nearest(d, eps, i),
    decreases d.len(),
{
    let u = d.drop_last();
    let n = d.len() - 1;
    if exists|h: int| 0 <= h < u.len() && (#[trigger] u[h]).at_most(eps) {
        let h = choose|h: int| 0 <= h < u.len() && (#[trigger] u[h]).at_most(eps);
        lemma_nearest_exists(u, eps, h);
        let b = choose|b: int| is_nearest(u, eps, b);
        if d[n].at_most(eps) && d[n].below(d[b]) {
            assert forall|k: int| 0 <= k < d.len() && (#[trigger] d[k]).at_most(eps) implies d[n].at_most(
                d[k],
            ) by {
                if k < n {
                    assert(u[k].at_most(eps));
                    assert(u[b].at_most(u[k]));
                }
            }
            assert forall|k: int| 0 <= k < n && (#[trigger] d[k]).at_most(eps) implies d[n].below(
                d[k],
            ) by {
                assert(u[k].at_most(eps));
                assert(u[b].at_most(u[k]));
            }
            assert(is_nearest(d, eps, n));
        } else {
            assert forall|k: int| 0 <= k < d.len() && (#[trigger] d[k]).at_most(eps) implies d[b].at_most(
                d[k],
            ) by {
                if k < n {
                    assert(u[k].at_most(eps));
                }
            }
            assert forall|k: int| 0 <= k < b && (#[trigger] d[k]).at_most(eps) implies d[b].below(
                d[k],
            ) by {
                assert(u[k].at_most(eps));
            }
            assert(is_nearest(d, eps, b));
        }
    } else {
        assert(j == n) by {
            if j < n {
                assert(u[j].at_most(eps));
            }
        }
        assert forall|k: int| 0 <= k < n implies !(#[trigger] d[k]).at_most(eps) by {
            assert(u[k] == d[k]);
        }
        assert(is_nearest(d, eps, n));
    }
}

/// Where a key at `t` belongs among ordered keys.
fn place_of(keys: &Vec<Key>, t: &F64) -> (p: usize)
    ensures
        p == count_before(keys@, *t),
        p <= keys.len(),
{
    let mut p: usize = 0;
    proof {
        assert(keys@.skip(0) =~= keys@);
    }
    while p < keys.len() && keys[p].t.less(t)
        invariant
            p <= keys.len(),
            count_before(keys@, *t) == p + count_before(keys@.skip(p as int), *t),
        decreases keys.len() - p,
    {
        proof {
            assert(keys@.skip(p as int).drop_first() =~= keys@.skip(p + 1));
        }
        p = p + 1;
    }
    p
}

/// The last key at `t`.
fn find_key(keys: &Vec<Key>, t: &F64) -> (r: Option<usize>)
    ensures
        match r {
            Some(i) => i < keys.len() && key_at(keys@, *t) == Some(i as int),
            None => key_at(keys@, *t) is None,
        },
{
    let mut n: usize = keys.len();
    proof {
        assert(keys@.take(n as int) =~= keys@);
    }
    while n > 0
        invariant
            n <= keys.len(),
            key_at(keys@, *t) == key_at(keys@.take(n as int), *t),
        decreases n,
    {
        proof {
            assert(keys@.take(n as int).drop_last() =~= keys@.take(n - 1));
        }
        n = n - 1;
        if keys[n].t.same_number(t) {
            return Some(n);
        }
    }
    None
}

/// Setting a key leaves the others alone: after it the track has a key at `t` with
/// the value and the crossing that were set, and of the keys at other times exactly
/// those that it had, one to a time and in order.
pub proof fn law_set_key_keeps_the_rest(
    keys: Seq<Key>,
    t: F64,
    value: F64,
    interp: Interp,
    x: Key,
)
    requires
        forall|i: int| 0 <= i < keys.len() ==> !(#[trigger] keys[i]).t.nan(),
        !t.nan(),
        !x.t.nan(),
    ensures
        ({
            let after = settled(replaced(keys, t, value, interp));
            let last = |i: int|
                0 <= i < keys.len() && keys[i] == x && forall|j: int|
                    i < j < keys.len() ==> !(#[trigger] keys[j]).t.equals(x.t);
            &&& forall|i: int, j: int|
                #![trigger after[i], after[j]]
                0 <= i < j < after.len() ==> after[i].t.below(after[j].t)
            &&& exists|i: int|
                0 <= i < after.len() && (#[trigger] after[i]).t.equals(t) && after[i].value == value
                    && after[i].interp == interp
            &&& !x.t.equals(t) ==> (after.contains(x) <==> exists|i: int| #[trigger] last(i))
        }),
{
    let changed = replaced(keys, t, value, interp);
    let after = settled(changed);
    lemma_key_place(keys, t);
    let at = match key_at(keys, t) {
        Some(i) => i,
        None => keys.len() as int,
    };
    let set = changed[at];
    assert(set.t.equals(t) && set.value == value && set.interp == interp);
    assert forall|i: int| 0 <= i < changed.len() implies !(#[trigger] changed[i]).t.nan() by {
        if i < keys.len() {
            assert(!keys[i].t.nan());
        }
    }
    law_settled_keys(changed, set, t);
    law_settled_keys(changed, x, t);
    assert(last_of_its_time(changed, at)) by {
        let later = changed.skip(at + 1);
        assert forall|j: int| 0 <= j < later.len() implies !(#[trigger] later[j]).t.equals(set.t) by {
            assert(later[j] == keys[at + 1 + j]);
        }
    }
    assert(after.contains(set));
    let p = choose|p: int| 0 <= p < after.len() && after[p] == set;
    assert(after[p].t.equals(t));
    let last = |i: int|
        0 <= i < keys.len() && keys[i] == x && forall|j: int|
            i < j < keys.len() ==> !(#[trigger] keys[j]).t.equals(x.t);
    if !x.t.equals(t) {
        assert forall|i: int| 0 <= i < keys.len() && i != at implies (#[trigger] changed[i]) == keys[i] by {}
        if exists|i: int| #[trigger] last(i) {
            let i = choose|i: int| #[trigger] last(i);
            assert(keys[i] == x);
            assert(i != at);
            assert(changed[i] == x);
            let later = changed.skip(i + 1);
            assert forall|j: int| 0 <= j < later.len() implies !(#[trigger] later[j]).t.equals(x.t) by {
                assert(later[j] == changed[i + 1 + j]);
                if i + 1 + j < keys.len() && i + 1 + j != at {
                    assert(changed[i + 1 + j] == keys[i + 1 + j]);
                }
            }
            assert(last_of_its_time(changed, i));
        }
        if after.contains(x) {
            let i = choose|i: int|
                0 <= i < changed.len() && changed[i] == x && #[trigger] last_of_its_time(changed, i);
            assert(i != at);
            assert(keys[i] == x);
            let later = changed.skip(i + 1);
            assert forall|j: int| i < j < keys.len() implies !(#[trigger] keys[j]).t.equals(x.t) by {
                assert(later[j - i - 1] == changed[j]);
                assert(!later[j - i - 1].t.equals(x.t));
                if j == at {
                    assert(keys[j].t.equals(t));
                }
            }
            assert(last(i));
        }
    }
}

proof fn lemma_key_place(keys: Seq<Key>, t: F64)
    ensures
        match key_at(keys, t) {
            Some(i) => {
                &&& 0 <= i < keys.len()
                &&& keys[i].t.equals(t)
                &&& forall|j: int| i < j < keys.len() ==> !(#[trigger] keys[j]).t.equals(t)
            },
            None => forall|j: int| 0 <= j < keys.len() ==> !(#[trigger] keys[j]).t.equals(t),
        },
    decreases keys.len(),
{
    if keys.len() > 0 && !keys.last().t.equals(t) {
        let rest = keys.drop_last();
        lemma_key_place(rest, t);
        assert forall|j: int| 0 <= j < rest.len() implies (#[trigger] keys[j]) == rest[j] by {}
    }
}

/// The key that goes is the nearest: it lies within `eps`, none within it is nearer,
/// and of those equally near it is the first. None goes exactly where none lies
/// within `eps`.
pub proof fn law_the_nearest_key_goes(distances: Seq<F64>, eps: F64)
    ensures
        match nearest(distances, eps) {
            Some(i) => {
                &&& 0 <= i < distances.len()
                &&& distances[i].at_most(eps)
                &&& forall|j: int|
                    0 <= j < distances.len() && (#[trigger] distances[j]).at_most(eps)
                        ==> distances[i].at_most(distances[j])
                &&& forall|j: int|
                    0 <= j < i && (#[trigger] distances[j]).at_most(eps) ==> distances[i].below(
                        distances[j],
                    )
            },
            None => forall|j: int|
                0 <= j < distances.len() ==> !(#[trigger] distances[j]).at_most(eps),
        },
{
    if exists|j: int| 0 <= j < distances.len() && (#[trigger] distances[j]).at_most(eps) {
        let j = choose|j: int| 0 <= j < distances.len() && (#[trigger] distances[j]).at_most(eps);
        lemma_nearest_exists(distances, eps, j);
    }
}

} // verus!
