//! Sequences: named timelines of tracks.

use crate::bits::F64;
use crate::guid::{hyphenated, Guid};
use crate::scene::doc;
use crate::scene::doc::SceneDoc;
use crate::scene::entity::EntityModel;
use crate::sequencer::path;
use crate::sequencer::path::split_path;
use crate::sequencer::track;
use crate::sequencer::track::{Interp, Key, PropertyTrack, Sample, TrackModel};
use crate::text;
use crate::text::{concat3, same_text, text_below};
use vstd::prelude::*;

verus! {

/// The bits of 5.0.
pub const F64_FIVE: u64 = 0x4014_0000_0000_0000;

/// A timeline.
#[derive(Debug, PartialEq, Eq)]
pub struct Sequence {
    /// The display name, from which the name of the file is made.
    pub name: String,
    /// The length in seconds.
    pub duration: F64,
    /// The frame rate of the authoring grid.
    pub fps_hint: u32,
    pub tracks: Vec<PropertyTrack>,
}

/// What a sequence holds.
pub struct SequenceModel {
    pub name: Seq<char>,
    pub duration: F64,
    pub fps_hint: u32,
    pub tracks: Seq<TrackModel>,
}

/// What a list of tracks holds.
pub open spec fn models(tracks: Seq<PropertyTrack>) -> Seq<TrackModel> {
    tracks.map_values(|t: PropertyTrack| t@)
}

impl View for Sequence {
    type V = SequenceModel;

    open spec fn view(&self) -> SequenceModel {
        SequenceModel {
            name: self.name@,
            duration: self.duration,
            fps_hint: self.fps_hint,
            tracks: models(self.tracks@),
        }
    }
}

impl Clone for Sequence {
    fn clone(&self) -> (r: Self)
        ensures
            r@ == self@,
    {
        let mut tracks: Vec<PropertyTrack> = Vec::new();
        let mut i: usize = 0;
        while i < self.tracks.len()
            invariant
                i <= self.tracks.len(),
                tracks.len() == i,
                forall|j: int| 0 <= j < i ==> (#[trigger] tracks@[j])@ == self.tracks@[j]@,
            decreases self.tracks.len() - i,
        {
            tracks.push(self.tracks[i].clone());
            i = i + 1;
        }
        let r = Sequence {
            name: self.name.clone(),
            duration: self.duration,
            fps_hint: self.fps_hint,
            tracks,
        };
        proof {
            assert(r@.tracks =~= self@.tracks);
        }
        r
    }
}

/// The frame rate of a sequence that names none.
pub fn default_fps() -> (r: u32)
    ensures
        r == 30,
{
    30
}

/// The first track of the target and path; the number of tracks where there is
/// none.
pub open spec fn track_at(tracks: Seq<TrackModel>, target: Guid, path: Seq<char>) -> nat
    decreases tracks.len(),
{
    if tracks.len() == 0 || (tracks[0].target == target && tracks[0].path == path) {
        0
    } else {
        1 + track_at(tracks.drop_first(), target, path)
    }
}

/// The tracks with one for the target and path.
pub open spec fn with_track(tracks: Seq<TrackModel>, target: Guid, path: Seq<char>) -> Seq<TrackModel> {
    if track_at(tracks, target, path) < tracks.len() {
        tracks
    } else {
        tracks.push(TrackModel { target, path, keys: Seq::empty() })
    }
}

// ---------------------------------------------------------------- order

/// The order of tracks: by target, then by path.
pub open spec fn track_below(a: TrackModel, b: TrackModel) -> bool {
    a.target.value < b.target.value || (a.target == b.target && text::lex_below(a.path, b.path))
}

/// The number of leading tracks that do not come after `t`.
pub open spec fn count_not_after(tracks: Seq<TrackModel>, t: TrackModel) -> nat
    decreases tracks.len(),
{
    if tracks.len() == 0 || track_below(t, tracks[0]) {
        0
    } else {
        1 + count_not_after(tracks.drop_first(), t)
    }
}

/// The tracks in order, those without keys left out, the keys of each settled;
/// tracks of one target and path stay in the order they had.
pub open spec fn arranged(tracks: Seq<TrackModel>) -> Seq<TrackModel>
    decreases tracks.len(),
{
    if tracks.len() == 0 {
        tracks
    } else {
        let rest = arranged(tracks.drop_last());
        let t = tracks.last();
        if t.keys.len() == 0 {
            rest
        } else {
            let u = TrackModel { keys: track::settled(t.keys), ..t };
            rest.insert(count_not_after(rest, u) as int, u)
        }
    }
}

/// Tracks whose keys can be put in order.
pub open spec fn all_orderable(tracks: Seq<TrackModel>) -> bool {
    forall|i: int| 0 <= i < tracks.len() ==> track::orderable((#[trigger] tracks[i]).keys)
}

/// Tracks in order, each with keys in order.
pub open spec fn in_order(tracks: Seq<TrackModel>) -> bool {
    &&& forall|i: int, j: int|
        #![trigger tracks[i], tracks[j]]
        0 <= i < j < tracks.len() ==> !track_below(tracks[j], tracks[i])
    &&& forall|i: int|
        0 <= i < tracks.len() ==> {
            &&& (#[trigger] tracks[i]).keys.len() > 0
            &&& track::orderable(tracks[i].keys)
            &&& track::increasing(tracks[i].keys)
        }
}

proof fn lemma_count_not_after(tracks: Seq<TrackModel>, t: TrackModel)
    requires
        in_order(tracks),
    ensures
        count_not_after(tracks, t) <= tracks.len(),
        forall|i: int|
            0 <= i < count_not_after(tracks, t) ==> !track_below(t, #[trigger] tracks[i]),
        forall|i: int|
            count_not_after(tracks, t) <= i < tracks.len() ==> track_below(t, #[trigger] tracks[i]),
    decreases tracks.len(),
{
    if tracks.len() > 0 {
        if track_below(t, tracks[0]) {
            assert forall|i: int| 0 <= i < tracks.len() implies track_below(t, #[trigger] tracks[i]) by {
                if i > 0 {
                    assert(!track_below(tracks[i], tracks[0]));
                    text::law_strings_are_totally_ordered(t.path, tracks[0].path, tracks[i].path);
                    text::law_strings_are_totally_ordered(tracks[0].path, tracks[i].path, tracks[i].path);
                }
            }
        } else {
            let rest = tracks.drop_first();
            assert forall|i: int, j: int|
                #![trigger rest[i], rest[j]]
                0 <= i < j < rest.len() implies !track_below(rest[j], rest[i]) by {
                assert(rest[i] == tracks[i + 1] && rest[j] == tracks[j + 1]);
            }
            assert forall|i: int| 0 <= i < rest.len() implies {
                &&& (#[trigger] rest[i]).keys.len() > 0
                &&& track::orderable(rest[i].keys)
                &&& track::increasing(rest[i].keys)
            } by {
                assert(rest[i] == tracks[i + 1]);
            }
            lemma_count_not_after(rest, t);
            assert forall|i: int| 0 <= i < count_not_after(tracks, t) implies !track_below(
                t,
                #[trigger] tracks[i],
            ) by {
                if i > 0 {
                    assert(tracks[i] == rest[i - 1]);
                }
            }
            assert forall|i: int| count_not_after(tracks, t) <= i < tracks.len() implies track_below(
                t,
                #[trigger] tracks[i],
            ) by {
                assert(tracks[i] == rest[i - 1]);
            }
        }
    }
}

/// Keys in order are settled already.
proof fn lemma_increasing_is_settled(keys: Seq<Key>)
    requires
        track::orderable(keys),
        track::increasing(keys),
    ensures
        track::settled(keys) == keys,
    decreases keys.len(),
{
    if keys.len() > 0 {
        let rest = keys.drop_last();
        assert forall|i: int, j: int| #![trigger rest[i], rest[j]] 0 <= i < j < rest.len() implies
            rest[i].t.below(rest[j].t) by {
            assert(rest[i] == keys[i] && rest[j] == keys[j]);
        }
        assert forall|i: int| 0 <= i < rest.len() implies !(#[trigger] rest[i]).t.nan() by {
            assert(rest[i] == keys[i]);
        }
        lemma_increasing_is_settled(rest);
        lemma_all_before(rest, keys.last().t);
        assert(rest.insert(rest.len() as int, keys.last()) =~= keys);
    }
}

proof fn lemma_all_before(keys: Seq<Key>, t: F64)
    requires
        forall|i: int| 0 <= i < keys.len() ==> (#[trigger] keys[i]).t.below(t),
    ensures
        track::count_before(keys, t) == keys.len(),
    decreases keys.len(),
{
    if keys.len() > 0 {
        let rest = keys.drop_first();
        assert forall|i: int| 0 <= i < rest.len() implies (#[trigger] rest[i]).t.below(t) by {
            assert(rest[i] == keys[i + 1]);
        }
        lemma_all_before(rest, t);
    }
}

proof fn lemma_none_after(tracks: Seq<TrackModel>, t: TrackModel)
    requires
        forall|i: int| 0 <= i < tracks.len() ==> !track_below(t, #[trigger] tracks[i]),
    ensures
        count_not_after(tracks, t) == tracks.len(),
    decreases tracks.len(),
{
    if tracks.len() > 0 {
        let rest = tracks.drop_first();
        assert forall|i: int| 0 <= i < rest.len() implies !track_below(t, #[trigger] rest[i]) by {
            assert(rest[i] == tracks[i + 1]);
        }
        lemma_none_after(rest, t);
    }
}

/// Settling keys leaves none only where there was none.
proof fn lemma_settled_nonempty(keys: Seq<Key>)
    requires
        keys.len() > 0,
        track::orderable(keys),
    ensures
        track::settled(keys).len() > 0,
{
    let last = keys.len() - 1;
    track::law_settled_keys(keys, keys[last], keys[last].t);
    assert(track::last_of_its_time(keys, last));
    assert(track::settled(keys).contains(keys[last]));
}

proof fn lemma_insert_in_order(tracks: Seq<TrackModel>, t: TrackModel)
    requires
        in_order(tracks),
        t.keys.len() > 0,
        track::orderable(t.keys),
        track::increasing(t.keys),
    ensures
        in_order(tracks.insert(count_not_after(tracks, t) as int, t)),
{
    lemma_count_not_after(tracks, t);
    let p = count_not_after(tracks, t) as int;
    let out = tracks.insert(p, t);
    assert forall|i: int, j: int| #![trigger out[i], out[j]] 0 <= i < j < out.len() implies !track_below(
        out[j],
        out[i],
    ) by {
        if j < p {
            assert(out[i] == tracks[i] && out[j] == tracks[j]);
        } else if j == p {
            assert(out[i] == tracks[i]);
        } else if i == p {
            assert(out[j] == tracks[j - 1]);
            assert(track_below(t, tracks[j - 1]));
            text::law_strings_are_totally_ordered(t.path, tracks[j - 1].path, t.path);
        } else if i < p {
            assert(out[i] == tracks[i] && out[j] == tracks[j - 1]);
        } else {
            assert(out[i] == tracks[i - 1] && out[j] == tracks[j - 1]);
        }
    }
    assert forall|i: int| 0 <= i < out.len() implies {
        &&& (#[trigger] out[i]).keys.len() > 0
        &&& track::orderable(out[i].keys)
        &&& track::increasing(out[i].keys)
    } by {
        if i < p {
            assert(out[i] == tracks[i]);
        } else if i > p {
            assert(out[i] == tracks[i - 1]);
        }
    }
}

/// Arranged tracks are in order, with no empty track and every key list settled.
pub proof fn law_arranged_is_in_order(tracks: Seq<TrackModel>)
    requires
        all_orderable(tracks),
    ensures
        in_order(arranged(tracks)),
    decreases tracks.len(),
{
    if tracks.len() > 0 {
        let rest = tracks.drop_last();
        assert forall|i: int| 0 <= i < rest.len() implies track::orderable((#[trigger] rest[i]).keys) by {
            assert(rest[i] == tracks[i]);
        }
        law_arranged_is_in_order(rest);
        let t = tracks.last();
        if t.keys.len() > 0 {
            let u = TrackModel { keys: track::settled(t.keys), ..t };
            track::law_settled_keys(t.keys, t.keys[0], t.keys[0].t);
            lemma_settled_nonempty(t.keys);
            assert forall|i: int| 0 <= i < u.keys.len() implies !(#[trigger] u.keys[i]).t.nan() by {
                track::law_settled_keys(t.keys, u.keys[i], t.keys[0].t);
                assert(track::settled(t.keys).contains(u.keys[i]));
            }
            lemma_insert_in_order(arranged(rest), u);
        }
    }
}

/// Arranging is settled by one application: a normalized sequence is written
/// the same way again.
pub proof fn law_arranging_is_idempotent(tracks: Seq<TrackModel>)
    requires
        all_orderable(tracks),
    ensures
        arranged(arranged(tracks)) == arranged(tracks),
{
    law_arranged_is_in_order(tracks);
    lemma_in_order_is_arranged(arranged(tracks));
}

proof fn lemma_in_order_is_arranged(tracks: Seq<TrackModel>)
    requires
        in_order(tracks),
    ensures
        arranged(tracks) == tracks,
    decreases tracks.len(),
{
    if tracks.len() > 0 {
        let rest = tracks.drop_last();
        let t = tracks.last();
        assert(in_order(rest)) by {
            assert forall|i: int, j: int| #![trigger rest[i], rest[j]] 0 <= i < j < rest.len() implies
                !track_below(rest[j], rest[i]) by {
                assert(rest[i] == tracks[i] && rest[j] == tracks[j]);
            }
            assert forall|i: int| 0 <= i < rest.len() implies {
                &&& (#[trigger] rest[i]).keys.len() > 0
                &&& track::orderable(rest[i].keys)
                &&& track::increasing(rest[i].keys)
            } by {
                assert(rest[i] == tracks[i]);
            }
        }
        lemma_in_order_is_arranged(rest);
        lemma_increasing_is_settled(t.keys);
        assert(TrackModel { keys: track::settled(t.keys), ..t } == t);
        assert forall|i: int| 0 <= i < rest.len() implies !track_below(t, #[trigger] rest[i]) by {
            assert(rest[i] == tracks[i]);
        }
        lemma_none_after(rest, t);
        assert(rest.insert(rest.len() as int, t) =~= tracks);
    }
}

/// Which tracks an arranged list holds: those with keys, with their keys
/// settled, and no others.
pub proof fn law_arranging_keeps_the_tracks(tracks: Seq<TrackModel>, x: TrackModel)
    requires
        all_orderable(tracks),
    ensures
        arranged(tracks).contains(x) <==> exists|i: int|
            0 <= i < tracks.len() && (#[trigger] tracks[i]).keys.len() > 0 && x == (TrackModel {
                keys: track::settled(tracks[i].keys),
                ..tracks[i]
            }),
    decreases tracks.len(),
{
    if tracks.len() > 0 {
        let rest = tracks.drop_last();
        let n = tracks.len() - 1;
        assert forall|i: int| 0 <= i < rest.len() implies track::orderable((#[trigger] rest[i]).keys) by {
            assert(rest[i] == tracks[i]);
        }
        law_arranging_keeps_the_tracks(rest, x);
        law_arranged_is_in_order(rest);
        let before = arranged(rest);
        let t = tracks.last();
        let out = arranged(tracks);
        if before.contains(x) {
            let i = choose|i: int|
                0 <= i < rest.len() && (#[trigger] rest[i]).keys.len() > 0 && x == (TrackModel {
                    keys: track::settled(rest[i].keys),
                    ..rest[i]
                });
            assert(tracks[i].keys.len() > 0);
        }
        if t.keys.len() > 0 {
            let u = TrackModel { keys: track::settled(t.keys), ..t };
            lemma_count_not_after(before, u);
            let p = count_not_after(before, u) as int;
            assert(out[p] == u);
            if out.contains(x) {
                let j = choose|j: int| 0 <= j < out.len() && out[j] == x;
                if j < p {
                    assert(before[j] == x);
                } else if j > p {
                    assert(before[j - 1] == x);
                } else {
                    assert(tracks[n].keys.len() > 0);
                }
            }
            if before.contains(x) {
                let j = choose|j: int| 0 <= j < before.len() && before[j] == x;
                if j < p {
                    assert(out[j] == x);
                } else {
                    assert(out[j + 1] == x);
                }
            }
        }
        if exists|i: int|
            0 <= i < tracks.len() && (#[trigger] tracks[i]).keys.len() > 0 && x == (TrackModel {
                keys: track::settled(tracks[i].keys),
                ..tracks[i]
            }) {
            let i = choose|i: int|
                0 <= i < tracks.len() && (#[trigger] tracks[i]).keys.len() > 0 && x == (TrackModel {
                    keys: track::settled(tracks[i].keys),
                    ..tracks[i]
                });
            if i < n {
                assert(rest[i].keys.len() > 0);
                assert(before.contains(x));
            }
        }
    }
}

// ---------------------------------------------------------------- problems

/// The problems of the first `n` keys of a track.
pub open spec fn key_issues(path: Seq<char>, keys: Seq<Key>, n: int) -> Seq<Seq<char>>
    decreases n,
{
    if n <= 0 {
        Seq::empty()
    } else {
        let k = keys[n - 1];
        let unbounded = if !k.t.finite() || !k.value.finite() {
            seq!["track '"@ + path + "' has a non-finite key"@]
        } else {
            Seq::empty()
        };
        let unordered = if n > 1 && k.t.at_most(keys[n - 2].t) {
            seq!["track '"@ + path + "' keys are not strictly increasing"@]
        } else {
            Seq::empty()
        };
        key_issues(path, keys, n - 1) + unbounded + unordered
    }
}

/// The problems of a track.
pub open spec fn track_issues(t: TrackModel) -> Seq<Seq<char>> {
    let unparsed = if path::scalar_path(t.path) is None {
        seq!["track '"@ + t.path + "' has an unparseable path"@]
    } else {
        Seq::empty()
    };
    unparsed + key_issues(t.path, t.keys, t.keys.len() as int)
}

/// The problems of the first `n` tracks.
pub open spec fn tracks_issues(tracks: Seq<TrackModel>, n: int) -> Seq<Seq<char>>
    decreases n,
{
    if n <= 0 {
        Seq::empty()
    } else {
        tracks_issues(tracks, n - 1) + track_issues(tracks[n - 1])
    }
}

/// The problems of a sequence, whose duration reads `duration_text`.
pub open spec fn issues_of(s: SequenceModel, duration_text: Seq<char>) -> Seq<Seq<char>> {
    let duration = if !s.duration.finite() || s.duration.at_most(F64 { bits: 0 }) {
        seq!["duration must be finite and > 0 (got "@ + duration_text + ")"@]
    } else {
        Seq::empty()
    };
    let rate = if s.fps_hint == 0 {
        seq!["fps_hint must be >= 1"@]
    } else {
        Seq::empty()
    };
    duration + rate + tracks_issues(s.tracks, s.tracks.len() as int)
}

/// The texts of a list of strings.
pub open spec fn texts(list: Seq<String>) -> Seq<Seq<char>> {
    list.map_values(|s: String| s@)
}

/// The targets of the first `n` tracks that are not in the scene.
pub open spec fn missing_targets(tracks: Seq<TrackModel>, entities: Seq<EntityModel>, n: int) -> Seq<
    Seq<char>,
>
    decreases n,
{
    if n <= 0 {
        Seq::empty()
    } else {
        let t = tracks[n - 1];
        let before = missing_targets(tracks, entities, n - 1);
        if doc::has(entities, t.target) {
            before
        } else {
            before.push("track target "@ + hyphenated(t.target.value) + " is not in the scene"@)
        }
    }
}

proof fn lemma_texts_push(list: Seq<String>, s: String)
    ensures
        texts(list.push(s)) == texts(list) + seq![s@],
{
    assert(texts(list.push(s)) =~= texts(list) + seq![s@]);
}

impl Sequence {
    /// An empty sequence of five seconds at 30 frames a second.
    pub fn new(name: String) -> (r: Sequence)
        ensures
            r@ == (SequenceModel {
                name: name@,
                duration: F64 { bits: 0x4014_0000_0000_0000 },
                fps_hint: 30,
                tracks: Seq::empty(),
            }),
    {
        let r = Sequence {
            name,
            duration: F64 { bits: F64_FIVE },
            fps_hint: default_fps(),
            tracks: Vec::new(),
        };
        proof {
            assert(r@.tracks =~= Seq::<TrackModel>::empty());
        }
        r
    }

    /// The place of the first track of the target and path.
    fn find_track(&self, target: Guid, path: &str) -> (i: usize)
        ensures
            i == track_at(self@.tracks, target, path@),
            i <= self.tracks.len(),
    {
        let mut i: usize = 0;
        let ghost all = self@.tracks;
        proof {
            assert(all.skip(0) =~= all);
        }
        while i < self.tracks.len()
            invariant
                all == self@.tracks,
                i <= self.tracks.len(),
                track_at(all, target, path@) == i + track_at(all.skip(i as int), target, path@),
            decreases self.tracks.len() - i,
        {
            proof {
                assert(all.skip(i as int).drop_first() =~= all.skip(i + 1));
                assert(all.skip(i as int)[0] == self.tracks@[i as int]@);
            }
            if self.tracks[i].target == target && same_text(self.tracks[i].path.as_str(), path) {
                return i;
            }
            i = i + 1;
        }
        i
    }

    /// The track of the target and path, where there is one.
    pub fn track(&self, target: Guid, path: &str) -> (r: Option<&PropertyTrack>)
        ensures
            match r {
                Some(t) => track_at(self@.tracks, target, path@) < self@.tracks.len() && t@
                    == self@.tracks[track_at(self@.tracks, target, path@) as int],
                None => track_at(self@.tracks, target, path@) == self@.tracks.len(),
            },
    {
        let i = self.find_track(target, path);
        if i < self.tracks.len() {
            Some(&self.tracks[i])
        } else {
            None
        }
    }

    /// The track of the target and path, made where there is none.
    pub fn track_mut(&mut self, target: Guid, path: &str) -> (r: &mut PropertyTrack)
        ensures
            with_track(old(self)@.tracks, target, path@)[track_at(
                old(self)@.tracks,
                target,
                path@,
            ) as int] == r@,
            final(self)@ == (SequenceModel {
                tracks: with_track(old(self)@.tracks, target, path@).update(
                    track_at(old(self)@.tracks, target, path@) as int,
                    final(r)@,
                ),
                ..old(self)@
            }),
    {
        let i = self.find_track(target, path);
        let ghost before = self@.tracks;
        if i == self.tracks.len() {
            self.tracks.push(PropertyTrack::new(target, path.to_owned()));
        }
        let ghost grown = self.tracks@;
        proof {
            assert(models(grown) =~= with_track(before, target, path@));
            assert forall|x: PropertyTrack| #[trigger] models(grown.update(i as int, x)) =~= models(
                grown,
            ).update(i as int, x@) by {}
        }
        &mut self.tracks[i]
    }

    /// Set the key at `t` on the track of the target and path, made where there
    /// is none.
    pub fn set_key(&mut self, target: Guid, path: &str, t: F64, value: F64, interp: Interp)
        ensures
            final(self)@ == ({
                let tracks = with_track(old(self)@.tracks, target, path@);
                let i = track_at(old(self)@.tracks, target, path@) as int;
                SequenceModel {
                    tracks: tracks.update(
                        i,
                        TrackModel {
                            keys: track::settled(track::replaced(tracks[i].keys, t, value, interp)),
                            ..tracks[i]
                        },
                    ),
                    ..old(self)@
                }
            }),
    {
        proof {
            lemma_track_at(self@.tracks, target, path@);
        }
        let tr = self.track_mut(target, path);
        tr.set_key(t, value, interp);
    }

    /// Bring the sequence into the form it is stored in: tracks in order, the
    /// keys of each settled, no track without keys.
    pub fn normalize(&mut self)
        ensures
            final(self)@ == (SequenceModel {
                tracks: arranged(old(self)@.tracks),
                ..old(self)@
            }),
    {
        let ghost all = self@.tracks;
        let mut tracks: Vec<PropertyTrack> = Vec::new();
        std::mem::swap(&mut tracks, &mut self.tracks);
        let ghost source = tracks@;
        let mut out: Vec<PropertyTrack> = Vec::new();
        proof {
            assert(models(source) == all);
            assert(models(out@) =~= arranged(all.take(0)));
        }
        for tr in it: tracks
            invariant
                it.seq() == source,
                models(source) == all,
                models(out@) == arranged(all.take(it.index() as int)),
        {
            let ghost n = it.index() as int;
            let mut tr = tr;
            proof {
                assert(all.take(n + 1).drop_last() =~= all.take(n));
                assert(all.take(n + 1).last() == all[n]);
                assert(all[n] == source[n]@);
            }
            if tr.keys.len() > 0 {
                tr.sort_keys();
                let p = place_of(&out, &tr);
                proof {
                    assert(models(out@.insert(p as int, tr)) =~= models(out@).insert(p as int, tr@));
                }
                out.insert(p, tr);
            }
        }
        proof {
            assert(all.take(all.len() as int) =~= all);
        }
        self.tracks = out;
    }

    /// The structural problems of the sequence, and after them the targets that
    /// are not in the document.
    pub fn validate_against(&self, duration_text: &str, doc: &SceneDoc) -> (r: Vec<String>)
        ensures
            texts(r@) == issues_of(self@, duration_text@) + missing_targets(
                self@.tracks,
                doc@.entities,
                self@.tracks.len() as int,
            ),
    {
        let mut issues = self.validate(duration_text);
        let ghost head = texts(issues@);
        let mut n: usize = 0;
        proof {
            assert(head + missing_targets(self@.tracks, doc@.entities, 0) =~= head);
        }
        while n < self.tracks.len()
            invariant
                n <= self.tracks.len(),
                texts(issues@) == head + missing_targets(self@.tracks, doc@.entities, n as int),
            decreases self.tracks.len() - n,
        {
            let target = self.tracks[n].target;
            assert(self@.tracks[n as int].target == target);
            if !doc.contains(target) {
                let text = target.text();
                let s = concat3("track target ", text.as_str(), " is not in the scene");
                proof {
                    lemma_texts_push(issues@, s);
                    assert(head + missing_targets(self@.tracks, doc@.entities, n + 1) =~= texts(
                        issues@,
                    ) + seq![s@]);
                }
                issues.push(s);
            }
            n = n + 1;
        }
        issues
    }

    /// The structural problems of the sequence, none where it is valid.
    /// `duration_text` is the duration as the messages show it.
    pub fn validate(&self, duration_text: &str) -> (r: Vec<String>)
        ensures
            texts(r@) == issues_of(self@, duration_text@),
    {
        let mut issues: Vec<String> = Vec::new();
        let zero: F64 = F64 { bits: 0 };
        proof {
            assert(texts(issues@) =~= Seq::<Seq<char>>::empty());
        }
        if !self.duration.is_finite() || self.duration.less_or_equal(&zero) {
            let s = concat3("duration must be finite and > 0 (got ", duration_text, ")");
            proof {
                lemma_texts_push(issues@, s);
            }
            issues.push(s);
        }
        if self.fps_hint == 0 {
            let s = "fps_hint must be >= 1".to_owned();
            proof {
                lemma_texts_push(issues@, s);
            }
            issues.push(s);
        }
        let ghost head = texts(issues@);
        let mut n: usize = 0;
        proof {
            assert(head + tracks_issues(self@.tracks, 0) =~= head);
        }
        while n < self.tracks.len()
            invariant
                n <= self.tracks.len(),
                texts(issues@) == head + tracks_issues(self@.tracks, n as int),
            decreases self.tracks.len() - n,
        {
            let ghost t = self@.tracks[n as int];
            let ghost before = texts(issues@);
            let tr = &self.tracks[n];
            proof {
                assert(t == tr@);
                assert(before + Seq::<Seq<char>>::empty() =~= before);
            }
            if split_path(tr.path.as_str()).is_none() {
                let s = concat3("track '", tr.path.as_str(), "' has an unparseable path");
                proof {
                    lemma_texts_push(issues@, s);
                }
                issues.push(s);
            }
            let ghost unparsed = if path::scalar_path(t.path) is None {
                seq!["track '"@ + t.path + "' has an unparseable path"@]
            } else {
                Seq::empty()
            };
            proof {
                assert(texts(issues@) =~= before + unparsed);
                assert(before + unparsed + key_issues(t.path, t.keys, 0) =~= before + unparsed);
            }
            let mut i: usize = 0;
            while i < tr.keys.len()
                invariant
                    i <= tr.keys.len(),
                    t == tr@,
                    texts(issues@) == before + unparsed + key_issues(t.path, t.keys, i as int),
                decreases tr.keys.len() - i,
            {
                let k = tr.keys[i];
                let ghost base = before + unparsed;
                let ghost so_far = key_issues(t.path, t.keys, i as int);
                if !k.t.is_finite() || !k.value.is_finite() {
                    let s = concat3("track '", tr.path.as_str(), "' has a non-finite key");
                    proof {
                        lemma_texts_push(issues@, s);
                    }
                    issues.push(s);
                }
                if i > 0 && k.t.less_or_equal(&tr.keys[i - 1].t) {
                    let s = concat3("track '", tr.path.as_str(), "' keys are not strictly increasing");
                    proof {
                        lemma_texts_push(issues@, s);
                    }
                    issues.push(s);
                }
                proof {
                    assert(texts(issues@) =~= base + key_issues(t.path, t.keys, i + 1));
                }
                i = i + 1;
            }
            proof {
                assert(texts(issues@) =~= head + tracks_issues(self@.tracks, n + 1));
            }
            n = n + 1;
        }
        issues
    }
}

proof fn lemma_track_at(tracks: Seq<TrackModel>, target: Guid, path: Seq<char>)
    ensures
        track_at(tracks, target, path) <= tracks.len(),
    decreases tracks.len(),
{
    if tracks.len() > 0 {
        lemma_track_at(tracks.drop_first(), target, path);
    }
}

/// Where a track belongs among tracks in order.
fn place_of(tracks: &Vec<PropertyTrack>, t: &PropertyTrack) -> (p: usize)
    ensures
        p == count_not_after(models(tracks@), t@),
        p <= tracks.len(),
{
    let mut p: usize = 0;
    let ghost all = models(tracks@);
    proof {
        assert(all.skip(0) =~= all);
    }
    while p < tracks.len()
        invariant
            all == models(tracks@),
            p <= tracks.len(),
            count_not_after(all, t@) == p + count_not_after(all.skip(p as int), t@),
        decreases tracks.len() - p,
    {
        let x = &tracks[p];
        proof {
            assert(all.skip(p as int).drop_first() =~= all.skip(p + 1));
            assert(all.skip(p as int)[0] == x@);
        }
        if t.target.value < x.target.value || (t.target == x.target && text_below(
            t.path.as_str(),
            x.path.as_str(),
        )) {
            return p;
        }
        p = p + 1;
    }
    p
}

// ---------------------------------------------------------------- sampling

/// One sampled track.
#[derive(Debug, PartialEq, Eq)]
pub struct TrackSample {
    pub target: Guid,
    pub path: String,
    pub sample: Sample,
}

/// What a sampled track says.
pub struct TrackSampleModel {
    pub target: Guid,
    pub path: Seq<char>,
    pub sample: Sample,
}

impl View for TrackSample {
    type V = TrackSampleModel;

    open spec fn view(&self) -> TrackSampleModel {
        TrackSampleModel { target: self.target, path: self.path@, sample: self.sample }
    }
}

/// What the first `n` tracks come to at the time `t`, those with keys.
pub open spec fn samples_of(tracks: Seq<TrackModel>, t: F64, n: int) -> Seq<TrackSampleModel>
    decreases n,
{
    if n <= 0 {
        Seq::empty()
    } else {
        let tr = tracks[n - 1];
        match track::sampled(tr.keys, t) {
            Some(sample) => samples_of(tracks, t, n - 1).push(
                TrackSampleModel { target: tr.target, path: tr.path, sample },
            ),
            None => samples_of(tracks, t, n - 1),
        }
    }
}

/// Sample every track at the time `t`.
pub fn sample(seq: &Sequence, t: F64) -> (r: Vec<TrackSample>)
    ensures
        r@.map_values(|s: TrackSample| s@) == samples_of(
            seq@.tracks,
            t,
            seq@.tracks.len() as int,
        ),
{
    let mut out: Vec<TrackSample> = Vec::new();
    let mut n: usize = 0;
    proof {
        assert(out@.map_values(|s: TrackSample| s@) =~= Seq::<TrackSampleModel>::empty());
    }
    while n < seq.tracks.len()
        invariant
            n <= seq.tracks.len(),
            out@.map_values(|s: TrackSample| s@) == samples_of(seq@.tracks, t, n as int),
        decreases seq.tracks.len() - n,
    {
        let tr = &seq.tracks[n];
        proof {
            assert(seq@.tracks[n as int] == tr@);
        }
        match tr.sample(t) {
            Some(sample) => {
                let s = TrackSample { target: tr.target, path: tr.path.clone(), sample };
                proof {
                    assert(out@.push(s).map_values(|s: TrackSample| s@) =~= out@.map_values(
                        |s: TrackSample| s@,
                    ).push(s@));
                }
                out.push(s);
            },
            None => {},
        }
        n = n + 1;
    }
    out
}

/// The key that was set is the one the track comes to at its time: its value
/// holds there, or a blend starts from it.
pub proof fn law_set_key_is_sampled(keys: Seq<Key>, t: F64, value: F64, interp: Interp)
    requires
        track::orderable(keys),
        !t.nan(),
    ensures
        ({
            let after = track::settled(track::replaced(keys, t, value, interp));
            match track::sampled(after, t) {
                Some(Sample::Hold(v)) => v == value,
                Some(Sample::Blend(k, _)) => k.t.equals(t) && k.value == value && interp == Interp::Linear,
                None => false,
            }
        }),
{
    let changed = track::replaced(keys, t, value, interp);
    let after = track::settled(changed);
    lemma_key_at(keys, t);
    let i = match track::key_at(keys, t) {
        Some(i) => i,
        None => keys.len() as int,
    };
    assert(track::orderable(changed)) by {
        assert forall|j: int| 0 <= j < changed.len() implies !(#[trigger] changed[j]).t.nan() by {
            if j < keys.len() {
                assert(!keys[j].t.nan());
            }
        }
    }
    let set = changed[i];
    assert(set.t.equals(t) && set.value == value && set.interp == interp);
    track::law_settled_keys(changed, set, t);
    assert(track::last_of_its_time(changed, i)) by {
        let later = changed.skip(i + 1);
        assert forall|j: int| 0 <= j < later.len() implies !(#[trigger] later[j]).t.equals(set.t) by {
            assert(later[j] == keys[i + 1 + j]);
            assert(!keys[i + 1 + j].t.equals(t));
        }
    }
    assert(after.contains(set));
    let p = choose|p: int| 0 <= p < after.len() && after[p] == set;
    if p > 0 && p < after.len() - 1 {
        assert(after[0].t.below(after[p].t));
        assert(after[p].t.below(after[after.len() - 1].t));
        assert(after[p].t.below(after[p + 1].t));
        lemma_segment(after, t, p, 0);
    } else if p > 0 {
        assert(after[0].t.below(after[p].t));
    }
}

proof fn lemma_key_at(keys: Seq<Key>, t: F64)
    ensures
        match track::key_at(keys, t) {
            Some(i) => {
                &&& 0 <= i < keys.len()
                &&& keys[i].t.equals(t)
                &&& forall|j: int| i < j < keys.len() ==> !(#[trigger] keys[j]).t.equals(t)
            },
            None => forall|j: int| 0 <= j < keys.len() ==> !(#[trigger] keys[j]).t.equals(t),
        },
    decreases keys.len(),
{
    if keys.len() > 0 && !keys.last().t.equals(t) {
        let rest = keys.drop_last();
        lemma_key_at(rest, t);
        assert forall|j: int| 0 <= j < rest.len() implies (#[trigger] keys[j]) == rest[j] by {}
    }
}

/// Among ordered keys the segment of a key's own time starts at that key.
proof fn lemma_segment(keys: Seq<Key>, t: F64, p: int, from: int)
    requires
        track::increasing(keys),
        0 <= from <= p < keys.len() - 1,
        keys[p].t.equals(t),
    ensures
        track::segment_of(keys, t, from) == p,
    decreases p - from,
{
    assert(keys[p].t.below(keys[p + 1].t));
    if from < p {
        assert(keys[from].t.below(keys[p].t));
        if from + 1 < p {
            assert(keys[from + 1].t.below(keys[p].t));
        }
        lemma_segment(keys, t, p, from + 1);
    }
}

// ---------------------------------------------------------------- names

/// Names in order, each once.
pub open spec fn names_in_order(names: Seq<Seq<char>>) -> bool {
    forall|i: int, j: int|
        #![trigger names[i], names[j]]
        0 <= i < j < names.len() ==> text::lex_below(names[i], names[j])
}

/// The names of the stored sequences as they are listed: in order, each once.
pub fn listed_names(names: Vec<String>) -> (r: Vec<String>)
    ensures
        names_in_order(texts(r@)),
        forall|x: Seq<char>| texts(r@).contains(x) <==> texts(names@).contains(x),
{
    let mut out: Vec<String> = Vec::new();
    let mut n: usize = 0;
    while n < names.len()
        invariant
            n <= names.len(),
            names_in_order(texts(out@)),
            forall|x: Seq<char>|
                texts(out@).contains(x) <==> texts(names@).take(n as int).contains(x),
        decreases names.len() - n,
    {
        let name = names[n].clone();
        let ghost before = texts(out@);
        let ghost seen = texts(names@).take(n as int);
        let ghost seen1 = texts(names@).take(n + 1);
        let mut p: usize = 0;
        while p < out.len() && text_below(out[p].as_str(), name.as_str())
            invariant
                p <= out.len(),
                before == texts(out@),
                forall|i: int| 0 <= i < p ==> text::lex_below(#[trigger] before[i], name@),
            decreases out.len() - p,
        {
            p = p + 1;
        }
        proof {
            assert(seen1 =~= seen.push(name@));
            assert forall|x: Seq<char>| seen1.contains(x) <==> seen.contains(x) || x == name@ by {
                if seen.contains(x) {
                    let i = choose|i: int| 0 <= i < seen.len() && seen[i] == x;
                    assert(seen1[i] == x);
                }
                assert(seen1[n as int] == name@);
            }
        }
        if p < out.len() && same_text(out[p].as_str(), name.as_str()) {
            proof {
                assert(before[p as int] == name@);
            }
        } else {
            proof {
                let after = before.insert(p as int, name@);
                assert(texts(out@.insert(p as int, name)) =~= after);
                assert forall|i: int, j: int|
                    #![trigger after[i], after[j]]
                    0 <= i < j < after.len() implies text::lex_below(after[i], after[j]) by {
                    if j < p {
                        assert(after[i] == before[i] && after[j] == before[j]);
                    } else if j == p {
                        assert(after[i] == before[i]);
                    } else {
                        assert(after[j] == before[j - 1]);
                        text::law_strings_are_totally_ordered(
                            name@,
                            before[p as int],
                            before[j - 1],
                        );
                        if j - 1 > p {
                            assert(text::lex_below(before[p as int], before[j - 1]));
                        }
                        if i < p {
                            assert(after[i] == before[i]);
                        } else if i > p {
                            assert(after[i] == before[i - 1]);
                        }
                    }
                }
                assert forall|x: Seq<char>| after.contains(x) <==> before.contains(x) || x == name@ by {
                    if before.contains(x) {
                        let i = choose|i: int| 0 <= i < before.len() && before[i] == x;
                        if i < p {
                            assert(after[i] == x);
                        } else {
                            assert(after[i + 1] == x);
                        }
                    }
                    if after.contains(x) {
                        let i = choose|i: int| 0 <= i < after.len() && after[i] == x;
                        if i < p {
                            assert(before[i] == x);
                        } else if i > p {
                            assert(before[i - 1] == x);
                        }
                    }
                    assert(after[p as int] == name@);
                }
            }
            out.insert(p, name);
        }
        n = n + 1;
    }
    proof {
        assert(texts(names@).take(n as int) =~= texts(names@));
    }
    out
}

/// Sampling a sequence lists what every track with a key comes to, and no other
/// track, in the order of the tracks; `places` are where they stand.
pub proof fn law_samples_list_every_track(seq: Sequence, t: F64, n: int) -> (places: Seq<int>)
    requires
        0 <= n <= seq.tracks@.len(),
    ensures
        ({
            let r = samples_of(seq@.tracks, t, n);
            let tracks = seq.tracks@;
            &&& r.len() == places.len()
            &&& forall|k: int|
                0 <= k < places.len() ==> {
                    &&& 0 <= (#[trigger] places[k]) < n
                    &&& r[k].target == tracks[places[k]].target
                    &&& r[k].path == tracks[places[k]].path@
                    &&& track::sampled(tracks[places[k]].keys@, t) == Some(r[k].sample)
                }
            &&& forall|j: int, k: int|
                #![trigger places[j], places[k]]
                0 <= j < k < places.len() ==> places[j] < places[k]
            &&& forall|i: int|
                0 <= i < n ==> (places.contains(i) <==> (#[trigger] tracks[i]).keys@.len() > 0)
        }),
    decreases n,
{
    if n <= 0 {
        Seq::empty()
    } else {
        let before = law_samples_list_every_track(seq, t, n - 1);
        let tr = seq.tracks@[n - 1];
        assert(seq@.tracks[n - 1] == tr@);
        if tr.keys@.len() > 0 {
            let places = before.push(n - 1);
            assert forall|i: int| 0 <= i < n implies (places.contains(i) <==> (
            #[trigger] seq.tracks@[i]).keys@.len() > 0) by {
                if i < n - 1 {
                    if before.contains(i) {
                        let k = choose|k: int| 0 <= k < before.len() && before[k] == i;
                        assert(places[k] == i);
                    }
                    if places.contains(i) {
                        let k = choose|k: int| 0 <= k < places.len() && places[k] == i;
                        assert(before[k] == i);
                    }
                } else {
                    assert(places[before.len() as int] == i);
                }
            }
            places
        } else {
            assert(track::sampled(tr.keys@, t) is None);
            before
        }
    }
}

/// The first track of a target and a path.
proof fn lemma_first_track(tracks: Seq<TrackModel>, target: Guid, path: Seq<char>)
    ensures
        ({
            let i = track_at(tracks, target, path) as int;
            &&& i <= tracks.len()
            &&& i < tracks.len() ==> tracks[i].target == target && tracks[i].path == path
            &&& forall|j: int|
                0 <= j < i ==> !((#[trigger] tracks[j]).target == target && tracks[j].path == path)
        }),
    decreases tracks.len(),
{
    if tracks.len() > 0 {
        let rest = tracks.drop_first();
        lemma_first_track(rest, target, path);
        let i = track_at(tracks, target, path) as int;
        if i > 0 {
            assert forall|j: int| 0 <= j < i implies !((#[trigger] tracks[j]).target == target
                && tracks[j].path == path) by {
                if j > 0 {
                    assert(rest[j - 1] == tracks[j]);
                }
            }
            if i < tracks.len() {
                assert(rest[i - 1] == tracks[i]);
            }
        }
    }
}

/// A key is set on one track, the first of its target and path, or a new one at
/// the end where there is none. Every other track stays as it was, and so does
/// everything else of the sequence.
pub proof fn law_set_key_addresses_one_track(
    before: Sequence,
    after: Sequence,
    target: Guid,
    path: Seq<char>,
    t: F64,
    value: F64,
    interp: Interp,
) -> (at: int)
    requires
        after@ == ({
            let tracks = with_track(before@.tracks, target, path);
            let i = track_at(before@.tracks, target, path) as int;
            SequenceModel {
                tracks: tracks.update(
                    i,
                    TrackModel {
                        keys: track::settled(track::replaced(tracks[i].keys, t, value, interp)),
                        ..tracks[i]
                    },
                ),
                ..before@
            }
        }),
    ensures
        ({
            let was = before.tracks@;
            let now = after.tracks@;
            let there = 0 <= at < was.len();
            &&& there || at == was.len()
            &&& there ==> was[at].target == target && was[at].path@ == path && now.len() == was.len()
            &&& !there ==> now.len() == was.len() + 1
            &&& forall|j: int|
                0 <= j < at ==> !((#[trigger] was[j]).target == target && was[j].path@ == path)
            &&& forall|j: int|
                0 <= j < was.len() && j != at ==> (#[trigger] now[j])@ == was[j]@
            &&& now[at].target == target && now[at].path@ == path
            &&& now[at].keys@ == track::settled(
                track::replaced(
                    if there {
                        was[at].keys@
                    } else {
                        Seq::empty()
                    },
                    t,
                    value,
                    interp,
                ),
            )
            &&& after.name@ == before.name@ && after.duration == before.duration && after.fps_hint
                == before.fps_hint
        }),
{
    let all = before@.tracks;
    let got = after@.tracks;
    lemma_first_track(all, target, path);
    let at = track_at(all, target, path) as int;
    assert(all.len() == before.tracks@.len() && got.len() == after.tracks@.len());
    assert forall|j: int| 0 <= j < all.len() implies #[trigger] before.tracks@[j]@ == all[j] by {
        assert(all[j] == before.tracks@[j]@);
    }
    assert forall|j: int| 0 <= j < got.len() implies #[trigger] after.tracks@[j]@ == got[j] by {
        assert(got[j] == after.tracks@[j]@);
    }
    if at < all.len() {
        assert(before.tracks@[at]@ == all[at]);
    }
    assert(after.tracks@[at]@ == got[at]);
    assert forall|j: int| 0 <= j < at implies !((#[trigger] before.tracks@[j]).target == target
        && before.tracks@[j].path@ == path) by {
        assert(before.tracks@[j]@ == all[j]);
    }
    at
}

/// Whether the first `n` keys are finite and strictly increasing in time.
pub open spec fn sound_keys(keys: Seq<Key>, n: int) -> bool {
    &&& forall|i: int| 0 <= i < n ==> (#[trigger] keys[i]).t.finite() && keys[i].value.finite()
    &&& forall|i: int, j: int|
        #![trigger keys[i], keys[j]]
        0 <= i < j < n ==> keys[i].t.below(keys[j].t)
}

proof fn lemma_key_issues(path: Seq<char>, keys: Seq<Key>, n: int)
    requires
        0 <= n <= keys.len(),
    ensures
        key_issues(path, keys, n).len() == 0 <==> sound_keys(keys, n),
    decreases n,
{
    if n > 0 {
        lemma_key_issues(path, keys, n - 1);
        let k = keys[n - 1];
        if sound_keys(keys, n) {
            assert(sound_keys(keys, n - 1));
            assert(k.t.finite() && k.value.finite());
            if n > 1 {
                assert(keys[n - 2].t.below(keys[n - 1].t));
            }
        }
        if key_issues(path, keys, n).len() == 0 {
            assert(key_issues(path, keys, n - 1).len() == 0);
            assert forall|i: int, j: int|
                #![trigger keys[i], keys[j]]
                0 <= i < j < n implies keys[i].t.below(keys[j].t) by {
                if j == n - 1 {
                    assert(keys[n - 2].t.finite());
                    if i < n - 2 {
                        assert(keys[i].t.below(keys[n - 2].t));
                    }
                }
            }
        }
    }
}

proof fn lemma_tracks_issues(tracks: Seq<TrackModel>, n: int)
    requires
        0 <= n <= tracks.len(),
    ensures
        tracks_issues(tracks, n).len() == 0 <==> forall|i: int|
            0 <= i < n ==> track_issues(#[trigger] tracks[i]).len() == 0,
    decreases n,
{
    if n > 0 {
        lemma_tracks_issues(tracks, n - 1);
    }
}

/// A sequence has no problem exactly where its length is a positive finite number,
/// its frame rate is not zero, the path of every track is a scalar path, and the
/// keys of every track are finite and strictly increasing in time.
pub proof fn law_a_sound_sequence_has_no_problem(seq: Sequence, duration_text: Seq<char>)
    ensures
        issues_of(seq@, duration_text).len() == 0 <==> {
            &&& seq.duration.finite() && (F64 { bits: 0 }).below(seq.duration)
            &&& seq.fps_hint > 0
            &&& forall|n: int|
                0 <= n < seq.tracks@.len() ==> path::scalar_path((#[trigger] seq.tracks@[n]).path@)
                    is Some && sound_keys(seq.tracks@[n].keys@, seq.tracks@[n].keys@.len() as int)
        },
{
    let all = seq@.tracks;
    lemma_tracks_issues(all, all.len() as int);
    assert forall|n: int| 0 <= n < all.len() implies (track_issues(#[trigger] all[n]).len() == 0) == (
    path::scalar_path(seq.tracks@[n].path@) is Some && sound_keys(
        seq.tracks@[n].keys@,
        seq.tracks@[n].keys@.len() as int,
    )) by {
        assert(all[n] == seq.tracks@[n]@);
        lemma_key_issues(all[n].path, all[n].keys, all[n].keys.len() as int);
    }
    if issues_of(seq@, duration_text).len() == 0 {
        assert forall|n: int| 0 <= n < seq.tracks@.len() implies path::scalar_path(
            (#[trigger] seq.tracks@[n]).path@,
        ) is Some && sound_keys(seq.tracks@[n].keys@, seq.tracks@[n].keys@.len() as int) by {
            assert(track_issues(all[n]).len() == 0);
        }
    }
    if forall|n: int|
        0 <= n < seq.tracks@.len() ==> path::scalar_path((#[trigger] seq.tracks@[n]).path@) is Some
            && sound_keys(seq.tracks@[n].keys@, seq.tracks@[n].keys@.len() as int) {
        assert forall|n: int| 0 <= n < all.len() implies track_issues(#[trigger] all[n]).len() == 0 by {
            assert(path::scalar_path(seq.tracks@[n].path@) is Some);
        }
    }
}

/// How a normalized sequence is laid out: no track is without keys, the keys of
/// each go up in time, and the tracks go up by the number of their target; among
/// those of one target, one whose path comes after another's in the order of
/// strings stands after it.
pub proof fn law_a_normalized_sequence_is_laid_out(tracks: Seq<TrackModel>)
    requires
        forall|n: int, k: int|
            #![trigger tracks[n].keys[k]]
            0 <= n < tracks.len() && 0 <= k < tracks[n].keys.len() ==> !tracks[n].keys[k].t.nan(),
    ensures
        ({
            let out = arranged(tracks);
            &&& forall|n: int| 0 <= n < out.len() ==> (#[trigger] out[n]).keys.len() > 0
            &&& forall|n: int, j: int, k: int|
                #![trigger out[n].keys[j], out[n].keys[k]]
                0 <= n < out.len() && 0 <= j < k < out[n].keys.len() ==> out[n].keys[j].t.below(
                    out[n].keys[k].t,
                )
            &&& forall|m: int, n: int|
                #![trigger out[m], out[n]]
                0 <= m < n < out.len() ==> {
                    &&& out[m].target.value <= out[n].target.value
                    &&& out[m].target.value == out[n].target.value ==> out[m].path == out[n].path
                        || text::lex_below(out[m].path, out[n].path)
                }
        }),
{
    let out = arranged(tracks);
    assert(all_orderable(tracks)) by {
        assert forall|n: int| 0 <= n < tracks.len() implies track::orderable((#[trigger] tracks[n]).keys) by {
            assert forall|k: int| 0 <= k < tracks[n].keys.len() implies !(#[trigger] tracks[n].keys[k]).t.nan() by {}
        }
    }
    law_arranged_is_in_order(tracks);
    assert forall|n: int, j: int, k: int|
        #![trigger out[n].keys[j], out[n].keys[k]]
        0 <= n < out.len() && 0 <= j < k < out[n].keys.len() implies out[n].keys[j].t.below(
        out[n].keys[k].t,
    ) by {
        assert(track::increasing(out[n].keys));
    }
    assert forall|m: int, n: int|
        #![trigger out[m], out[n]]
        0 <= m < n < out.len() implies {
        &&& out[m].target.value <= out[n].target.value
        &&& out[m].target.value == out[n].target.value ==> out[m].path == out[n].path
            || text::lex_below(out[m].path, out[n].path)
    } by {
        assert(!track_below(out[n], out[m]));
        text::law_strings_are_totally_ordered(out[m].path, out[n].path, out[m].path);
    }
}

/// The tracks whose targets are missing: every track of an entity that is not in the
/// scene is told of, and no other, in the order of the tracks; `places` are where
/// they stand.
pub proof fn law_every_missing_target_is_told(tracks: Seq<TrackModel>, entities: Seq<EntityModel>, n: int) -> (places:
    Seq<int>)
    requires
        0 <= n <= tracks.len(),
    ensures
        ({
            let told = missing_targets(tracks, entities, n);
            let missing = |i: int|
                forall|j: int|
                    0 <= j < entities.len() ==> (#[trigger] entities[j]).guid != tracks[i].target;
            &&& told.len() == places.len()
            &&& forall|k: int|
                0 <= k < places.len() ==> 0 <= (#[trigger] places[k]) < n && missing(places[k])
                    && told[k] == "track target "@ + hyphenated(tracks[places[k]].target.value)
                    + " is not in the scene"@
            &&& forall|j: int, k: int|
                #![trigger places[j], places[k]]
                0 <= j < k < places.len() ==> places[j] < places[k]
            &&& forall|i: int| 0 <= i < n && #[trigger] missing(i) ==> places.contains(i)
        }),
    decreases n,
{
    let missing = |i: int|
        forall|j: int| 0 <= j < entities.len() ==> (#[trigger] entities[j]).guid != tracks[i].target;
    if n <= 0 {
        Seq::empty()
    } else {
        let before = law_every_missing_target_is_told(tracks, entities, n - 1);
        let target = tracks[n - 1].target;
        doc::lemma_find(entities, target);
        if doc::has(entities, target) {
            assert(entities[doc::find(entities, target) as int].guid == target);
            assert(!missing(n - 1));
            before
        } else {
            assert(missing(n - 1)) by {
                assert forall|j: int| 0 <= j < entities.len() implies (#[trigger] entities[j]).guid
                    != target by {}
            }
            let places = before.push(n - 1);
            assert forall|i: int| 0 <= i < n && #[trigger] missing(i) implies places.contains(i) by {
                if i < n - 1 {
                    let k = choose|k: int| 0 <= k < before.len() && before[k] == i;
                    assert(places[k] == i);
                } else {
                    assert(places[before.len() as int] == i);
                }
            }
            places
        }
    }
}

proof fn lemma_key_issue_told(path: Seq<char>, keys: Seq<Key>, n: int, k: int)
    requires
        0 <= k < n <= keys.len(),
    ensures
        !keys[k].t.finite() || !keys[k].value.finite() ==> key_issues(path, keys, n).contains(
            "track '"@ + path + "' has a non-finite key"@,
        ),
        k > 0 && keys[k].t.at_most(keys[k - 1].t) ==> key_issues(path, keys, n).contains(
            "track '"@ + path + "' keys are not strictly increasing"@,
        ),
    decreases n,
{
    let all = key_issues(path, keys, n);
    let before = key_issues(path, keys, n - 1);
    let first = "track '"@ + path + "' has a non-finite key"@;
    let second = "track '"@ + path + "' keys are not strictly increasing"@;
    if k < n - 1 {
        lemma_key_issue_told(path, keys, n - 1, k);
        if before.contains(first) {
            let i = choose|i: int| 0 <= i < before.len() && before[i] == first;
            assert(all[i] == first);
        }
        if before.contains(second) {
            let i = choose|i: int| 0 <= i < before.len() && before[i] == second;
            assert(all[i] == second);
        }
    } else {
        let unbounded = !keys[k].t.finite() || !keys[k].value.finite();
        if unbounded {
            assert(all[before.len() as int] == first);
        }
        if k > 0 && keys[k].t.at_most(keys[k - 1].t) {
            assert(all[all.len() - 1] == second);
        }
    }
}

proof fn lemma_track_issue_told(tracks: Seq<TrackModel>, n: int, m: int, text: Seq<char>)
    requires
        0 <= m < n <= tracks.len(),
        track_issues(tracks[m]).contains(text),
    ensures
        tracks_issues(tracks, n).contains(text),
    decreases n,
{
    let all = tracks_issues(tracks, n);
    let before = tracks_issues(tracks, n - 1);
    if m < n - 1 {
        lemma_track_issue_told(tracks, n - 1, m, text);
        let i = choose|i: int| 0 <= i < before.len() && before[i] == text;
        assert(all[i] == text);
    } else {
        let own = track_issues(tracks[m]);
        let i = choose|i: int| 0 <= i < own.len() && own[i] == text;
        assert(all[before.len() + i] == text);
    }
}

/// Every problem of a sequence is told by its sentence: a duration that is no number
/// above nought, a frame rate of nought, and of each track a path that cannot be
/// read, a key without finite numbers, and a key that is not after the one before it.
pub proof fn law_every_problem_is_told(s: SequenceModel, duration_text: Seq<char>, n: int, k: int)
    requires
        0 <= n < s.tracks.len(),
        0 <= k < s.tracks[n].keys.len(),
    ensures
        ({
            let told = issues_of(s, duration_text);
            let t = s.tracks[n];
            let key = t.keys[k];
            &&& !s.duration.finite() || s.duration.at_most(F64 { bits: 0 }) ==> told.contains(
                "duration must be finite and > 0 (got "@ + duration_text + ")"@,
            )
            &&& s.fps_hint == 0 ==> told.contains("fps_hint must be >= 1"@)
            &&& path::scalar_path(t.path) is None ==> told.contains(
                "track '"@ + t.path + "' has an unparseable path"@,
            )
            &&& !key.t.finite() || !key.value.finite() ==> told.contains(
                "track '"@ + t.path + "' has a non-finite key"@,
            )
            &&& k > 0 && key.t.at_most(t.keys[k - 1].t) ==> told.contains(
                "track '"@ + t.path + "' keys are not strictly increasing"@,
            )
        }),
{
    let told = issues_of(s, duration_text);
    let of_tracks = tracks_issues(s.tracks, s.tracks.len() as int);
    let t = s.tracks[n];
    let keyed = key_issues(t.path, t.keys, t.keys.len() as int);
    let own = track_issues(t);
    let lead = told.len() - of_tracks.len();
    assert forall|x: Seq<char>| own.contains(x) implies told.contains(x) by {
        lemma_track_issue_told(s.tracks, s.tracks.len() as int, n, x);
        let i = choose|i: int| 0 <= i < of_tracks.len() && of_tracks[i] == x;
        assert(told[lead + i] == x);
    }
    assert forall|x: Seq<char>| keyed.contains(x) implies own.contains(x) by {
        let i = choose|i: int| 0 <= i < keyed.len() && keyed[i] == x;
        assert(own[own.len() - keyed.len() + i] == x);
    }
    lemma_key_issue_told(t.path, t.keys, t.keys.len() as int, k);
    if path::scalar_path(t.path) is None {
        assert(own[0] == "track '"@ + t.path + "' has an unparseable path"@);
    }
    if !s.duration.finite() || s.duration.at_most(F64 { bits: 0 }) {
        assert(told[0] == "duration must be finite and > 0 (got "@ + duration_text + ")"@);
    }
    if s.fps_hint == 0 {
        assert(told[lead - 1] == "fps_hint must be >= 1"@);
    }
}

} // verus!
