//! Tracks, sequences and the paths of both.

use inf_editor_core::bits::F64;
use inf_editor_core::guid::Guid;
use inf_editor_core::scene::doc::SceneDoc;
use inf_editor_core::sequencer::path::{
    is_sequence_file, sequence_path, sequences_dir, slug, split_path, swizzle_index,
};
use inf_editor_core::sequencer::sequence::{listed_names, sample, Sequence};
use inf_editor_core::sequencer::track::{Interp, Key, PropertyTrack, Sample};

fn f(x: f64) -> F64 {
    F64::from_bits(x.to_bits())
}

fn key(t: f64, value: f64, interp: Interp) -> Key {
    Key { t: f(t), value: f(value), interp }
}

fn nil() -> Guid {
    Guid::from_u128(0)
}

/// A sample as a number: what it holds, or the blend it stands for.
fn number(s: Option<Sample>, t: f64) -> Option<f64> {
    match s {
        None => None,
        Some(Sample::Hold(v)) => Some(f64::from_bits(v.bits)),
        Some(Sample::Blend(a, b)) => {
            let (at, av) = (f64::from_bits(a.t.bits), f64::from_bits(a.value.bits));
            let (bt, bv) = (f64::from_bits(b.t.bits), f64::from_bits(b.value.bits));
            Some(av + (t - at) / (bt - at) * (bv - av))
        }
    }
}

fn at(tr: &PropertyTrack, t: f64) -> Option<f64> {
    number(tr.sample(f(t)), t)
}

/// The distance of each key to a time.
fn distances(tr: &PropertyTrack, t: f64) -> Vec<F64> {
    tr.keys.iter().map(|k| f((f64::from_bits(k.t.bits) - t).abs())).collect()
}

#[test]
fn sample_holds_before_first_and_after_last() {
    let mut tr = PropertyTrack::new(nil(), "Transform.translation.x".to_string());
    tr.keys = vec![key(1.0, 10.0, Interp::Linear), key(3.0, 30.0, Interp::Linear)];
    assert_eq!(at(&tr, 0.0), Some(10.0)); // before first → hold
    assert_eq!(at(&tr, 1.0), Some(10.0)); // at first
    assert_eq!(at(&tr, 3.0), Some(30.0)); // at last
    assert_eq!(at(&tr, 5.0), Some(30.0)); // after last → hold
}

#[test]
fn sample_linear_interpolates_midpoint() {
    let mut tr = PropertyTrack::new(nil(), "Transform.translation.x".to_string());
    tr.keys = vec![key(0.0, 0.0, Interp::Linear), key(2.0, 20.0, Interp::Linear)];
    assert_eq!(at(&tr, 1.0), Some(10.0));
    assert_eq!(at(&tr, 0.5), Some(5.0));
    assert_eq!(tr.sample(f(1.0)), Some(Sample::Blend(tr.keys[0], tr.keys[1])));
}

#[test]
fn sample_step_holds_left_value() {
    let mut tr = PropertyTrack::new(nil(), "Transform.translation.x".to_string());
    tr.keys = vec![key(0.0, 0.0, Interp::Step), key(2.0, 20.0, Interp::Step)];
    assert_eq!(at(&tr, 0.0), Some(0.0));
    assert_eq!(at(&tr, 1.9), Some(0.0)); // step holds until next key
    assert_eq!(at(&tr, 2.0), Some(20.0));
}

#[test]
fn empty_track_samples_none() {
    let tr = PropertyTrack::new(nil(), "Transform.translation.x".to_string());
    assert_eq!(tr.sample(f(1.0)), None);
}

#[test]
fn set_key_replaces_at_same_time_and_keeps_sorted() {
    let mut tr = PropertyTrack::new(nil(), "Transform.scale.x".to_string());
    tr.set_key(f(2.0), f(2.0), Interp::Linear);
    tr.set_key(f(0.0), f(0.0), Interp::Linear);
    tr.set_key(f(1.0), f(1.0), Interp::Linear);
    tr.set_key(f(1.0), f(9.0), Interp::Step); // replace @ t=1
    assert_eq!(tr.keys.len(), 3);
    let times: Vec<f64> = tr.keys.iter().map(|k| f64::from_bits(k.t.bits)).collect();
    assert_eq!(times, vec![0.0, 1.0, 2.0]);
    assert_eq!(tr.keys[1].value, f(9.0));
    assert_eq!(tr.keys[1].interp, Interp::Step);
}

#[test]
fn remove_key_near_picks_closest() {
    let mut tr = PropertyTrack::new(nil(), "Transform.translation.y".to_string());
    tr.set_key(f(0.0), f(0.0), Interp::Linear);
    tr.set_key(f(1.0), f(1.0), Interp::Linear);
    let d = distances(&tr, 0.9);
    assert!(tr.remove_key_near(&d, f(0.25)));
    assert_eq!(tr.keys.len(), 1);
    assert_eq!(tr.keys[0].t, f(0.0));
    let d = distances(&tr, 5.0);
    assert!(!tr.remove_key_near(&d, f(0.25))); // nothing within eps
    assert_eq!(tr.keys.len(), 1);
}

#[test]
fn the_first_of_two_nearest_keys_goes() {
    let mut tr = PropertyTrack::new(nil(), "A.b".to_string());
    tr.set_key(f(0.0), f(0.0), Interp::Linear).set_key(f(2.0), f(2.0), Interp::Linear);
    let d = distances(&tr, 1.0);
    assert!(tr.remove_key_near(&d, f(1.0)));
    assert_eq!(tr.keys[0].t, f(2.0));
}

#[test]
fn keys_of_one_time_are_settled_to_the_last_authored() {
    let mut tr = PropertyTrack::new(nil(), "A.b".to_string());
    tr.keys = vec![
        key(1.0, 1.0, Interp::Linear),
        key(0.0, 2.0, Interp::Linear),
        key(1.0, 3.0, Interp::Step),
    ];
    tr.sort_keys();
    assert_eq!(tr.keys, vec![key(0.0, 2.0, Interp::Linear), key(1.0, 3.0, Interp::Step)]);
    tr.keys = vec![key(1.0, 1.0, Interp::Linear), key(1.0, 2.0, Interp::Linear)];
    tr.sort_keys();
    assert_eq!(tr.keys, vec![key(1.0, 2.0, Interp::Linear)]);
    // A key that is set wins over all that stood at its time.
    tr.keys = vec![
        key(0.0, 2.0, Interp::Linear),
        key(1.0, 1.0, Interp::Linear),
        key(1.0, 3.0, Interp::Step),
    ];
    tr.set_key(f(1.0), f(9.0), Interp::Linear);
    assert_eq!(tr.keys, vec![key(0.0, 2.0, Interp::Linear), key(1.0, 9.0, Interp::Linear)]);
    // Negative zero and zero are one time.
    tr.set_key(f(-0.0), f(7.0), Interp::Step);
    assert_eq!(tr.keys.len(), 2);
    assert_eq!(tr.keys[0].value, f(7.0));
}

#[test]
fn a_time_that_is_no_number_is_taken_too() {
    let mut tr = PropertyTrack::new(nil(), "A.b".to_string());
    tr.set_key(f(1.0), f(1.0), Interp::Linear);
    tr.set_key(f(f64::NAN), f(2.0), Interp::Linear);
    assert_eq!(tr.keys.len(), 2);
    tr.set_key(f(1.0), f(3.0), Interp::Linear);
    assert!(tr.keys.iter().any(|k| k.value == f(3.0)));
    assert_eq!(tr.keys.len(), 2);
}

#[test]
fn normalize_sorts_tracks_and_drops_empty() {
    let a = Guid::from_u128(1);
    let b = Guid::from_u128(2);
    let mut seq = Sequence::new("s".to_string());
    let with_key = |path: &str| {
        let mut t = PropertyTrack::new(a, path.to_string());
        t.set_key(f(0.0), f(0.0), Interp::Linear);
        t
    };
    seq.tracks = vec![
        PropertyTrack::new(b, "Transform.translation.x".to_string()),
        with_key("Transform.translation.z"),
        with_key("Transform.translation.x"),
    ];
    seq.normalize();
    // The empty (b) track is dropped; the two `a` tracks sort by path.
    assert_eq!(seq.tracks.len(), 2);
    assert_eq!(seq.tracks[0].target, a);
    assert_eq!(seq.tracks[0].path, "Transform.translation.x");
    assert_eq!(seq.tracks[1].path, "Transform.translation.z");
    // A second time changes nothing.
    let once = seq.clone();
    seq.normalize();
    assert_eq!(seq, once);
}

#[test]
fn tracks_sort_by_target_before_path() {
    let mut seq = Sequence::new("s".to_string());
    seq.set_key(Guid::from_u128(9), "A.b", f(0.0), f(1.0), Interp::Linear);
    seq.set_key(Guid::from_u128(2), "Z.z", f(0.0), f(1.0), Interp::Linear);
    seq.set_key(Guid::from_u128(9), "A.a", f(0.0), f(1.0), Interp::Linear);
    seq.normalize();
    let order: Vec<(u128, &str)> =
        seq.tracks.iter().map(|t| (t.target.value, t.path.as_str())).collect();
    assert_eq!(order, vec![(2, "Z.z"), (9, "A.a"), (9, "A.b")]);
}

#[test]
fn validate_flags_bad_duration_and_path() {
    let mut seq = Sequence::new("s".to_string());
    seq.duration = f(0.0);
    let mut t = PropertyTrack::new(nil(), "not_a_path".to_string());
    t.set_key(f(0.0), f(0.0), Interp::Linear);
    seq.tracks = vec![t];
    let issues = seq.validate("0");
    assert!(issues.iter().any(|i| i.contains("duration")));
    assert!(issues.iter().any(|i| i.contains("unparseable")));
    assert_eq!(
        issues,
        vec![
            "duration must be finite and > 0 (got 0)".to_string(),
            "track 'not_a_path' has an unparseable path".to_string(),
        ]
    );
}

#[test]
fn validate_flags_the_rate_and_the_keys() {
    let mut seq = Sequence::new("s".to_string());
    assert!(seq.validate("5").is_empty());
    seq.fps_hint = 0;
    let mut t = PropertyTrack::new(nil(), "A.b".to_string());
    t.keys = vec![
        key(1.0, 0.0, Interp::Linear),
        key(1.0, f64::NAN, Interp::Linear),
        key(f64::INFINITY, 0.0, Interp::Linear),
    ];
    seq.tracks = vec![t];
    assert_eq!(
        seq.validate("5"),
        vec![
            "fps_hint must be >= 1".to_string(),
            "track 'A.b' has a non-finite key".to_string(),
            "track 'A.b' keys are not strictly increasing".to_string(),
            "track 'A.b' has a non-finite key".to_string(),
        ]
    );
}

#[test]
fn a_target_that_is_not_in_the_scene_is_a_problem() {
    let doc = SceneDoc::new();
    let mut seq = Sequence::new("s".to_string());
    seq.set_key(Guid::from_u128(0xABC), "A.b", f(0.0), f(1.0), Interp::Linear);
    assert_eq!(
        seq.validate_against("5", &doc),
        vec!["track target 00000000-0000-0000-0000-000000000abc is not in the scene".to_string()]
    );
}

#[test]
fn split_path_variants() {
    assert_eq!(
        split_path("Transform.translation.x"),
        Some(("Transform", "translation", Some(0)))
    );
    assert_eq!(split_path("Light.intensity"), Some(("Light", "intensity", None)));
    assert_eq!(split_path("Transform"), None);
    assert_eq!(split_path("Transform.translation.q"), None); // bad swizzle
    assert_eq!(split_path("A.b.c.d"), None); // too deep
}

#[test]
fn split_path_edges() {
    assert_eq!(split_path(""), None);
    assert_eq!(split_path(".b"), None);
    assert_eq!(split_path("A."), None);
    assert_eq!(split_path("A.b."), None);
    assert_eq!(split_path("A.b.a"), Some(("A", "b", Some(3))));
    assert_eq!(split_path("Ä.é.y"), Some(("Ä", "é", Some(1))));
}

#[test]
fn swizzle_letters() {
    let index = |s: &str| swizzle_index(s);
    assert_eq!([index("x"), index("y"), index("z"), index("w")], [Some(0), Some(1), Some(2), Some(3)]);
    assert_eq!([index("r"), index("g"), index("b"), index("a")], [Some(0), Some(1), Some(2), Some(3)]);
    assert_eq!([index("q"), index("xy"), index("")], [None, None, None]);
}

#[test]
fn slugs_and_files() {
    assert_eq!(slug("My Shot 1"), "My_Shot_1");
    assert_eq!(slug("a-b_c/é"), "a-b_c__");
    assert_eq!(slug(""), "sequence");
    assert_eq!(slug(&slug("My Shot 1")), "My_Shot_1");
    assert_eq!(sequences_dir("/p"), "/p/.infinity/sequences");
    assert_eq!(sequence_path("/p", "My Shot 1"), "/p/.infinity/sequences/My_Shot_1.toml");
    assert_eq!(sequence_path("/p", "My Shot 1"), sequence_path("/p", "My_Shot/1"));
}

#[test]
fn stored_sequences_are_found_by_their_file() {
    assert!(is_sequence_file("My_Shot_1.toml"));
    assert!(is_sequence_file("sequence.toml"));
    assert!(!is_sequence_file(".toml"));
    assert!(!is_sequence_file("toml"));
    assert!(!is_sequence_file("My_Shot_1.toml.bak"));
    assert!(!is_sequence_file("My_Shot_1.TOML"));
}

#[test]
fn a_new_sequence_is_five_seconds_at_thirty_frames() {
    let seq = Sequence::new("Intro".to_string());
    assert_eq!(seq.name, "Intro");
    assert_eq!(seq.duration, f(5.0));
    assert_eq!(seq.fps_hint, 30);
    assert!(seq.tracks.is_empty());
}

#[test]
fn a_key_that_was_set_is_sampled() {
    let g = Guid::from_u128(7);
    let mut seq = Sequence::new("Intro".to_string());
    seq.set_key(g, "Transform.translation.x", f(0.0), f(0.0), Interp::Linear);
    seq.set_key(g, "Transform.translation.x", f(2.0), f(5.0), Interp::Step);
    seq.track_mut(g, "Light.intensity");
    assert_eq!(seq.tracks.len(), 2);
    assert_eq!(seq.track(g, "Transform.translation.x").unwrap().keys.len(), 2);
    assert!(seq.track(Guid::from_u128(8), "Light.intensity").is_none());
    let samples = sample(&seq, f(2.0));
    assert_eq!(samples.len(), 1); // the track without keys comes to nothing
    assert_eq!(samples[0].target, g);
    assert_eq!(samples[0].path, "Transform.translation.x");
    assert_eq!(samples[0].sample, Sample::Hold(f(5.0)));
}

#[test]
fn names_are_listed_in_order_each_once() {
    let names: Vec<String> =
        ["b", "a", "b", "Z", "ä"].iter().map(|s| s.to_string()).collect();
    assert_eq!(listed_names(names), vec!["Z", "a", "b", "ä"]);
}
