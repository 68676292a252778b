//! Where a level and its crash recovery are stored, and what is done with a
//! recovery that is found.

use crate::scene::decode;
use crate::scene::decode::ScenePayload;
use crate::scene::doc;
use crate::scene::doc::{DocModel, SceneDoc};
use crate::scene::file::{SceneFile, SceneFileModel, SCHEMA_VERSION};
use crate::scene::save;
use crate::scene::save::ScenePersist;
use crate::scene::sky::Weather;
use crate::text;
use crate::text::{is_blank, join};
use vstd::prelude::*;

verus! {

/// The sidecar beside a payload: `foo.inf_lvl` has `foo.inf_lvl.toml`.
pub fn sidecar_path(payload_path: &str) -> (r: String)
    ensures
        r@ == payload_path@ + ".toml"@,
{
    let mut s = payload_path.to_owned();
    s.append(".toml");
    s
}

/// The recovery payload in the application's directory.
pub open spec fn recovery_path_of(dir: Seq<char>) -> Seq<char> {
    text::joined(dir, "crash-recovery.inf_lvl"@)
}

pub fn recovery_path(dir: &str) -> (r: String)
    ensures
        r@ == recovery_path_of(dir@),
{
    join(dir, "crash-recovery.inf_lvl")
}

/// The note beside the recovery payload that tells of terrain edits lost with
/// the session.
pub open spec fn note_path_of(dir: Seq<char>) -> Seq<char> {
    text::joined(dir, "crash-recovery.terrain-edits.txt"@)
}

pub fn recovery_terrain_note_path(dir: &str) -> (r: String)
    ensures
        r@ == note_path_of(dir@),
{
    join(dir, "crash-recovery.terrain-edits.txt")
}

/// Where a recovery that cannot be loaded is kept.
pub open spec fn aside_path_of(dir: Seq<char>) -> Seq<char> {
    recovery_path_of(dir) + ".corrupt"@
}

// ---------------------------------------------------------------- disk

/// What was written to a file.
pub enum Content {
    Bytes(Seq<u8>),
    Text(Seq<char>),
}

/// The files that are there, by their paths.
pub type Disk = Map<Seq<char>, Content>;

/// The recovery that lies in the directory.
pub open spec fn recovery_in(disk: Disk, dir: Seq<char>) -> Option<Content> {
    if disk.dom().contains(recovery_path_of(dir)) {
        Some(disk[recovery_path_of(dir)])
    } else {
        None
    }
}

/// The text that reading the note gives: nothing where it is not there or no
/// text.
pub open spec fn note_in(disk: Disk, dir: Seq<char>) -> Option<Seq<char>> {
    if disk.dom().contains(note_path_of(dir)) {
        match disk[note_path_of(dir)] {
            Content::Text(t) => Some(t),
            Content::Bytes(_) => None,
        }
    } else {
        None
    }
}

/// The files after a recovery was written.
pub open spec fn with_recovery(disk: Disk, dir: Seq<char>, payload: Seq<u8>) -> Disk {
    disk.insert(recovery_path_of(dir), Content::Bytes(payload))
}

/// The files after the note was written, or cleared.
pub open spec fn with_note(disk: Disk, dir: Seq<char>, note: Option<Seq<char>>) -> Disk {
    match note {
        Some(t) => disk.insert(note_path_of(dir), Content::Text(t)),
        None => disk.remove(note_path_of(dir)),
    }
}

/// The files after the note was taken: one that was read is gone.
pub open spec fn without_note(disk: Disk, dir: Seq<char>) -> Disk {
    if note_in(disk, dir) is Some {
        disk.remove(note_path_of(dir))
    } else {
        disk
    }
}

/// The files after a recovery that was there was tried: one that could be loaded
/// is gone, and one that could not is moved aside.
pub open spec fn without_recovery(disk: Disk, dir: Seq<char>, loads: bool) -> Disk {
    let rest = disk.remove(recovery_path_of(dir));
    if loads {
        rest
    } else {
        rest.insert(aside_path_of(dir), disk[recovery_path_of(dir)])
    }
}

/// The files after a recovery was taken, with its note; nothing changes where
/// there is none.
pub open spec fn after_taking(disk: Disk, dir: Seq<char>, loads: bool) -> Disk {
    if recovery_in(disk, dir) is Some {
        without_recovery(without_note(disk, dir), dir, loads)
    } else {
        disk
    }
}

// ---------------------------------------------------------------- writing

/// A file to be written, the directory made first.
#[derive(Debug, PartialEq, Eq)]
pub struct FileWrite {
    pub dir: String,
    pub path: String,
    pub bytes: Vec<u8>,
}

impl FileWrite {
    /// The files after it was written.
    pub open spec fn done(self, disk: Disk) -> Disk {
        disk.insert(self.path@, Content::Bytes(self.bytes@))
    }
}

/// What has to be written for a recovery. `encoded` is what encoding the
/// projected document gave.
pub fn write_recovery(encoded: Result<Vec<u8>, String>, dir: &str) -> (r: Result<FileWrite, String>)
    ensures
        match encoded {
            Ok(payload) => r matches Ok(w) && w.dir@ == dir@ && w.path@ == recovery_path_of(dir@)
                && w.bytes == payload && forall|disk: Disk| #[trigger]
                w.done(disk) == with_recovery(disk, dir@, payload@),
            Err(e) => r is Err && r->Err_0@ == "encode: "@ + e@,
        },
{
    match encoded {
        Ok(payload) => Ok(write_recovery_bytes(payload, dir)),
        Err(e) => {
            let mut s = "encode: ".to_owned();
            s.append(e.as_str());
            Err(s)
        },
    }
}

/// What has to be written for an encoded recovery.
pub fn write_recovery_bytes(payload: Vec<u8>, dir: &str) -> (w: FileWrite)
    ensures
        w.dir@ == dir@,
        w.path@ == recovery_path_of(dir@),
        w.bytes == payload,
        forall|disk: Disk| #[trigger] w.done(disk) == with_recovery(disk, dir@, payload@),
{
    FileWrite { dir: dir.to_owned(), path: recovery_path(dir), bytes: payload }
}

/// What has to be done about the note beside a recovery.
#[derive(Debug, PartialEq, Eq)]
pub enum NoteStep {
    /// It is written, the directory made first.
    Write { dir: String, path: String, text: String },
    /// It is removed, where it is there.
    Remove { path: String },
}

impl NoteStep {
    /// The files after the step.
    pub open spec fn done(self, disk: Disk) -> Disk {
        match self {
            NoteStep::Write { path, text, .. } => disk.insert(path@, Content::Text(text@)),
            NoteStep::Remove { path } => disk.remove(path@),
        }
    }
}

/// The words of a text that may be missing.
pub open spec fn words(text: Option<String>) -> Option<Seq<char>> {
    match text {
        Some(t) => Some(t@),
        None => None,
    }
}

/// Take down, or without a text clear, the note beside a recovery.
pub fn write_recovery_terrain_note(dir: &str, note: Option<String>) -> (r: NoteStep)
    ensures
        match (note, r) {
            (Some(t), NoteStep::Write { dir: d, path, text }) => d@ == dir@ && path@
                == note_path_of(dir@) && text == t,
            (None, NoteStep::Remove { path }) => path@ == note_path_of(dir@),
            _ => false,
        },
        forall|disk: Disk| #[trigger] r.done(disk) == with_note(disk, dir@, words(note)),
{
    let path = recovery_terrain_note_path(dir);
    match note {
        Some(text) => NoteStep::Write { dir: dir.to_owned(), path, text },
        None => NoteStep::Remove { path },
    }
}

// ---------------------------------------------------------------- taking

/// What taking the note comes to: what it says, and the step that consumes it.
#[derive(Debug, PartialEq, Eq)]
pub struct TakenNote {
    pub note: Option<String>,
    pub step: Option<NoteStep>,
}

impl TakenNote {
    /// The files after the step.
    pub open spec fn done(self, disk: Disk) -> Disk {
        match self.step {
            Some(s) => s.done(disk),
            None => disk,
        }
    }
}

/// Take the note, consuming it. `read` is what reading its file as a text gave.
/// A blank note says nothing.
pub fn take_recovery_terrain_note(dir: &str, read: Option<String>) -> (r: TakenNote)
    ensures
        match read {
            Some(text) => {
                &&& r.note == (if text::blank(text@) {
                    None
                } else {
                    Some(text)
                })
                &&& r.step matches Some(NoteStep::Remove { path }) && path@ == note_path_of(dir@)
            },
            None => r.note is None && r.step is None,
        },
        forall|disk: Disk|
            note_in(disk, dir@) == words(read) ==> #[trigger] r.done(disk) == without_note(
                disk,
                dir@,
            ),
{
    match read {
        Some(text) => TakenNote {
            note: if is_blank(text.as_str()) {
                None
            } else {
                Some(text)
            },
            step: Some(NoteStep::Remove { path: recovery_terrain_note_path(dir) }),
        },
        None => TakenNote { note: None, step: None },
    }
}

/// What becomes of a recovery file once it was tried.
#[derive(Debug, PartialEq, Eq)]
pub enum RecoveryStep {
    /// It was loaded: it is removed.
    Remove { path: String },
    /// It could not be loaded: it is moved aside, and removed where even that
    /// fails.
    SetAside { path: String, aside: String },
}

impl RecoveryStep {
    /// The files after the step, where a file that has to be moved can be.
    pub open spec fn done(self, disk: Disk) -> Disk {
        match self {
            RecoveryStep::Remove { path } => disk.remove(path@),
            RecoveryStep::SetAside { path, aside } => disk.remove(path@).insert(
                aside@,
                disk[path@],
            ),
        }
    }

    /// Whether it is the step for the recovery in a directory.
    pub open spec fn follows(self, dir: Seq<char>, loaded: bool) -> bool {
        match self {
            RecoveryStep::Remove { path } => loaded && path@ == recovery_path_of(dir),
            RecoveryStep::SetAside { path, aside } => !loaded && path@ == recovery_path_of(dir)
                && aside@ == aside_path_of(dir),
        }
    }
}

/// A recovery is used once: a good file goes when it was loaded, and a bad one
/// is kept for diagnosis beside its place, which is free again.
pub fn after_recovery(dir: &str, loaded: bool) -> (r: RecoveryStep)
    ensures
        r.follows(dir@, loaded),
        forall|disk: Disk| #[trigger] r.done(disk) == without_recovery(disk, dir@, loaded),
{
    let path = recovery_path(dir);
    if loaded {
        RecoveryStep::Remove { path }
    } else {
        let mut aside = recovery_path(dir);
        aside.append(".corrupt");
        RecoveryStep::SetAside { path, aside }
    }
}

/// What taking a recovery comes to: the document, where it could be loaded, and
/// what becomes of the file.
pub struct TakenRecovery {
    pub doc: Option<SceneDoc>,
    pub step: Option<RecoveryStep>,
}

impl TakenRecovery {
    /// The files after the step.
    pub open spec fn done(self, disk: Disk) -> Disk {
        match self.step {
            Some(s) => s.done(disk),
            None => disk,
        }
    }
}

/// Take the recovery. `found` is nothing where there is no file, and otherwise
/// what reading and decoding it gave. Its note is taken before it is read.
pub fn take_recovery(dir: &str, found: Option<Result<SceneFile, String>>) -> (r: TakenRecovery)
    ensures
        match found {
            Some(Ok(f)) => {
                &&& r.doc matches Some(d) && save::opened(f@, d@) && d.history.is_fresh() && (
                save::distinct_records(f@.entities) ==> d.wf())
                &&& r.step matches Some(s) && s.follows(dir@, true)
            },
            Some(Err(_)) => {
                &&& r.doc is None
                &&& r.step matches Some(s) && s.follows(dir@, false)
            },
            None => r.doc is None && r.step is None,
        },
        forall|disk: Disk|
            (recovery_in(disk, dir@) is Some <==> found is Some) ==> #[trigger] r.done(disk) == (
            if found is Some {
                without_recovery(disk, dir@, found->0 is Ok)
            } else {
                disk
            }),
{
    match found {
        Some(file) => match save::load(file) {
            Ok(doc) => TakenRecovery { doc: Some(doc), step: Some(after_recovery(dir, true)) },
            Err(_) => TakenRecovery { doc: None, step: Some(after_recovery(dir, false)) },
        },
        None => TakenRecovery { doc: None, step: None },
    }
}

/// What has to be removed after a clean save: the recovery and its note.
pub fn clear_recovery(dir: &str) -> (r: (RecoveryStep, NoteStep))
    ensures
        r.0.follows(dir@, true),
        r.1 matches NoteStep::Remove { path } && path@ == note_path_of(dir@),
        forall|disk: Disk| #[trigger]
            r.0.done(disk) == without_recovery(disk, dir@, true),
        forall|disk: Disk| #[trigger] r.1.done(disk) == with_note(disk, dir@, None),
{
    (after_recovery(dir, true), write_recovery_terrain_note(dir, None))
}

// ---------------------------------------------------------------- laws

/// The files of a recovery are three different ones.
pub proof fn law_recovery_files_differ(dir: Seq<char>)
    ensures
        recovery_path_of(dir) != note_path_of(dir),
        recovery_path_of(dir) != aside_path_of(dir),
        note_path_of(dir) != aside_path_of(dir),
{
    reveal_strlit("crash-recovery.inf_lvl");
    reveal_strlit("crash-recovery.terrain-edits.txt");
    reveal_strlit(".corrupt");
    assert("crash-recovery.inf_lvl"@.len() == 22);
    assert("crash-recovery.terrain-edits.txt"@.len() == 32);
    assert(".corrupt"@.len() == 8);
    assert(recovery_path_of(dir).len() + 10 == note_path_of(dir).len());
}

/// A recovery is used once, whether it could be loaded or not: it is gone from
/// its place, no note is left to be read, and taking it again finds nothing and
/// changes nothing.
pub proof fn law_recovery_is_used_once(disk: Disk, dir: Seq<char>, loads: bool, again: bool)
    requires
        recovery_in(disk, dir) is Some,
    ensures
        recovery_in(after_taking(disk, dir, loads), dir) is None,
        note_in(after_taking(disk, dir, loads), dir) is None,
        after_taking(after_taking(disk, dir, loads), dir, again) == after_taking(disk, dir, loads),
{
    law_recovery_files_differ(dir);
}

/// A recovery that cannot be loaded is never dropped: it is kept aside as it
/// was, and no other file but its note is touched.
pub proof fn law_bad_recovery_is_kept_aside(disk: Disk, dir: Seq<char>, path: Seq<char>)
    requires
        recovery_in(disk, dir) is Some,
    ensures
        ({
            let left = after_taking(disk, dir, false);
            &&& left.dom().contains(aside_path_of(dir))
            &&& left[aside_path_of(dir)] == recovery_in(disk, dir)->0
            &&& path != recovery_path_of(dir) && path != note_path_of(dir) && path != aside_path_of(
                dir,
            ) ==> left.dom().contains(path) == disk.dom().contains(path) && left[path] == disk[path]
        }),
{
    law_recovery_files_differ(dir);
}

/// A clean save leaves nothing to recover and nothing to warn of, and touches no
/// other file.
pub proof fn law_clearing_leaves_nothing(disk: Disk, dir: Seq<char>)
    ensures
        ({
            let left = with_note(without_recovery(disk, dir, true), dir, None);
            &&& recovery_in(left, dir) is None
            &&& note_in(left, dir) is None
            &&& left == disk.remove(recovery_path_of(dir)).remove(note_path_of(dir))
        }),
{
    law_recovery_files_differ(dir);
}

/// A recovery restores the document that was written. The document is encoded as
/// a payload, and `read` is what reading the payload back gives. Then the
/// recovery that lies in the directory is that payload; decoding and opening it
/// gives a document with nothing unsaved that is saved as the very same file;
/// and the recovery and its note are gone from the directory, so that a second
/// attempt finds none. A note may have been written beside it, and every other
/// file is as it was.
pub proof fn law_recovery_restores_the_document(
    disk: Disk,
    dir: Seq<char>,
    note: Option<Seq<char>>,
    d: DocModel,
    payload: Seq<u8>,
    read: SceneFile,
    w: Weather,
    back: DocModel,
)
    requires
        doc::distinct(d.entities),
        doc::attached(d.entities),
        decode::leading_number(payload) == Some(SCHEMA_VERSION),
        read@ == save::projected(d, ScenePersist::File),
        save::opened(read@, back),
    ensures
        ({
            let there = with_note(with_recovery(disk, dir, payload), dir, note);
            let left = after_taking(there, dir, true);
            &&& recovery_in(there, dir) == Some(Content::Bytes(payload))
            &&& decode::decoded(payload, Ok(ScenePayload::Current(read)), w) == Ok::<
                SceneFileModel,
                Seq<char>,
            >(read@)
            &&& save::projected(back, ScenePersist::File) == save::projected(d, ScenePersist::File)
            &&& !back.dirty
            &&& recovery_in(left, dir) is None
            &&& note_in(left, dir) is None
            &&& left == disk.remove(recovery_path_of(dir)).remove(note_path_of(dir))
        }),
{
    law_recovery_files_differ(dir);
    decode::law_current_payloads_load_unchanged(payload, read, w);
    save::law_opening_what_was_saved(d, back);
    let there = with_note(with_recovery(disk, dir, payload), dir, note);
    assert(recovery_in(there, dir) == Some(Content::Bytes(payload)));
    assert(after_taking(there, dir, true) =~= disk.remove(recovery_path_of(dir)).remove(
        note_path_of(dir),
    ));
}

/// Where the files of a recovery lie: in the directory, with one slash between it and
/// their names.
pub proof fn law_where_a_recovery_lies(dir: Seq<char>)
    ensures
        ({
            let base = if dir.len() == 0 || dir.last() == '/' {
                dir
            } else {
                dir.push('/')
            };
            &&& recovery_path_of(dir) == base + "crash-recovery.inf_lvl"@
            &&& note_path_of(dir) == base + "crash-recovery.terrain-edits.txt"@
            &&& aside_path_of(dir) == base + "crash-recovery.inf_lvl"@ + ".corrupt"@
        }),
{
}

} // verus!
