//! Undoable edits of the document.

use crate::guid::Guid;
use crate::scene::command;
use crate::scene::command::{EditCommand, Item};
use crate::scene::command_laws;
use crate::scene::component::Transform;
use crate::scene::doc;
use crate::scene::doc::{DocModel, SceneDoc};
use crate::scene::entity::EntityModel;
use crate::scene::history::EditHistory;
use crate::scene::paint;
use crate::scene::record::{EntityRecord, RecordModel};
use crate::scene::replay;
use crate::scene::settings::LevelSettings;
use crate::scene::tilemap::tilemap_of;
use vstd::prelude::*;

verus! {

// ---------------------------------------------------------------- replay

/// The document after the commands went forward, the first one first.
pub open spec fn played(commands: Seq<EditCommand>, d: DocModel) -> DocModel
    decreases commands.len(),
{
    if commands.len() == 0 {
        d
    } else {
        commands.last().effect(played(commands.drop_last(), d), false)
    }
}

/// The document after the commands went back, the last one first.
pub open spec fn unplayed(commands: Seq<EditCommand>, d: DocModel) -> DocModel
    decreases commands.len(),
{
    if commands.len() == 0 {
        d
    } else {
        unplayed(commands.drop_last(), commands.last().effect(d, true))
    }
}

/// Whether two documents hold the same, their version and whether they are
/// saved aside.
pub open spec fn same_content(a: DocModel, b: DocModel) -> bool {
    a.entities == b.entities && a.title == b.title && a.settings == b.settings
}

/// Whether each of the commands told the truth about the document it changed.
pub open spec fn truthful_run(commands: Seq<EditCommand>, d: DocModel) -> bool
    decreases commands.len(),
{
    commands.len() == 0 || {
        let before = played(commands.drop_last(), d);
        &&& truthful_run(commands.drop_last(), d)
        &&& doc::distinct(before.entities)
        &&& doc::attached(before.entities)
        &&& command_laws::truthful(commands.last(), before)
    }
}

/// The history after an undo: the entry goes to the other stack.
pub open spec fn undone(before: EditHistory, after: EditHistory) -> bool {
    &&& before.undo@.len() > 0
    &&& after.undo@ == before.undo@.drop_last()
    &&& after.redo@ == before.redo@.push(before.undo@.last())
    &&& after.limit == before.limit
    &&& after.byte_limit == before.byte_limit
}

/// The history after a redo.
pub open spec fn redone(before: EditHistory, after: EditHistory) -> bool {
    &&& before.redo@.len() > 0
    &&& after.redo@ == before.redo@.drop_last()
    &&& after.undo@ == before.undo@.push(before.redo@.last())
    &&& after.limit == before.limit
    &&& after.byte_limit == before.byte_limit
}

impl SceneDoc {
    /// Begin a transaction.
    pub fn begin_transaction(&mut self, label: &str)
        requires
            old(self).history.wf(),
            old(self).history.depth < u32::MAX,
        ensures
            final(self)@ == old(self)@,
            final(self).history.wf(),
            old(self).history.begun(&final(self).history, label@),
    {
        self.history.begin(label);
    }

    /// Commit the transaction.
    pub fn commit_transaction(&mut self)
        requires
            old(self).history.wf(),
        ensures
            final(self)@ == old(self)@,
            final(self).history.wf(),
            old(self).history.committed(&final(self).history),
    {
        self.history.commit();
    }

    /// Record a command that was done.
    pub fn record_edit(&mut self, label: &str, cmd: EditCommand)
        requires
            old(self).history.wf(),
        ensures
            final(self)@ == old(self)@,
            final(self).history.wf(),
            old(self).history.recorded(&final(self).history, label@, cmd),
    {
        self.history.record(label, cmd);
    }

    /// Undo the newest entry, its commands from the last to the first. One that
    /// the host has a part in is undone step by step instead, from
    /// [`SceneDoc::begin_undo`] on; [`EditHistory::undo_needs_host`] tells.
    pub fn undo(&mut self) -> (r: bool)
        requires
            old(self).history.undo_is_own(),
        ensures
            r == (old(self).history.undo@.len() > 0),
            r ==> {
                &&& final(self)@ == unplayed(old(self).history.undo@.last().commands@, old(self)@)
                &&& undone(old(self).history, final(self).history)
            },
            !r ==> final(self)@ == old(self)@ && old(self).history.same_stacks(
                &final(self).history,
            ),
            final(self).history.open == old(self).history.open,
            final(self).history.depth == old(self).history.depth,
    {
        match self.begin_undo() {
            Some(replay) => {
                proof {
                    replay::law_steps_are_the_replay(replay.entry.commands@, self@);
                }
                self.play(&replay);
                self.finish_replay(replay);
                true
            },
            None => false,
        }
    }

    /// Redo the entry that was undone last, its commands from the first to the
    /// last. One that the host has a part in is redone step by step instead, from
    /// [`SceneDoc::begin_redo`] on; [`EditHistory::redo_needs_host`] tells.
    pub fn redo(&mut self) -> (r: bool)
        requires
            old(self).history.redo_is_own(),
        ensures
            r == (old(self).history.redo@.len() > 0),
            r ==> {
                &&& final(self)@ == played(old(self).history.redo@.last().commands@, old(self)@)
                &&& redone(old(self).history, final(self).history)
            },
            !r ==> final(self)@ == old(self)@ && old(self).history.same_stacks(
                &final(self).history,
            ),
            final(self).history.open == old(self).history.open,
            final(self).history.depth == old(self).history.depth,
    {
        match self.begin_redo() {
            Some(replay) => {
                proof {
                    replay::law_steps_are_the_replay(replay.entry.commands@, self@);
                }
                self.play(&replay);
                self.finish_replay(replay);
                true
            },
            None => false,
        }
    }

    /// What an edit leaves behind: a command that told the truth about the
    /// document, went forward and is in the history.
    pub open spec fn edited(&self, after: &SceneDoc, label: Seq<char>, cmd: EditCommand) -> bool {
        &&& after@ == cmd.effect(self@, false)
        &&& self.wf() && self.complete() ==> command_laws::truthful(cmd, self@)
        &&& self.history.recorded(&after.history, label, cmd)
    }

    /// Nothing happened.
    pub open spec fn untouched(&self, after: &SceneDoc) -> bool {
        after@ == self@ && after.history == self.history
    }

    /// Add the entity a record describes as the newest one, below its parent
    /// where that is there. An identity that is taken is refused.
    pub fn edit_create(&mut self, record: EntityRecord) -> (r: bool)
        requires
            old(self).history.wf(),
        ensures
            final(self).history.wf(),
            r == !doc::has(old(self)@.entities, record.guid),
            r ==> exists|cmd: EditCommand|
                {
                    &&& #[trigger] old(self).edited(final(self), "Create"@, cmd)
                    &&& cmd matches EditCommand::Create { at, record: made } && at == old(
                        self,
                    )@.entities.len() && made@ == (RecordModel {
                        parent: doc::resolved(old(self)@.entities, record@.parent),
                        ..record@
                    })
                },
            r ==> final(self)@ == (DocModel {
                entities: old(self)@.entities.push(
                    EntityModel {
                        guid: record.guid,
                        name: Some(record.name@),
                        parent: doc::resolved(old(self)@.entities, record.parent),
                        transform: Some(record.transform),
                        visible: Some(record.visible),
                        parts: record@.parts,
                    },
                ),
                ..old(self)@
            }).touched(),
            !r ==> old(self).untouched(final(self)),
    {
        if self.contains(record.guid) {
            return false;
        }
        let ghost asked = record@;
        let mut record = record;
        record.parent = self.resolve(record.parent);
        let cmd = EditCommand::Create { at: self.entities.len(), record: Box::new(record) };
        let _work = cmd.apply(self);
        proof {
            let all = old(self)@.entities;
            let below = doc::resolved(all, asked.parent);
            assert(doc::resolved(all, below) == below);
            assert(self@.entities =~= all.push(EntityModel::of_record(asked, below)));
        }
        self.record_edit("Create", cmd);
        assert(old(self).edited(&*self, "Create"@, cmd));
        true
    }

    /// Name an entity.
    pub fn edit_rename(&mut self, guid: Guid, name: &str) -> (r: bool)
        requires
            old(self).history.wf(),
        ensures
            final(self).history.wf(),
            r == doc::has(old(self)@.entities, guid),
            r ==> exists|cmd: EditCommand|
                {
                    &&& #[trigger] old(self).edited(final(self), "Rename"@, cmd)
                    &&& cmd matches EditCommand::Rename { guid: g, after, .. } && g == guid
                        && after@ == name@
                },
            r ==> final(self)@ == (DocModel {
                entities: old(self)@.entities.update(
                    doc::find(old(self)@.entities, guid) as int,
                    EntityModel {
                        name: Some(name@),
                        ..old(self)@.entities[doc::find(old(self)@.entities, guid) as int]
                    },
                ),
                ..old(self)@
            }).touched(),
            !r ==> old(self).untouched(final(self)),
    {
        proof {
            doc::lemma_find(self@.entities, guid);
        }
        let i = self.index_of(guid);
        if i == self.entities.len() {
            return false;
        }
        proof {
            assert(self@.entities[i as int] == self.entities@[i as int]@);
        }
        let before = match &self.entities[i].name {
            Some(n) => n.clone(),
            None => String::new(),
        };
        let cmd = EditCommand::Rename { guid, before, after: name.to_owned() };
        let _work = cmd.apply(self);
        self.record_edit("Rename", cmd);
        assert(old(self).edited(&*self, "Rename"@, cmd));
        true
    }

    /// Show or hide an entity.
    pub fn edit_set_visible(&mut self, guid: Guid, visible: bool) -> (r: bool)
        requires
            old(self).history.wf(),
        ensures
            final(self).history.wf(),
            r == doc::has(old(self)@.entities, guid),
            r ==> exists|cmd: EditCommand|
                {
                    &&& #[trigger] old(self).edited(final(self), "Set Visible"@, cmd)
                    &&& cmd matches EditCommand::SetVisible { guid: g, after, .. } && g == guid
                        && after == visible
                },
            r ==> final(self)@ == (DocModel {
                entities: old(self)@.entities.update(
                    doc::find(old(self)@.entities, guid) as int,
                    EntityModel {
                        visible: Some(visible),
                        ..old(self)@.entities[doc::find(old(self)@.entities, guid) as int]
                    },
                ),
                ..old(self)@
            }).touched(),
            !r ==> old(self).untouched(final(self)),
    {
        proof {
            doc::lemma_find(self@.entities, guid);
        }
        let i = self.index_of(guid);
        if i == self.entities.len() {
            return false;
        }
        proof {
            assert(self@.entities[i as int] == self.entities@[i as int]@);
        }
        let before = match self.entities[i].visible {
            Some(v) => v,
            None => true,
        };
        let cmd = EditCommand::SetVisible { guid, before, after: visible };
        let _work = cmd.apply(self);
        self.record_edit("Set Visible", cmd);
        assert(old(self).edited(&*self, "Set Visible"@, cmd));
        true
    }

    /// Place an entity.
    pub fn edit_set_transform(&mut self, guid: Guid, transform: Transform) -> (r: bool)
        requires
            old(self).history.wf(),
        ensures
            final(self).history.wf(),
            r == doc::has(old(self)@.entities, guid),
            r ==> exists|cmd: EditCommand|
                {
                    &&& #[trigger] old(self).edited(final(self), "Transform"@, cmd)
                    &&& cmd matches EditCommand::SetTransform { guid: g, after, .. } && g == guid
                        && after == transform
                },
            r ==> final(self)@ == (DocModel {
                entities: old(self)@.entities.update(
                    doc::find(old(self)@.entities, guid) as int,
                    EntityModel {
                        transform: Some(transform),
                        ..old(self)@.entities[doc::find(old(self)@.entities, guid) as int]
                    },
                ),
                ..old(self)@
            }).touched(),
            !r ==> old(self).untouched(final(self)),
    {
        proof {
            doc::lemma_find(self@.entities, guid);
        }
        let i = self.index_of(guid);
        if i == self.entities.len() {
            return false;
        }
        proof {
            assert(self@.entities[i as int] == self.entities@[i as int]@);
        }
        let before = match self.entities[i].transform {
            Some(t) => t,
            None => Transform::identity(),
        };
        let cmd = EditCommand::SetTransform { guid, before, after: transform };
        let _work = cmd.apply(self);
        self.record_edit("Transform", cmd);
        assert(old(self).edited(&*self, "Transform"@, cmd));
        true
    }

    /// Put an entity below another, or at the root. It is refused where one of
    /// them is not there, and where the entity would come to stand below itself.
    pub fn edit_reparent(&mut self, guid: Guid, parent: Option<Guid>) -> (r: bool)
        requires
            old(self).history.wf(),
        ensures
            final(self).history.wf(),
            r == (doc::has(old(self)@.entities, guid) && (parent matches Some(p) ==> doc::has(
                old(self)@.entities,
                p,
            ) && !doc::doomed(old(self)@.entities, seq![guid], p))),
            r ==> exists|cmd: EditCommand|
                {
                    &&& #[trigger] old(self).edited(final(self), "Reparent"@, cmd)
                    &&& cmd matches EditCommand::Reparent { guid: g, after, .. } && g == guid
                        && after == parent
                },
            r ==> final(self)@ == (DocModel {
                entities: old(self)@.entities.update(
                    doc::find(old(self)@.entities, guid) as int,
                    EntityModel {
                        parent: parent,
                        ..old(self)@.entities[doc::find(old(self)@.entities, guid) as int]
                    },
                ),
                ..old(self)@
            }).touched(),
            !r ==> old(self).untouched(final(self)),
    {
        proof {
            doc::lemma_find(self@.entities, guid);
        }
        let i = self.index_of(guid);
        if i == self.entities.len() {
            return false;
        }
        match parent {
            Some(p) => {
                let j = self.index_of(p);
                proof {
                    doc::lemma_find(self@.entities, p);
                }
                if j == self.entities.len() {
                    return false;
                }
                let tops = vec![guid];
                proof {
                    assert(tops@ =~= seq![guid]);
                }
                let marks = self.doomed_marks(&tops);
                if marks[j] {
                    return false;
                }
            },
            None => {},
        }
        proof {
            assert(self@.entities[i as int] == self.entities@[i as int]@);
        }
        let before = self.entities[i].parent;
        let cmd = EditCommand::Reparent { guid, before, after: parent };
        let _work = cmd.apply(self);
        self.record_edit("Reparent", cmd);
        assert(old(self).edited(&*self, "Reparent"@, cmd));
        true
    }

    /// Delete entities with everything below them. Nothing is recorded where
    /// none of them is there.
    pub fn edit_delete(&mut self, tops: Vec<Guid>) -> (r: bool)
        requires
            old(self).history.wf(),
        ensures
            final(self).history.wf(),
            r == (exists|i: int|
                0 <= i < old(self)@.entities.len() && doc::doomed(
                    old(self)@.entities,
                    tops@,
                    (#[trigger] old(self)@.entities[i]).guid,
                )),
            r ==> exists|cmd: EditCommand|
                {
                    &&& #[trigger] old(self).edited(final(self), "Delete"@, cmd)
                    &&& cmd matches EditCommand::Delete { tops: t, .. } && t == tops
                },
            r ==> final(self)@ == (DocModel {
                entities: doc::without(old(self)@.entities, tops@),
                ..old(self)@
            }).touched(),
            !r ==> old(self).untouched(final(self)),
    {
        let ghost all = self@.entities;
        let marks = self.doomed_marks(&tops);
        let mut items: Vec<(usize, EntityRecord)> = Vec::new();
        let mut i: usize = 0;
        proof {
            assert(command::items_of(items@) =~= Seq::<Item>::empty());
        }
        while i < self.entities.len()
            invariant
                all == self@.entities,
                i <= self.entities.len(),
                marks.len() == self.entities.len(),
                forall|j: int|
                    0 <= j < marks.len() ==> (#[trigger] marks@[j]) == doc::doomed(
                        all,
                        tops@,
                        all[j].guid,
                    ),
                command::items_of(items@) == command_laws::doomed_items(all, tops@, i as int),
                items.len() == 0 ==> forall|j: int| 0 <= j < i ==> !(#[trigger] marks@[j]),
                items.len() > 0 ==> exists|j: int| 0 <= j < i && #[trigger] marks@[j],
            decreases self.entities.len() - i,
        {
            if marks[i] {
                proof {
                    assert(all[i as int] == self.entities@[i as int]@);
                }
                let rec = self.entities[i].record();
                proof {
                    assert(command::items_of(items@.push((i, rec))) =~= command::items_of(items@).push(
                        (i as int, rec@),
                    ));
                }
                items.push((i, rec));
                assert(marks@[i as int]);
            }
            i = i + 1;
        }
        if items.len() == 0 {
            proof {
                assert forall|j: int| 0 <= j < all.len() implies !doc::doomed(
                    all,
                    tops@,
                    (#[trigger] all[j]).guid,
                ) by {
                    assert(!marks@[j]);
                }
            }
            return false;
        }
        proof {
            let j = choose|j: int| 0 <= j < all.len() && #[trigger] marks@[j];
            assert(doc::doomed(all, tops@, all[j].guid));
            command_laws::lemma_doomed_items_ascend(all, tops@, all.len() as int);
            command::lemma_by_place_of_ascending(command::items_of(items@));
        }
        let cmd = EditCommand::Delete { items, tops };
        let _work = cmd.apply(self);
        self.record_edit("Delete", cmd);
        assert(old(self).edited(&*self, "Delete"@, cmd));
        true
    }

    /// Paint cells of an entity's tilemap as one edit, and tell how many
    /// changed. Cells that hold their tile already are no part of it, and where
    /// no cell changes nothing is recorded.
    pub fn edit_paint_tiles(&mut self, guid: Guid, cells: &Vec<(i32, i32, u32)>) -> (r: usize)
        requires
            old(self).history.wf(),
            tilemap_of(old(self)@.entities, guid) matches Some(tm) ==> tm.settled(),
        ensures
            final(self).history.wf(),
            match tilemap_of(old(self)@.entities, guid) {
                Some(tm) => {
                    let changes = paint::stroke_changes(tm, cells@, cells@.len() as int);
                    &&& r == changes.len()
                    &&& r > 0 ==> exists|cmd: EditCommand|
                        {
                            &&& #[trigger] old(self).edited(final(self), "Paint Tiles"@, cmd)
                            &&& cmd matches EditCommand::SetTiles { guid: g, cells: c } && g == guid
                                && c@ == changes
                        }
                },
                None => r == 0,
            },
            r == 0 ==> old(self).untouched(final(self)),
    {
        let at = self.index_of(guid);
        if at >= self.entities.len() {
            return 0;
        }
        assert(self@.entities[at as int] == self.entities@[at as int]@);
        let changes = match &self.entities[at].parts.tilemap {
            Some(tm) => paint::changes_of(tm, cells),
            None => {
                return 0;
            },
        };
        let n = changes.len();
        if n == 0 {
            return 0;
        }
        let cmd = EditCommand::SetTiles { guid, cells: changes };
        let _work = cmd.apply(self);
        self.record_edit("Paint Tiles", cmd);
        assert(old(self).edited(&*self, "Paint Tiles"@, cmd));
        n
    }

    /// Replace the settings of the level. Settings that are the same already
    /// are no edit.
    pub fn edit_settings(&mut self, settings: LevelSettings) -> (r: bool)
        requires
            old(self).history.wf(),
        ensures
            final(self).history.wf(),
            r == (old(self)@.settings != settings),
            r ==> exists|cmd: EditCommand|
                {
                    &&& #[trigger] old(self).edited(final(self), "Level Settings"@, cmd)
                    &&& cmd == (EditCommand::SetLevelSettings { old: old(self)@.settings, new: settings })
                },
            r ==> final(self)@ == (DocModel { settings, ..old(self)@ }).touched(),
            !r ==> old(self).untouched(final(self)),
    {
        if self.settings == settings {
            return false;
        }
        let cmd = EditCommand::SetLevelSettings { old: self.settings, new: settings };
        let _work = cmd.apply(self);
        self.record_edit("Level Settings", cmd);
        assert(old(self).edited(&*self, "Level Settings"@, cmd));
        true
    }
}

// ---------------------------------------------------------------- laws

/// What a command does to the content depends on the content alone.
proof fn lemma_effect_content(cmd: EditCommand, a: DocModel, b: DocModel, revert: bool)
    requires
        same_content(a, b),
    ensures
        same_content(cmd.effect(a, revert), cmd.effect(b, revert)),
{
}

proof fn lemma_unplayed_content(commands: Seq<EditCommand>, a: DocModel, b: DocModel)
    requires
        same_content(a, b),
    ensures
        same_content(unplayed(commands, a), unplayed(commands, b)),
    decreases commands.len(),
{
    if commands.len() > 0 {
        lemma_effect_content(commands.last(), a, b, true);
        lemma_unplayed_content(
            commands.drop_last(),
            commands.last().effect(a, true),
            commands.last().effect(b, true),
        );
    }
}

proof fn lemma_played_content(commands: Seq<EditCommand>, a: DocModel, b: DocModel)
    requires
        same_content(a, b),
    ensures
        same_content(played(commands, a), played(commands, b)),
    decreases commands.len(),
{
    if commands.len() > 0 {
        lemma_played_content(commands.drop_last(), a, b);
        lemma_effect_content(
            commands.last(),
            played(commands.drop_last(), a),
            played(commands.drop_last(), b),
            false,
        );
    }
}

/// Undo gives back what was there before the entry, whatever commands it holds,
/// and redo after that gives back what was there after it.
pub proof fn law_undo_then_redo(commands: Seq<EditCommand>, d: DocModel)
    requires
        truthful_run(commands, d),
    ensures
        same_content(unplayed(commands, played(commands, d)), d),
        same_content(
            played(commands, unplayed(commands, played(commands, d))),
            played(commands, d),
        ),
    decreases commands.len(),
{
    if commands.len() > 0 {
        let rest = commands.drop_last();
        let last = commands.last();
        let before = played(rest, d);
        law_undo_then_redo(rest, d);
        command_laws::law_undo_restores(last, before);
        let back = last.effect(played(commands, d), true);
        assert(same_content(back, before));
        lemma_unplayed_content(rest, back, before);
    }
    lemma_played_content(commands, unplayed(commands, played(commands, d)), d);
}

/// The commands of an entry go forward from the first to the last, each on what the
/// one before it left, and back from the last to the first.
pub proof fn law_an_entry_is_replayed_in_order(commands: Seq<EditCommand>, d: DocModel)
    ensures
        played(commands, d) == commands.fold_left(
            d,
            |now: DocModel, c: EditCommand| c.effect(now, false),
        ),
        unplayed(commands, d) == commands.fold_right(
            |c: EditCommand, now: DocModel| c.effect(now, true),
            d,
        ),
    decreases commands.len(),
{
    if commands.len() > 0 {
        law_an_entry_is_replayed_in_order(commands.drop_last(), d);
        law_an_entry_is_replayed_in_order(commands.drop_last(), commands.last().effect(d, true));
    }
}

/// An undo takes the newest entry off the one stack and puts it on the other, as the
/// next to be redone; every other entry stays where it was. The redo after it puts
/// both stacks back as they were.
pub proof fn law_an_undo_moves_the_newest_entry(
    before: EditHistory,
    after: EditHistory,
    again: EditHistory,
)
    requires
        undone(before, after),
        redone(after, again),
    ensures
        after.undo@.len() == before.undo@.len() - 1,
        after.redo@.len() == before.redo@.len() + 1,
        after.redo@[before.redo@.len() as int] == before.undo@[before.undo@.len() - 1],
        forall|i: int| 0 <= i < after.undo@.len() ==> (#[trigger] after.undo@[i]) == before.undo@[i],
        forall|i: int| 0 <= i < before.redo@.len() ==> (#[trigger] after.redo@[i]) == before.redo@[i],
        again.undo@ == before.undo@,
        again.redo@ == before.redo@,
        again.limit == before.limit,
        again.byte_limit == before.byte_limit,
{
    assert(again.undo@ =~= before.undo@);
    assert(again.redo@ =~= before.redo@);
}

/// A command that told the truth keeps the document well-formed: no identity
/// twice, every parent there.
pub proof fn law_truthful_commands_keep_the_document_well_formed(cmd: EditCommand, d: DocModel)
    requires
        doc::distinct(d.entities),
        doc::attached(d.entities),
        command_laws::truthful(cmd, d),
    ensures
        doc::distinct(cmd.effect(d, false).entities),
        doc::attached(cmd.effect(d, false).entities),
{
    command_laws::lemma_forward_keeps_shape(cmd, d.entities);
}

} // verus!
