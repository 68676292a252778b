//! Stepping through an entry of the history, so that the host can do its part
//! of each command in its turn.

use crate::scene::command::{EditCommand, HostWork};
use crate::scene::doc::{DocModel, SceneDoc};
use crate::scene::edit;
use crate::scene::history::{EditHistory, Transaction};
use vstd::prelude::*;

verus! {

/// An entry that is being undone, or redone. It is on neither stack meanwhile.
pub struct Replay {
    pub entry: Transaction,
    /// Whether the entry is being undone.
    pub revert: bool,
}

/// The place of the command that step `n` plays: an entry is undone from its
/// last command to its first, and redone from its first to its last.
pub open spec fn turn(len: int, revert: bool, n: int) -> int {
    if revert {
        len - 1 - n
    } else {
        n
    }
}

/// The document after `n` steps, where the host changes nothing in it.
pub open spec fn after_steps(
    commands: Seq<EditCommand>,
    revert: bool,
    d: DocModel,
    n: int,
) -> DocModel
    decreases n,
{
    if n <= 0 {
        d
    } else {
        commands[turn(commands.len() as int, revert, n - 1)].effect(
            after_steps(commands, revert, d, n - 1),
            revert,
        )
    }
}

/// Whether an entry was taken off the stack it is replayed from.
pub open spec fn taken(before: EditHistory, after: EditHistory, replay: Replay) -> bool {
    &&& if replay.revert {
        &&& before.undo@.len() > 0
        &&& replay.entry == before.undo@.last()
        &&& after.undo@ == before.undo@.drop_last()
        &&& after.redo@ == before.redo@
    } else {
        &&& before.redo@.len() > 0
        &&& replay.entry == before.redo@.last()
        &&& after.redo@ == before.redo@.drop_last()
        &&& after.undo@ == before.undo@
    }
    &&& after.open == before.open
    &&& after.depth == before.depth
    &&& after.limit == before.limit
    &&& after.byte_limit == before.byte_limit
}

impl Replay {
    /// The number of steps.
    pub fn len(&self) -> (r: usize)
        ensures
            r == self.entry.commands@.len(),
    {
        self.entry.commands.len()
    }

    /// Play step `n`. What the document does not carry out itself is handed
    /// back, and the host carries it out before the next step.
    pub fn step(&self, doc: &mut SceneDoc, n: usize) -> (r: Option<HostWork<'_>>)
        requires
            n < self.entry.commands.len(),
        ensures
            ({
                let cmd = self.entry.commands@[turn(
                    self.entry.commands@.len() as int,
                    self.revert,
                    n as int,
                )];
                &&& final(doc)@ == cmd.effect(old(doc)@, self.revert)
                &&& cmd.asks(r, self.revert)
            }),
            final(doc).history == old(doc).history,
    {
        if self.revert {
            self.entry.commands[self.entry.commands.len() - 1 - n].revert(doc)
        } else {
            self.entry.commands[n].apply(doc)
        }
    }
}

impl SceneDoc {
    /// Take the newest entry to undo it step by step.
    pub fn begin_undo(&mut self) -> (r: Option<Replay>)
        ensures
            final(self)@ == old(self)@,
            match r {
                Some(replay) => replay.revert && taken(old(self).history, final(self).history, replay),
                None => old(self).history.undo@.len() == 0 && old(self).history.same_stacks(
                    &final(self).history,
                ) && final(self).history.open == old(self).history.open && final(self).history.depth
                    == old(self).history.depth,
            },
    {
        match self.history.take_undo() {
            Some(entry) => Some(Replay { entry, revert: true }),
            None => None,
        }
    }

    /// Take the entry that was undone last to redo it step by step.
    pub fn begin_redo(&mut self) -> (r: Option<Replay>)
        ensures
            final(self)@ == old(self)@,
            match r {
                Some(replay) => !replay.revert && taken(
                    old(self).history,
                    final(self).history,
                    replay,
                ),
                None => old(self).history.redo@.len() == 0 && old(self).history.same_stacks(
                    &final(self).history,
                ) && final(self).history.open == old(self).history.open && final(self).history.depth
                    == old(self).history.depth,
            },
    {
        match self.history.take_redo() {
            Some(entry) => Some(Replay { entry, revert: false }),
            None => None,
        }
    }

    /// Put the entry on the other stack: what was undone can be redone, and what
    /// was redone can be undone.
    pub fn finish_replay(&mut self, replay: Replay)
        ensures
            final(self)@ == old(self)@,
            replay.revert ==> final(self).history.redo@ == old(self).history.redo@.push(
                replay.entry,
            ) && final(self).history.undo@ == old(self).history.undo@,
            !replay.revert ==> final(self).history.undo@ == old(self).history.undo@.push(
                replay.entry,
            ) && final(self).history.redo@ == old(self).history.redo@,
            final(self).history.open == old(self).history.open,
            final(self).history.depth == old(self).history.depth,
            final(self).history.limit == old(self).history.limit,
            final(self).history.byte_limit == old(self).history.byte_limit,
    {
        if replay.revert {
            self.history.push_redo(replay.entry);
        } else {
            self.history.push_undo(replay.entry);
        }
    }

    /// Play every step of an entry that the host has no part in.
    pub fn play(&mut self, replay: &Replay)
        requires
            replay.entry.is_own(),
        ensures
            final(self)@ == after_steps(
                replay.entry.commands@,
                replay.revert,
                old(self)@,
                replay.entry.commands@.len() as int,
            ),
            final(self).history == old(self).history,
    {
        let ghost start = self@;
        let ghost kept = self.history;
        let mut n: usize = 0;
        while n < replay.len()
            invariant
                n <= replay.entry.commands.len(),
                self@ == after_steps(replay.entry.commands@, replay.revert, start, n as int),
                self.history == kept,
                replay.entry.is_own(),
            decreases replay.entry.commands.len() - n,
        {
            let work = replay.step(self, n);
            assert(work is None);
            n = n + 1;
        }
    }
}

// ---------------------------------------------------------------- laws

/// The steps of an entry are its replay: they come to the same document, and
/// every command has its turn once, in order.
pub proof fn law_steps_are_the_replay(commands: Seq<EditCommand>, d: DocModel)
    ensures
        after_steps(commands, true, d, commands.len() as int) == edit::unplayed(commands, d),
        after_steps(commands, false, d, commands.len() as int) == edit::played(commands, d),
{
    lemma_steps_forward(commands, d, commands.len() as int);
    assert(commands.take(commands.len() as int) =~= commands);
    lemma_steps_back(commands, d, commands.len() as int);
    assert(commands.take(0) =~= Seq::<EditCommand>::empty());
}

proof fn lemma_steps_forward(commands: Seq<EditCommand>, d: DocModel, n: int)
    requires
        0 <= n <= commands.len(),
    ensures
        after_steps(commands, false, d, n) == edit::played(commands.take(n), d),
    decreases n,
{
    if n > 0 {
        lemma_steps_forward(commands, d, n - 1);
        assert(commands.take(n).drop_last() =~= commands.take(n - 1));
    } else {
        assert(commands.take(0) =~= Seq::<EditCommand>::empty());
    }
}

proof fn lemma_steps_back(commands: Seq<EditCommand>, d: DocModel, n: int)
    requires
        0 <= n <= commands.len(),
    ensures
        edit::unplayed(commands, d) == edit::unplayed(
            commands.take(commands.len() - n),
            after_steps(commands, true, d, n),
        ),
    decreases n,
{
    let left = commands.len() - n;
    if n > 0 {
        lemma_steps_back(commands, d, n - 1);
        assert(commands.take(left + 1).drop_last() =~= commands.take(left));
        assert(commands.take(left + 1).last() == commands[left]);
    } else {
        assert(commands.take(left) =~= commands);
    }
}

} // verus!
