//! The history of a document: what can be undone, what can be redone, and the
//! transaction that is open.
//!
//! The history is bounded twice, by the number of entries and by their
//! footprint. Whichever bound binds first drops the oldest entries; the newest
//! one is never dropped for its size.

use crate::scene::command;
use crate::scene::command::EditCommand;
use vstd::prelude::*;

verus! {

/// How many entries the history keeps.
pub const HISTORY_LIMIT: usize = 256;

/// How large the history may grow: 256 MiB.
pub const HISTORY_BYTE_LIMIT: usize = 268_435_456;

/// The commands of one entry, under the name the edit menu shows.
pub struct Transaction {
    pub label: String,
    pub commands: Vec<EditCommand>,
}

/// The footprints of the first `n` commands together.
pub open spec fn commands_cost(commands: Seq<EditCommand>, n: int) -> int
    decreases n,
{
    if n <= 0 {
        0
    } else {
        commands_cost(commands, n - 1) + commands[n - 1].cost()
    }
}

/// The number of bytes a label takes.
pub open spec fn label_bytes(label: Seq<char>) -> int {
    (vstd::utf8::encode_utf8(label).len() as usize) as int
}

impl Transaction {
    /// Whether the document itself carries every command out.
    pub open spec fn is_own(self) -> bool {
        forall|i: int| 0 <= i < self.commands@.len() ==> (#[trigger] self.commands@[i]).is_own()
    }

    /// Whether the host has a part in a command.
    pub fn needs_host(&self) -> (r: bool)
        ensures
            r == !self.is_own(),
    {
        let mut i: usize = 0;
        while i < self.commands.len()
            invariant
                i <= self.commands.len(),
                forall|j: int| 0 <= j < i ==> (#[trigger] self.commands@[j]).is_own(),
            decreases self.commands.len() - i,
        {
            if self.commands[i].needs_host() {
                assert(!self.commands@[i as int].is_own());
                return true;
            }
            i = i + 1;
        }
        false
    }

    /// The footprint of the entry: that of its label and of its commands.
    pub open spec fn cost(self) -> int {
        command::capped(
            label_bytes(self.label@) + commands_cost(self.commands@, self.commands@.len() as int),
        )
    }

    pub fn memory_bytes(&self) -> (r: usize)
        ensures
            r == self.cost(),
    {
        let mut total = self.label.as_str().len();
        let mut i: usize = 0;
        while i < self.commands.len()
            invariant
                i <= self.commands.len(),
                total == command::capped(
                    label_bytes(self.label@) + commands_cost(self.commands@, i as int),
                ),
            decreases self.commands.len() - i,
        {
            proof {
                lemma_commands_cost(self.commands@, i as int);
            }
            total = total.saturating_add(self.commands[i].memory_bytes());
            i = i + 1;
        }
        total
    }
}

proof fn lemma_commands_cost(commands: Seq<EditCommand>, n: int)
    ensures
        commands_cost(commands, n) >= 0,
    decreases n,
{
    if n > 0 {
        lemma_commands_cost(commands, n - 1);
        lemma_command_cost(commands[n - 1]);
    }
}

proof fn lemma_command_cost(c: EditCommand)
    ensures
        c.cost() >= 0,
{
    match c {
        EditCommand::CarveVoxels { holes, .. } => {
            lemma_holes_bytes(holes@, holes@.len() as int);
        },
        EditCommand::Delete { items, .. } => {},
        EditCommand::PaintFoliage { added, removed, instance_bytes, .. } => {
            let n = command::capped((added@.len() + removed@.len()) as int);
            assert(n * instance_bytes >= 0) by (nonlinear_arith)
                requires
                    n >= 0,
            ;
        },
        _ => {},
    }
}

proof fn lemma_holes_bytes(
    holes: Seq<(crate::guid::Guid, command::HoleDelta)>,
    n: int,
)
    ensures
        command::holes_bytes(holes, n) >= 0,
    decreases n,
{
    if n > 0 {
        lemma_holes_bytes(holes, n - 1);
    }
}

/// The footprints of the first `n` entries together.
pub open spec fn entries_cost(entries: Seq<Transaction>, n: int) -> int
    decreases n,
{
    if n <= 0 {
        0
    } else {
        entries_cost(entries, n - 1) + entries[n - 1].cost()
    }
}

/// The footprint of a whole stack.
pub open spec fn stack_cost(entries: Seq<Transaction>) -> int {
    entries_cost(entries, entries.len() as int)
}

proof fn lemma_entries_cost(entries: Seq<Transaction>, n: int)
    ensures
        entries_cost(entries, n) >= 0,
    decreases n,
{
    if n > 0 {
        lemma_entries_cost(entries, n - 1);
        let t = entries[n - 1];
        lemma_commands_cost(t.commands@, t.commands@.len() as int);
    }
}

/// The history of a document.
pub struct EditHistory {
    pub undo: Vec<Transaction>,
    pub redo: Vec<Transaction>,
    /// The transaction that is open.
    pub open: Option<Transaction>,
    /// How many times it was begun without being committed.
    pub depth: u32,
    pub limit: usize,
    pub byte_limit: usize,
}

/// The entries that stay under the byte limit: the oldest go first, and the
/// newest always stays.
pub open spec fn within_bytes(entries: Seq<Transaction>, byte_limit: int) -> Seq<Transaction>
    decreases entries.len(),
{
    if entries.len() > 1 && command::capped(stack_cost(entries)) > byte_limit {
        within_bytes(entries.drop_first(), byte_limit)
    } else {
        entries
    }
}

/// The entries that stay after one more was added.
pub open spec fn pushed(entries: Seq<Transaction>, t: Transaction, limit: int, byte_limit: int) -> Seq<
    Transaction,
> {
    let grown = entries.push(t);
    within_bytes(
        if grown.len() > limit {
            grown.drop_first()
        } else {
            grown
        },
        byte_limit,
    )
}

impl EditHistory {
    /// A transaction is open exactly while it was begun and not committed.
    pub open spec fn wf(&self) -> bool {
        self.open is Some <==> self.depth > 0
    }

    /// Whether a transaction is open exactly while it was begun and not
    /// committed.
    pub fn is_wf(&self) -> (r: bool)
        ensures
            r == self.wf(),
    {
        self.open.is_some() == (self.depth > 0)
    }

    /// Whether the document itself carries out what would be undone next.
    pub open spec fn undo_is_own(&self) -> bool {
        self.undo@.len() > 0 ==> self.undo@.last().is_own()
    }

    /// Whether the document itself carries out what would be redone next.
    pub open spec fn redo_is_own(&self) -> bool {
        self.redo@.len() > 0 ==> self.redo@.last().is_own()
    }

    /// Whether the host has a part in what would be undone next.
    pub fn undo_needs_host(&self) -> (r: bool)
        ensures
            r == !self.undo_is_own(),
    {
        self.undo.len() > 0 && self.undo[self.undo.len() - 1].needs_host()
    }

    /// Whether the host has a part in what would be redone next.
    pub fn redo_needs_host(&self) -> (r: bool)
        ensures
            r == !self.redo_is_own(),
    {
        self.redo.len() > 0 && self.redo[self.redo.len() - 1].needs_host()
    }

    /// Nothing to undo or redo, nothing open, the standard bounds.
    pub open spec fn is_fresh(&self) -> bool {
        &&& self.undo@.len() == 0
        &&& self.redo@.len() == 0
        &&& self.open is None
        &&& self.depth == 0
        &&& self.limit == HISTORY_LIMIT
        &&& self.byte_limit == HISTORY_BYTE_LIMIT
    }

    /// The history after an entry was added: nothing can be redone any more.
    pub open spec fn gained(&self, after: &EditHistory, t: Transaction) -> bool {
        &&& after.undo@ == pushed(self.undo@, t, self.limit as int, self.byte_limit as int)
        &&& after.redo@ == Seq::<Transaction>::empty()
        &&& after.limit == self.limit
        &&& after.byte_limit == self.byte_limit
    }

    /// The stacks and the bounds are the same.
    pub open spec fn same_stacks(&self, after: &EditHistory) -> bool {
        &&& after.undo@ == self.undo@
        &&& after.redo@ == self.redo@
        &&& after.limit == self.limit
        &&& after.byte_limit == self.byte_limit
    }

    /// What beginning a transaction comes to: one more level, and a fresh
    /// transaction where none was open.
    pub open spec fn begun(&self, after: &EditHistory, label: Seq<char>) -> bool {
        &&& after.depth == self.depth + 1
        &&& self.same_stacks(after)
        &&& match self.open {
            Some(_) => after.open == self.open,
            None => after.open matches Some(t) && t.label@ == label && t.commands@ == Seq::<
                EditCommand,
            >::empty(),
        }
    }

    /// What recording a command comes to: it joins the open transaction, or is
    /// an entry of its own under the label. Either way the history forks, and
    /// nothing can be redone any more.
    pub open spec fn recorded(&self, after: &EditHistory, label: Seq<char>, cmd: EditCommand) -> bool {
        &&& after.depth == self.depth
        &&& match self.open {
            Some(t) => {
                &&& after.undo@ == self.undo@
                &&& after.redo@ == Seq::<Transaction>::empty()
                &&& after.limit == self.limit
                &&& after.byte_limit == self.byte_limit
                &&& after.open matches Some(u) && u.label == t.label && u.commands@
                    == t.commands@.push(cmd)
            },
            None => {
                &&& after.open is None
                &&& exists|t: Transaction|
                    {
                        &&& #[trigger] self.gained(after, t)
                        &&& t.label@ == label
                        &&& t.commands@ == seq![cmd]
                    }
            },
        }
    }

    /// What closing the open transaction comes to: an entry, where it has
    /// commands.
    pub open spec fn closed(&self, after: &EditHistory) -> bool {
        &&& after.depth == 0
        &&& after.open is None
        &&& match self.open {
            Some(t) => if t.commands@.len() > 0 {
                self.gained(after, t)
            } else {
                self.same_stacks(after)
            },
            None => self.same_stacks(after),
        }
    }

    /// What a commit comes to: the outermost one closes the transaction, an
    /// inner one goes up a level.
    pub open spec fn committed(&self, after: &EditHistory) -> bool {
        if self.depth > 1 {
            &&& after.depth == self.depth - 1
            &&& after.open == self.open
            &&& self.same_stacks(after)
        } else {
            self.closed(after)
        }
    }

    pub fn can_undo(&self) -> (r: bool)
        ensures
            r == (self.undo@.len() > 0),
    {
        self.undo.len() > 0
    }

    pub fn can_redo(&self) -> (r: bool)
        ensures
            r == (self.redo@.len() > 0),
    {
        self.redo.len() > 0
    }

    pub fn undo_len(&self) -> (r: usize)
        ensures
            r == self.undo@.len(),
    {
        self.undo.len()
    }

    pub fn redo_len(&self) -> (r: usize)
        ensures
            r == self.redo@.len(),
    {
        self.redo.len()
    }

    /// The label of what would be undone next.
    pub fn undo_label(&self) -> (r: Option<&str>)
        ensures
            match r {
                Some(l) => self.undo@.len() > 0 && l@ == self.undo@.last().label@,
                None => self.undo@.len() == 0,
            },
    {
        let n = self.undo.len();
        if n == 0 {
            None
        } else {
            Some(self.undo[n - 1].label.as_str())
        }
    }

    /// The label of what would be redone next.
    pub fn redo_label(&self) -> (r: Option<&str>)
        ensures
            match r {
                Some(l) => self.redo@.len() > 0 && l@ == self.redo@.last().label@,
                None => self.redo@.len() == 0,
            },
    {
        let n = self.redo.len();
        if n == 0 {
            None
        } else {
            Some(self.redo[n - 1].label.as_str())
        }
    }

    /// Begin a transaction. One that is open already goes on, one level deeper.
    pub fn begin(&mut self, label: &str)
        requires
            old(self).wf(),
            old(self).depth < u32::MAX,
        ensures
            final(self).wf(),
            old(self).begun(final(self), label@),
    {
        if self.open.is_none() {
            self.open = Some(Transaction { label: label.to_owned(), commands: Vec::new() });
        }
        self.depth = self.depth + 1;
    }

    /// Record a command: in the open transaction, or as an entry of its own. A
    /// new edit forks the history, so nothing can be redone after it.
    pub fn record(&mut self, label: &str, cmd: EditCommand)
        requires
            old(self).wf(),
        ensures
            final(self).wf(),
            old(self).recorded(final(self), label@, cmd),
    {
        let mut open = self.open.take();
        match open {
            Some(mut t) => {
                t.commands.push(cmd);
                self.open = Some(t);
                self.redo = Vec::new();
            },
            None => {
                let mut commands: Vec<EditCommand> = Vec::new();
                commands.push(cmd);
                let t = Transaction { label: label.to_owned(), commands };
                proof {
                    assert(t.commands@ =~= seq![cmd]);
                }
                self.push(t);
                assert(old(self).gained(&*self, t));
            },
        }
    }

    /// Commit the transaction. Only the outermost commit closes it.
    pub fn commit(&mut self)
        requires
            old(self).wf(),
        ensures
            final(self).wf(),
            old(self).committed(final(self)),
    {
        if self.depth > 1 {
            self.depth = self.depth - 1;
            return;
        }
        self.depth = 0;
        match self.open.take() {
            Some(t) => {
                if t.commands.len() > 0 {
                    self.push(t);
                }
            },
            None => {},
        }
    }

    /// Whether a transaction is open.
    pub fn has_open(&self) -> (r: bool)
        ensures
            r == (self.open is Some),
    {
        self.open.is_some()
    }

    /// Close a transaction that was left open, however deep, and tell whether
    /// an entry came of it.
    pub fn settle_open(&mut self) -> (r: bool)
        requires
            old(self).wf(),
        ensures
            final(self).wf(),
            old(self).closed(final(self)),
            r == (old(self).open matches Some(t) && t.commands@.len() > 0),
    {
        self.depth = 0;
        match self.open.take() {
            Some(t) => {
                if t.commands.len() > 0 {
                    self.push(t);
                    true
                } else {
                    false
                }
            },
            None => false,
        }
    }

    /// The footprint of both stacks.
    pub fn memory_bytes(&self) -> (r: usize)
        ensures
            r == command::capped(stack_cost(self.undo@) + stack_cost(self.redo@)),
    {
        let mut total: usize = 0;
        let mut i: usize = 0;
        while i < self.undo.len()
            invariant
                i <= self.undo.len(),
                total == command::capped(entries_cost(self.undo@, i as int)),
            decreases self.undo.len() - i,
        {
            proof {
                lemma_entries_cost(self.undo@, i as int);
                lemma_entries_cost(self.undo@, i + 1);
            }
            total = total.saturating_add(self.undo[i].memory_bytes());
            i = i + 1;
        }
        let mut j: usize = 0;
        while j < self.redo.len()
            invariant
                j <= self.redo.len(),
                total == command::capped(stack_cost(self.undo@) + entries_cost(self.redo@, j as int)),
            decreases self.redo.len() - j,
        {
            proof {
                lemma_entries_cost(self.undo@, self.undo@.len() as int);
                lemma_entries_cost(self.redo@, j as int);
                lemma_entries_cost(self.redo@, j + 1);
            }
            total = total.saturating_add(self.redo[j].memory_bytes());
            j = j + 1;
        }
        total
    }

    /// Add an entry. What could be redone cannot be any more, and the oldest
    /// entries go while a bound is passed.
    fn push(&mut self, txn: Transaction)
        ensures
            old(self).gained(final(self), txn),
            final(self).open == old(self).open,
            final(self).depth == old(self).depth,
    {
        let ghost before = self.undo@;
        self.redo = Vec::new();
        self.undo.push(txn);
        if self.undo.len() > self.limit {
            self.undo.remove(0);
            proof {
                assert(self.undo@ =~= before.push(txn).drop_first());
            }
        }
        let ghost bounded = self.undo@;
        while self.undo.len() > 1 && self.memory_bytes() > self.byte_limit
            invariant
                self.redo@.len() == 0,
                within_bytes(bounded, self.byte_limit as int) == within_bytes(
                    self.undo@,
                    self.byte_limit as int,
                ),
                self.limit == old(self).limit,
                self.byte_limit == old(self).byte_limit,
                self.open == old(self).open,
                self.depth == old(self).depth,
            decreases self.undo.len(),
        {
            let ghost now = self.undo@;
            proof {
                assert(stack_cost(self.redo@) == 0);
            }
            self.undo.remove(0);
            proof {
                assert(self.undo@ =~= now.drop_first());
            }
        }
        proof {
            assert(stack_cost(self.redo@) == 0);
            assert(self.redo@ =~= Seq::<Transaction>::empty());
        }
    }

    /// Take the entry that is undone next.
    pub fn take_undo(&mut self) -> (r: Option<Transaction>)
        ensures
            match r {
                Some(t) => {
                    &&& old(self).undo@.len() > 0
                    &&& t == old(self).undo@.last()
                    &&& final(self).undo@ == old(self).undo@.drop_last()
                },
                None => old(self).undo@.len() == 0 && final(self).undo@ == old(self).undo@,
            },
            final(self).redo == old(self).redo,
            final(self).open == old(self).open,
            final(self).depth == old(self).depth,
            final(self).limit == old(self).limit,
            final(self).byte_limit == old(self).byte_limit,
    {
        self.undo.pop()
    }

    /// Take the entry that is redone next.
    pub fn take_redo(&mut self) -> (r: Option<Transaction>)
        ensures
            match r {
                Some(t) => {
                    &&& old(self).redo@.len() > 0
                    &&& t == old(self).redo@.last()
                    &&& final(self).redo@ == old(self).redo@.drop_last()
                },
                None => old(self).redo@.len() == 0 && final(self).redo@ == old(self).redo@,
            },
            final(self).undo == old(self).undo,
            final(self).open == old(self).open,
            final(self).depth == old(self).depth,
            final(self).limit == old(self).limit,
            final(self).byte_limit == old(self).byte_limit,
    {
        self.redo.pop()
    }

    /// An entry that was undone can be redone.
    pub fn push_redo(&mut self, txn: Transaction)
        ensures
            final(self).redo@ == old(self).redo@.push(txn),
            final(self).undo == old(self).undo,
            final(self).open == old(self).open,
            final(self).depth == old(self).depth,
            final(self).limit == old(self).limit,
            final(self).byte_limit == old(self).byte_limit,
    {
        self.redo.push(txn);
    }

    /// An entry that was redone can be undone.
    pub fn push_undo(&mut self, txn: Transaction)
        ensures
            final(self).undo@ == old(self).undo@.push(txn),
            final(self).redo == old(self).redo,
            final(self).open == old(self).open,
            final(self).depth == old(self).depth,
            final(self).limit == old(self).limit,
            final(self).byte_limit == old(self).byte_limit,
    {
        self.undo.push(txn);
    }

    /// Forget everything.
    pub fn clear(&mut self)
        ensures
            final(self).wf(),
            final(self).undo@.len() == 0,
            final(self).redo@.len() == 0,
            final(self).open is None,
            final(self).depth == 0,
            final(self).limit == old(self).limit,
            final(self).byte_limit == old(self).byte_limit,
    {
        self.undo = Vec::new();
        self.redo = Vec::new();
        self.open = None;
        self.depth = 0;
    }
}

impl Default for EditHistory {
    fn default() -> (r: EditHistory)
        ensures
            r.is_fresh(),
            r.wf(),
    {
        EditHistory {
            undo: Vec::new(),
            redo: Vec::new(),
            open: None,
            depth: 0,
            limit: HISTORY_LIMIT,
            byte_limit: HISTORY_BYTE_LIMIT,
        }
    }
}

// ---------------------------------------------------------------- laws

proof fn lemma_within_bytes(entries: Seq<Transaction>, byte_limit: int)
    ensures
        ({
            let kept = within_bytes(entries, byte_limit);
            &&& kept.len() <= entries.len()
            &&& entries.len() > 0 ==> kept.len() > 0
            &&& kept == entries.skip(entries.len() - kept.len())
            &&& kept.len() <= 1 || command::capped(stack_cost(kept)) <= byte_limit
        }),
    decreases entries.len(),
{
    if entries.len() > 1 && command::capped(stack_cost(entries)) > byte_limit {
        let rest = entries.drop_first();
        lemma_within_bytes(rest, byte_limit);
        let kept = within_bytes(rest, byte_limit);
        assert(rest.skip(rest.len() - kept.len()) =~= entries.skip(entries.len() - kept.len()));
    } else {
        assert(entries.skip(0) =~= entries);
    }
}

/// The history stays bounded: after an entry was added there are no more
/// entries than the limit allows, and they weigh no more than the byte limit
/// allows unless only one is left. The entries that stay are the newest ones, in
/// order, and the new entry is among them.
pub proof fn law_history_is_bounded(
    entries: Seq<Transaction>,
    t: Transaction,
    limit: int,
    byte_limit: int,
)
    requires
        limit >= 1,
        entries.len() <= limit,
    ensures
        ({
            let after = pushed(entries, t, limit, byte_limit);
            &&& 1 <= after.len() <= limit
            &&& after.last() == t
            &&& after == entries.push(t).skip(entries.len() + 1 - after.len())
            &&& after.len() == 1 || command::capped(stack_cost(after)) <= byte_limit
        }),
{
    let grown = entries.push(t);
    let bounded = if grown.len() > limit {
        grown.drop_first()
    } else {
        grown
    };
    lemma_within_bytes(bounded, byte_limit);
    let after = pushed(entries, t, limit, byte_limit);
    assert(bounded.last() == t);
    assert(after =~= grown.skip(grown.len() - after.len()));
    assert(after.last() == t);
}

/// Nested transactions are one entry: an inner begin and commit change nothing
/// but the level, and only the outermost commit closes.
pub proof fn law_nested_transactions_close_once(
    h: EditHistory,
    inner: EditHistory,
    back: EditHistory,
    label: Seq<char>,
)
    requires
        h.wf(),
        h.depth > 0,
        h.begun(&inner, label),
        inner.committed(&back),
    ensures
        back.depth == h.depth,
        back.open == h.open,
        h.same_stacks(&back),
{
}

/// While a transaction is open a recorded command is no entry yet, and what
/// could be redone no longer can be; the commit that closes it makes one entry
/// of all its commands.
pub proof fn law_a_transaction_is_one_entry(
    h: EditHistory,
    during: EditHistory,
    after: EditHistory,
    label: Seq<char>,
    cmd: EditCommand,
)
    requires
        h.wf(),
        h.depth == 1,
        h.recorded(&during, label, cmd),
        during.committed(&after),
    ensures
        during.undo@ == h.undo@,
        during.redo@.len() == 0,
        after.open is None,
        after.redo@.len() == 0,
        exists|t: Transaction|
            {
                &&& #[trigger] h.gained(&after, t)
                &&& t.label == h.open->0.label
                &&& t.commands@ == h.open->0.commands@.push(cmd)
            },
{
    let t = during.open->0;
    assert(during.gained(&after, t));
    assert(h.gained(&after, t));
}

/// Recording forks the history, inside a transaction as outside one.
pub proof fn law_recording_forks_the_history(
    h: EditHistory,
    after: EditHistory,
    label: Seq<char>,
    cmd: EditCommand,
)
    requires
        h.recorded(&after, label, cmd),
    ensures
        after.redo@.len() == 0,
{
}

/// A history whose stranded transaction was settled works again: the next
/// command is an entry of its own, the newest one.
pub proof fn law_a_settled_history_records_again(
    h: EditHistory,
    settled: EditHistory,
    after: EditHistory,
    label: Seq<char>,
    cmd: EditCommand,
)
    requires
        h.limit >= 1,
        h.closed(&settled),
        settled.recorded(&after, label, cmd),
    ensures
        after.open is None,
        after.undo@.len() > 0,
        after.undo@.last().commands@ == seq![cmd],
        after.undo@.last().label@ == label,
{
    let t = choose|t: Transaction|
        {
            &&& #[trigger] settled.gained(&after, t)
            &&& t.label@ == label
            &&& t.commands@ == seq![cmd]
        };
    let grown = settled.undo@.push(t);
    let bounded = if grown.len() > settled.limit {
        grown.drop_first()
    } else {
        grown
    };
    lemma_within_bytes(bounded, settled.byte_limit as int);
}

/// An edit that is small enough drops nothing: where neither bound is passed,
/// the new entry joins those that were there.
pub proof fn law_nothing_is_dropped_within_the_bounds(
    entries: Seq<Transaction>,
    t: Transaction,
    limit: int,
    byte_limit: int,
)
    requires
        entries.len() < limit,
        command::capped(stack_cost(entries.push(t))) <= byte_limit,
    ensures
        pushed(entries, t, limit, byte_limit) == entries.push(t),
{
}

/// An edit outside a transaction is an entry of its own: the newest one, with its
/// name and with that command alone, and the next to be undone.
pub proof fn law_an_edit_is_the_newest_entry(
    h: EditHistory,
    after: EditHistory,
    label: Seq<char>,
    cmd: EditCommand,
)
    requires
        h.open is None,
        h.limit >= 1,
        h.recorded(&after, label, cmd),
    ensures
        after.open is None,
        after.undo@.len() > 0,
        after.undo@.last().label@ == label,
        after.undo@.last().commands@.len() == 1,
        after.undo@.last().commands@[0] == cmd,
        after.redo@.len() == 0,
        after.undo@.len() <= h.undo@.len() + 1,
        forall|i: int|
            0 <= i < after.undo@.len() - 1 ==> (#[trigger] after.undo@[i]) == h.undo@[h.undo@.len() + 1
                - after.undo@.len() + i],
{
    let t = choose|t: Transaction|
        {
            &&& #[trigger] h.gained(&after, t)
            &&& t.label@ == label
            &&& t.commands@ == seq![cmd]
        };
    let grown = h.undo@.push(t);
    let bounded = if grown.len() > h.limit {
        grown.drop_first()
    } else {
        grown
    };
    lemma_within_bytes(bounded, h.byte_limit as int);
    let kept = after.undo@;
    assert(kept == within_bytes(bounded, h.byte_limit as int));
    assert forall|i: int| 0 <= i < kept.len() - 1 implies (#[trigger] kept[i]) == h.undo@[h.undo@.len() + 1
        - kept.len() + i] by {
        assert(kept[i] == bounded[bounded.len() - kept.len() + i]);
        assert(bounded[bounded.len() - kept.len() + i] == grown[grown.len() - kept.len() + i]);
    }
}

/// A transaction from its beginning to its end: while it is open nothing is added,
/// and at its end all that was recorded in it, in order, is one entry under the name
/// it was begun with. One in which nothing was recorded leaves no entry.
pub proof fn law_a_transaction_gathers_its_commands(
    h: EditHistory,
    begun: EditHistory,
    first: EditHistory,
    second: EditHistory,
    after: EditHistory,
    label: Seq<char>,
    a: EditCommand,
    b: EditCommand,
    empty: EditHistory,
)
    requires
        h.open is None,
        h.depth == 0,
        h.limit >= 1,
        h.begun(&begun, label),
        begun.recorded(&first, label, a),
        first.recorded(&second, label, b),
        second.committed(&after),
        begun.committed(&empty),
    ensures
        first.undo@ == h.undo@,
        second.undo@ == h.undo@,
        after.open is None,
        after.undo@.len() > 0,
        after.undo@.last().label@ == label,
        after.undo@.last().commands@ == seq![a, b],
        empty.undo@ == h.undo@,
        empty.redo@ == h.redo@,
        empty.open is None,
{
    let t = second.open->0;
    let grown = second.undo@.push(t);
    let bounded = if grown.len() > second.limit {
        grown.drop_first()
    } else {
        grown
    };
    lemma_within_bytes(bounded, second.byte_limit as int);
    assert(t.commands@ =~= seq![a, b]);
}

/// A new history holds nothing and keeps 256 entries, and 256 mebibytes of them.
pub proof fn law_a_new_history_is_empty(h: EditHistory)
    requires
        h.is_fresh(),
    ensures
        h.undo@.len() == 0,
        h.redo@.len() == 0,
        h.open is None,
        h.depth == 0,
        h.limit == 256,
        h.byte_limit == 256 * 1024 * 1024,
{
}

proof fn lemma_dropped_would_not_fit(entries: Seq<Transaction>, byte_limit: int, m: int)
    requires
        within_bytes(entries, byte_limit).len() < m <= entries.len(),
    ensures
        m > 1,
        command::capped(stack_cost(entries.skip(entries.len() - m))) > byte_limit,
    decreases entries.len(),
{
    lemma_within_bytes(entries, byte_limit);
    if m == entries.len() {
        assert(entries.skip(0) =~= entries);
    } else {
        let rest = entries.drop_first();
        lemma_dropped_would_not_fit(rest, byte_limit, m);
        assert(rest.skip(rest.len() - m) =~= entries.skip(entries.len() - m));
    }
}

/// No more of the history goes than has to: any longer run of the newest entries
/// would have been too many, or would have weighed more than the byte limit.
pub proof fn law_no_more_is_dropped_than_has_to_be(
    entries: Seq<Transaction>,
    t: Transaction,
    limit: int,
    byte_limit: int,
    m: int,
)
    requires
        limit >= 1,
        entries.len() <= limit,
        pushed(entries, t, limit, byte_limit).len() < m <= entries.len() + 1,
    ensures
        m > limit || command::capped(stack_cost(entries.push(t).skip(entries.len() + 1 - m)))
            > byte_limit,
{
    let grown = entries.push(t);
    if grown.len() > limit {
        if m <= limit {
            lemma_dropped_would_not_fit(grown.drop_first(), byte_limit, m);
            assert(grown.drop_first().skip(grown.len() - 1 - m) =~= grown.skip(grown.len() - m));
        }
    } else {
        lemma_dropped_would_not_fit(grown, byte_limit, m);
    }
}

proof fn lemma_commands_are_the_sum(commands: Seq<EditCommand>, n: int)
    requires
        0 <= n <= commands.len(),
    ensures
        commands_cost(commands, n) == commands.take(n).fold_left(
            0int,
            |sum: int, c: EditCommand| sum + c.cost(),
        ),
    decreases n,
{
    if n > 0 {
        lemma_commands_are_the_sum(commands, n - 1);
        assert(commands.take(n).drop_last() =~= commands.take(n - 1));
        assert(commands.take(n).last() == commands[n - 1]);
    }
}

proof fn lemma_entries_are_the_sum(entries: Seq<Transaction>, n: int)
    requires
        0 <= n <= entries.len(),
    ensures
        entries_cost(entries, n) == entries.take(n).fold_left(
            0int,
            |sum: int, t: Transaction| sum + t.cost(),
        ),
    decreases n,
{
    if n > 0 {
        lemma_entries_are_the_sum(entries, n - 1);
        assert(entries.take(n).drop_last() =~= entries.take(n - 1));
        assert(entries.take(n).last() == entries[n - 1]);
    }
}

/// What the entries of a history weigh: each as much as its label in bytes and its
/// commands together, up to the largest number of the machine's word; and a stack as
/// much as its entries together.
pub proof fn law_what_a_history_weighs(entries: Seq<Transaction>, t: Transaction)
    ensures
        stack_cost(entries) == entries.fold_left(0int, |sum: int, e: Transaction| sum + e.cost()),
        ({
            let all = (vstd::utf8::encode_utf8(t.label@).len() as usize) + t.commands@.fold_left(
                0int,
                |sum: int, c: EditCommand| sum + c.cost(),
            );
            t.cost() == (if all <= usize::MAX {
                all
            } else {
                usize::MAX as int
            })
        }),
{
    lemma_entries_are_the_sum(entries, entries.len() as int);
    assert(entries.take(entries.len() as int) =~= entries);
    lemma_commands_are_the_sum(t.commands@, t.commands@.len() as int);
    assert(t.commands@.take(t.commands@.len() as int) =~= t.commands@);
}

} // verus!
