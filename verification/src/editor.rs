//! The editing session: which entry of a partition table to ask about
//! next, what an answer does to the table, and whether the table has to be
//! written back at the end.
//!
//! The session makes the decisions and nothing else. Its caller puts the
//! question to the user, reads a line, hands the line to
//! [`Editor::answer`], and performs the [`Action`] that comes back.

use vstd::prelude::*;
use crate::answer::{resolve, resolved};
use crate::attributes::{
    is_read_only,
    lemma_flag_is_what_was_written,
    lemma_other_bits_are_kept,
    lemma_same_state_is_identity,
    read_only,
    set_read_only,
    with_read_only,
    READ_ONLY,
};
use crate::error::Error;
use crate::table::{partition, partition_count, set_partition_attribute_bits, table_entries};

verus! {

/// What the caller of a session has to do next.
#[derive(Debug, Clone, Copy, PartialEq, Eq, Structural)]
pub enum Action {
    /// Ask whether entry `number` (counted from 1) shall be read-only, and
    /// offer `default`, the state it has now, for an empty answer.
    Ask { number: u32, default: bool },
    /// Every entry is resolved and at least one has changed: write the
    /// whole table back, once.
    WriteBack,
    /// Every entry is resolved and none has changed: there is nothing to
    /// write.
    Finish,
}

/// A session as the contracts see it.
pub struct Session {
    /// The entries of the table, each as (unused, attribute field).
    pub entries: Seq<(bool, u64)>,
    /// Index of the entry that awaits an answer; the number of entries
    /// once every entry is resolved.
    pub pos: int,
    /// Whether an answer has changed an entry.
    pub dirty: bool,
}

/// Index of the first entry at or after `from` that is in use; the number
/// of entries where there is none.
pub open spec fn next_used(entries: Seq<(bool, u64)>, from: int) -> int
    decreases entries.len() - from,
{
    if from >= entries.len() {
        entries.len() as int
    } else if !entries[from].0 {
        from
    } else {
        next_used(entries, from + 1)
    }
}

impl Session {
    /// The session at its start: nothing changed, and the first entry in
    /// use awaits its answer.
    pub open spec fn start(entries: Seq<(bool, u64)>) -> Session {
        Session { entries, pos: next_used(entries, 0), dirty: false }
    }

    /// What holds of a session from its start on: the table has no more
    /// entries than can be numbered, and the entry that awaits an answer,
    /// if there is one, is in use.
    pub open spec fn well_formed(self) -> bool {
        &&& self.entries.len() <= u32::MAX
        &&& 0 <= self.pos <= self.entries.len()
        &&& self.pos < self.entries.len() ==> !self.entries[self.pos].0
    }

    /// Whether an entry awaits an answer.
    pub open spec fn awaiting(self) -> bool {
        0 <= self.pos < self.entries.len()
    }

    /// The state of the entry that awaits an answer.
    pub open spec fn current(self) -> bool {
        is_read_only(self.entries[self.pos].1)
    }

    /// What the caller has to do in this state.
    pub open spec fn action(self) -> Action {
        if self.awaiting() {
            Action::Ask { number: (self.pos + 1) as u32, default: self.current() }
        } else if self.dirty {
            Action::WriteBack
        } else {
            Action::Finish
        }
    }

    /// The session after the line `line` was read.
    ///
    /// A line that is no answer leaves the session as it is, so the same
    /// question is put again. An answer sets the flag of the awaiting
    /// entry, marks the session dirty if that changed the flag, and moves
    /// on to the next entry in use. Once every entry is resolved, lines
    /// change nothing.
    pub open spec fn step(self, line: Seq<char>) -> Session {
        if !self.awaiting() {
            self
        } else {
            match resolved(line, self.current()) {
                None => self,
                Some(state) => Session {
                    entries: self.entries.update(
                        self.pos,
                        (self.entries[self.pos].0, with_read_only(self.entries[self.pos].1, state)),
                    ),
                    pos: next_used(self.entries, self.pos + 1),
                    dirty: self.dirty || state != self.current(),
                },
            }
        }
    }

    /// The session after the lines `lines` were read, one after the other.
    pub open spec fn run(self, lines: Seq<Seq<char>>) -> Session
        decreases lines.len(),
    {
        if lines.len() == 0 {
            self
        } else {
            self.step(lines[0]).run(lines.drop_first())
        }
    }

    /// Whether `line`, read in this state, asks for no change: it is no
    /// answer, or it resolves to the state that the awaiting entry has.
    pub open spec fn confirms(self, line: Seq<char>) -> bool {
        self.awaiting() ==> resolved(line, self.current()) != Some(!self.current())
    }

    /// Whether each of `lines`, read one after the other from this state
    /// on, asks for no change.
    pub open spec fn all_confirm(self, lines: Seq<Seq<char>>) -> bool
        decreases lines.len(),
    {
        lines.len() > 0 ==> self.confirms(lines[0]) && self.step(lines[0]).all_confirm(
            lines.drop_first(),
        )
    }

    /// Whether this session can have come from a clean session over
    /// `initial`: entries from the awaiting one on are as they were, and
    /// the session is dirty exactly if the table differs from `initial`.
    pub open spec fn tracks(self, initial: Seq<(bool, u64)>) -> bool {
        &&& self.well_formed()
        &&& self.entries.len() == initial.len()
        &&& forall|i: int| self.pos <= i < initial.len() ==> self.entries[i] == initial[i]
        &&& self.dirty <==> self.entries != initial
    }

    /// Whether the entries of this session differ from `initial` in
    /// nothing but the read-only flag of entries in use.
    pub open spec fn differs_in_flags_only(self, initial: Seq<(bool, u64)>) -> bool {
        &&& self.entries.len() == initial.len()
        &&& forall|i: int|
            0 <= i < initial.len() ==> {
                &&& (#[trigger] self.entries[i]).0 == initial[i].0
                &&& self.entries[i].1 & !READ_ONLY == initial[i].1 & !READ_ONLY
                &&& initial[i].0 ==> self.entries[i] == initial[i]
            }
    }
}

/// The message of the error that ends a session whose input has ended.
pub open spec fn end_of_input() -> Seq<char> {
    "end of input"@
}

/// An editing session over a partition table.
pub struct Editor {
    table: gptman::GPT,
    count: u32,
    pos: u32,
    dirty: bool,
}

impl View for Editor {
    type V = Session;

    closed spec fn view(&self) -> Session {
        Session { entries: table_entries(self.table), pos: self.pos as int, dirty: self.dirty }
    }
}

/// The first entry in use at or after index `from`.
fn skip_unused(table: &gptman::GPT, count: u32, from: u32) -> (pos: u32)
    requires
        count == table_entries(*table).len(),
        from <= count,
    ensures
        pos == next_used(table_entries(*table), from as int),
        from <= pos <= count,
        pos < count ==> !table_entries(*table)[pos as int].0,
{
    let mut pos: u32 = from;
    while pos < count && partition(table, pos + 1).0
        invariant
            count == table_entries(*table).len(),
            from <= pos <= count,
            next_used(table_entries(*table), from as int) == next_used(
                table_entries(*table),
                pos as int,
            ),
        decreases count - pos,
    {
        pos += 1;
    }
    pos
}

impl Editor {
    /// What holds of every session that [`Editor::new`] has made, whatever
    /// lines it was given since: see [`Session::well_formed`].
    pub closed spec fn well_formed(&self) -> bool {
        &&& self@.well_formed()
        &&& self.count == table_entries(self.table).len()
    }

    /// Starts a session over `table`.
    pub fn new(table: gptman::GPT) -> (editor: Editor)
        ensures
            editor.well_formed(),
            editor@ == Session::start(table_entries(table)),
    {
        let count = partition_count(&table);
        let pos = skip_unused(&table, count, 0);
        Editor { table, count, pos, dirty: false }
    }

    /// What the caller has to do now.
    pub fn action(&self) -> (action: Action)
        requires
            self.well_formed(),
        ensures
            action == self@.action(),
    {
        if self.pos < self.count {
            let bits = partition(&self.table, self.pos + 1).1;
            Action::Ask { number: self.pos + 1, default: read_only(bits) }
        } else if self.dirty {
            Action::WriteBack
        } else {
            Action::Finish
        }
    }

    /// Takes the next line of input, or `None` where the input has ended,
    /// and says what to do next.
    ///
    /// A line moves the session on by one [`Session::step`]. The end of the
    /// input while an entry still awaits its answer is an error, and leaves
    /// the session as it is.
    pub fn answer(&mut self, line: Option<&str>) -> (result: Result<Action, Error>)
        requires
            old(self).well_formed(),
        ensures
            final(self).well_formed(),
            match line {
                Some(text) => {
                    &&& final(self)@ == old(self)@.step(text@)
                    &&& result == Ok::<Action, Error>(final(self)@.action())
                },
                None => {
                    &&& final(self)@ == old(self)@
                    &&& if old(self)@.awaiting() {
                        result is Err && result->Err_0@ == end_of_input()
                    } else {
                        result == Ok::<Action, Error>(old(self)@.action())
                    }
                },
            },
    {
        if self.pos >= self.count {
            return Ok(self.action());
        }
        let text = match line {
            Some(text) => text,
            None => {
                return Err(Error::from("end of input"));
            },
        };
        let number = self.pos + 1;
        let bits = partition(&self.table, number).1;
        let current = read_only(bits);
        match resolve(text, current) {
            None => {},
            Some(state) => {
                let ghost before = table_entries(self.table);
                if state != current {
                    let flipped = set_read_only(bits, state);
                    set_partition_attribute_bits(&mut self.table, number, flipped);
                    self.dirty = true;
                } else {
                    proof {
                        lemma_same_state_is_identity(bits);
                        assert(before.update(self.pos as int, (before[self.pos as int].0, bits))
                            =~= before);
                    }
                }
                proof {
                    lemma_next_used_ignores_attributes(
                        before,
                        table_entries(self.table),
                        number as int,
                    );
                }
                self.pos = skip_unused(&self.table, self.count, number);
            },
        }
        Ok(self.action())
    }

    /// Whether an answer has changed an entry so far.
    pub fn is_dirty(&self) -> (dirty: bool)
        ensures
            dirty == self@.dirty,
    {
        self.dirty
    }

    /// The table as the answers so far have left it.
    pub fn table(&self) -> (table: &gptman::GPT)
        ensures
            table_entries(*table) == self@.entries,
    {
        &self.table
    }

    /// Ends the session and hands the table back.
    pub fn into_table(self) -> (table: gptman::GPT)
        ensures
            table_entries(table) == self@.entries,
    {
        self.table
    }
}

/// The next entry in use lies at or after where the search starts, and is
/// in use.
pub proof fn lemma_next_used_is_used(entries: Seq<(bool, u64)>, from: int)
    requires
        0 <= from <= entries.len(),
    ensures
        from <= next_used(entries, from) <= entries.len(),
        next_used(entries, from) < entries.len() ==> !entries[next_used(entries, from)].0,
        forall|i: int| from <= i < next_used(entries, from) ==> entries[i].0,
    decreases entries.len() - from,
{
    if from < entries.len() && entries[from].0 {
        lemma_next_used_is_used(entries, from + 1);
    }
}

/// A session is well formed at its start.
pub proof fn lemma_start_is_well_formed(entries: Seq<(bool, u64)>)
    requires
        entries.len() <= u32::MAX,
    ensures
        Session::start(entries).well_formed(),
        Session::start(entries).tracks(entries),
        Session::start(entries).differs_in_flags_only(entries),
{
    lemma_next_used_is_used(entries, 0);
}

/// A line leaves a well-formed session well formed, moves it forward or
/// not at all, and changes at most the read-only flag of the entry that
/// awaited an answer.
pub proof fn lemma_step_keeps_well_formed(session: Session, line: Seq<char>)
    requires
        session.well_formed(),
    ensures
        session.step(line).well_formed(),
        session.pos <= session.step(line).pos,
        session.step(line).differs_in_flags_only(session.entries),
        forall|i: int|
            0 <= i < session.entries.len() && i != session.pos ==> session.step(line).entries[i]
                == session.entries[i],
{
    let after = session.step(line);
    if session.awaiting() {
        let bits = session.entries[session.pos].1;
        match resolved(line, session.current()) {
            None => {},
            Some(state) => {
                lemma_other_bits_are_kept(bits, state);
                lemma_next_used_is_used(session.entries, session.pos + 1);
                lemma_next_used_ignores_attributes(
                    session.entries,
                    after.entries,
                    session.pos + 1,
                );
            },
        }
    }
}

/// Through any lines, a session changes nothing in its table but the
/// read-only flag of entries in use: every other bit of every attribute
/// field stays, and an unused entry stays whole.
pub proof fn lemma_run_changes_flags_only(session: Session, lines: Seq<Seq<char>>)
    requires
        session.well_formed(),
    ensures
        session.run(lines).well_formed(),
        session.run(lines).differs_in_flags_only(session.entries),
    decreases lines.len(),
{
    if lines.len() > 0 {
        let next = session.step(lines[0]);
        lemma_step_keeps_well_formed(session, lines[0]);
        lemma_run_changes_flags_only(next, lines.drop_first());
        let last = next.run(lines.drop_first());
        assert forall|i: int| 0 <= i < session.entries.len() implies {
            &&& (#[trigger] last.entries[i]).0 == session.entries[i].0
            &&& last.entries[i].1 & !READ_ONLY == session.entries[i].1 & !READ_ONLY
            &&& session.entries[i].0 ==> last.entries[i] == session.entries[i]
        } by {
            assert(next.entries[i].0 == session.entries[i].0);
        }
    }
}

/// A line keeps the tie between the dirty mark and the table: after it,
/// the session is dirty exactly if its table differs from the one the
/// session started with.
proof fn lemma_step_keeps_track(session: Session, initial: Seq<(bool, u64)>, line: Seq<char>)
    requires
        session.tracks(initial),
    ensures
        session.step(line).tracks(initial),
{
    let after = session.step(line);
    lemma_step_keeps_well_formed(session, line);
    if session.awaiting() {
        let bits = session.entries[session.pos].1;
        match resolved(line, session.current()) {
            None => {},
            Some(state) => {
                lemma_flag_is_what_was_written(bits, state);
                lemma_same_state_is_identity(bits);
                lemma_next_used_is_used(session.entries, session.pos + 1);
                if state == session.current() {
                    assert(after.entries =~= session.entries);
                } else {
                    assert(after.entries[session.pos] != initial[session.pos]);
                }
            },
        }
    }
}

/// Whatever lines a session has read, it is dirty exactly if its table
/// differs from the table it started with: the table is written back if
/// and only if an entry has changed.
pub proof fn lemma_dirty_exactly_if_changed(entries: Seq<(bool, u64)>, lines: Seq<Seq<char>>)
    requires
        entries.len() <= u32::MAX,
    ensures
        Session::start(entries).run(lines).dirty <==> Session::start(entries).run(lines).entries
            != entries,
{
    lemma_start_is_well_formed(entries);
    lemma_run_keeps_track(Session::start(entries), entries, lines);
}

proof fn lemma_run_keeps_track(
    session: Session,
    initial: Seq<(bool, u64)>,
    lines: Seq<Seq<char>>,
)
    requires
        session.tracks(initial),
    ensures
        session.run(lines).tracks(initial),
    decreases lines.len(),
{
    if lines.len() > 0 {
        lemma_step_keeps_track(session, initial, lines[0]);
        lemma_run_keeps_track(session.step(lines[0]), initial, lines.drop_first());
    }
}

/// A line that asks for no change leaves the table and the dirty mark as
/// they are.
proof fn lemma_confirming_step_changes_nothing(session: Session, line: Seq<char>)
    requires
        session.confirms(line),
    ensures
        session.step(line).entries == session.entries,
        session.step(line).dirty == session.dirty,
{
    if session.awaiting() {
        lemma_same_state_is_identity(session.entries[session.pos].1);
        assert(session.step(line).entries =~= session.entries);
    }
}

proof fn lemma_confirming_run_changes_nothing(
    session: Session,
    lines: Seq<Seq<char>>,
    read: int,
)
    requires
        session.all_confirm(lines),
        0 <= read <= lines.len(),
    ensures
        session.run(lines.take(read)).entries == session.entries,
        session.run(lines.take(read)).dirty == session.dirty,
    decreases read,
{
    if read > 0 {
        let head = lines.take(read);
        assert(head[0] == lines[0]);
        assert(head.drop_first() =~= lines.drop_first().take(read - 1));
        lemma_confirming_step_changes_nothing(session, lines[0]);
        lemma_confirming_run_changes_nothing(session.step(lines[0]), lines.drop_first(), read - 1);
    }
}

/// If every answer resolves to the state that its entry already has, then
/// at no point of the session, after however many of the lines, is the
/// session dirty, is the table other than it was, or is the caller told to
/// write the table back.
pub proof fn lemma_confirming_answers_never_write(
    entries: Seq<(bool, u64)>,
    lines: Seq<Seq<char>>,
    read: int,
)
    requires
        Session::start(entries).all_confirm(lines),
        0 <= read <= lines.len(),
    ensures
        !Session::start(entries).run(lines.take(read)).dirty,
        Session::start(entries).run(lines.take(read)).entries == entries,
        Session::start(entries).run(lines.take(read)).action() != Action::WriteBack,
{
    lemma_confirming_run_changes_nothing(Session::start(entries), lines, read);
}

/// Which entry comes next depends on which entries are in use, not on
/// their attribute fields.
proof fn lemma_next_used_ignores_attributes(a: Seq<(bool, u64)>, b: Seq<(bool, u64)>, from: int)
    requires
        a.len() == b.len(),
        forall|i: int| 0 <= i < a.len() ==> a[i].0 == b[i].0,
        0 <= from,
    ensures
        next_used(a, from) == next_used(b, from),
    decreases a.len() - from,
{
    if from < a.len() && a[from].0 {
        lemma_next_used_ignores_attributes(a, b, from + 1);
    }
}

} // verus!
