//! The interactive typing session: a state machine over the target text,
//! the per-character correctness record and the logical cursor, together
//! with the translation of cursor motion to physical terminal coordinates.

use vstd::prelude::*;
use vstd::string::StrSliceExecFns;

use crate::result_eval::count_marks;
use crate::result_eval::lemma_count_uniform;
use crate::result_eval::spec_percentage_centi;
use crate::Mark;

verus! {

/// The phase a session is in.
#[derive(Clone, Copy, Debug, PartialEq, Eq, Structural)]
pub enum SessionState {
    /// The passage was just generated; nothing typed yet.
    Rendering,
    /// The steady state: waiting for the next key event.
    AwaitingInput,
    /// The session ended, by typing the whole passage or by an abort.
    Finished,
}

/// A key event, as the session sees it.  The caller reduces whatever its
/// event source produces (and only key presses, not releases) to this.
#[derive(Clone, Copy, Debug, PartialEq, Eq, Structural)]
pub enum KeyEvent {
    /// A printable character was typed.
    Character(char),
    /// The backspace key.
    Backspace,
    /// The escape key: abort the session.
    Escape,
    /// Any other key: ignored.
    Other,
}

/// What the caller must draw after a key event.  The visible text always
/// shows the target passage; only its styling changes.
#[derive(Clone, Copy, Debug, PartialEq, Eq, Structural)]
pub enum Action {
    /// Print the given target character, styled as correct (`true`) or
    /// incorrect (`false`), at the current physical cursor.
    Draw(char, bool),
    /// Move the physical cursor to the given column and row.
    MoveTo(u16, u16),
    /// Nothing to draw.
    Stay,
}

/// The mathematical model of a session.
#[verifier::ext_equal]
pub ghost struct SessionView {
    pub target: Seq<char>,
    pub record: Seq<Mark>,
    pub cursor: int,
    pub filled: int,
    pub state: SessionState,
}

impl SessionView {
    /// The invariant every session keeps: the record is as long as the
    /// target, the cursor never passes the high-water mark `filled`,
    /// every position below `filled` has been judged and every position
    /// from `filled` on has not.  While input is awaited the cursor has
    /// a character left to judge.
    pub open spec fn wf(self) -> bool {
        &&& self.record.len() == self.target.len()
        &&& 0 <= self.cursor <= self.filled <= self.target.len()
        &&& (forall|i: int| 0 <= i < self.filled ==> self.record[i] != Mark::Unset)
        &&& (forall|i: int| self.filled <= i < self.record.len() ==> self.record[i] == Mark::Unset)
        &&& (self.state is AwaitingInput ==> self.cursor < self.target.len())
    }
}

/// One character-key step: the position under the cursor is judged
/// against the target, the cursor advances, and the session finishes
/// when the last position was judged.
pub open spec fn spec_step_char(v: SessionView, c: char) -> SessionView {
    let mark = if c == v.target[v.cursor] {
        Mark::Correct
    } else {
        Mark::Incorrect
    };
    SessionView {
        target: v.target,
        record: v.record.update(v.cursor, mark),
        cursor: v.cursor + 1,
        filled: if v.cursor + 1 > v.filled {
            v.cursor + 1
        } else {
            v.filled
        },
        state: if v.cursor + 1 == v.target.len() {
            SessionState::Finished
        } else {
            SessionState::AwaitingInput
        },
    }
}

/// The session after a whole sequence of character-key events, one
/// [`spec_step_char`] per key.
pub open spec fn spec_type_seq(v: SessionView, keys: Seq<char>) -> SessionView
    decreases keys.len(),
{
    if keys.len() == 0 {
        v
    } else {
        spec_type_seq(spec_step_char(v, keys[0]), keys.drop_first())
    }
}

/// When every remaining character is typed exactly as the target text
/// asks and everything judged so far was correct, the session finishes
/// with every position judged correct and an accuracy of 100.00 %.
pub proof fn lemma_matching_keys_all_correct(v: SessionView, keys: Seq<char>)
    requires
        v.wf(),
        v.state is AwaitingInput,
        keys.len() == v.target.len() - v.cursor,
        forall|i: int| 0 <= i < keys.len() ==> keys[i] == v.target[v.cursor + i],
        forall|i: int| 0 <= i < v.cursor ==> v.record[i] == Mark::Correct,
    ensures
        spec_type_seq(v, keys).wf(),
        spec_type_seq(v, keys).state is Finished,
        spec_type_seq(v, keys).target == v.target,
        spec_type_seq(v, keys).cursor == v.target.len(),
        forall|i: int|
            0 <= i < spec_type_seq(v, keys).record.len() ==> spec_type_seq(v, keys).record[i]
                == Mark::Correct,
        count_marks(spec_type_seq(v, keys).record, Mark::Correct) == v.target.len(),
        count_marks(spec_type_seq(v, keys).record, Mark::Incorrect) == 0,
        spec_percentage_centi(
            count_marks(spec_type_seq(v, keys).record, Mark::Correct),
            count_marks(spec_type_seq(v, keys).record, Mark::Incorrect),
        ) == 10000,
    decreases keys.len(),
{
    let v1 = spec_step_char(v, keys[0]);
    let rest = keys.drop_first();
    let f = spec_type_seq(v, keys);
    assert(keys.len() >= 1);
    if keys.len() == 1 {
        assert(f == v1);
        assert forall|i: int| 0 <= i < f.record.len() implies f.record[i] == Mark::Correct by {}
        lemma_count_uniform(f.record, Mark::Correct);
        let n = v.target.len() as int;
        assert(n * 10000 / n == 10000) by (nonlinear_arith)
            requires
                n >= 1,
        ;
    } else {
        lemma_matching_keys_all_correct(v1, rest);
        assert(f == spec_type_seq(v1, rest));
    }
}

/// When every typed character mismatches the target at its position and
/// everything judged so far was incorrect, the session finishes with
/// every position judged incorrect and an accuracy of 0.00 %.
pub proof fn lemma_mismatching_keys_all_incorrect(v: SessionView, keys: Seq<char>)
    requires
        v.wf(),
        v.state is AwaitingInput,
        keys.len() == v.target.len() - v.cursor,
        forall|i: int| 0 <= i < keys.len() ==> keys[i] != v.target[v.cursor + i],
        forall|i: int| 0 <= i < v.cursor ==> v.record[i] == Mark::Incorrect,
    ensures
        spec_type_seq(v, keys).wf(),
        spec_type_seq(v, keys).state is Finished,
        spec_type_seq(v, keys).target == v.target,
        spec_type_seq(v, keys).cursor == v.target.len(),
        forall|i: int|
            0 <= i < spec_type_seq(v, keys).record.len() ==> spec_type_seq(v, keys).record[i]
                == Mark::Incorrect,
        count_marks(spec_type_seq(v, keys).record, Mark::Correct) == 0,
        count_marks(spec_type_seq(v, keys).record, Mark::Incorrect) == v.target.len(),
        spec_percentage_centi(
            count_marks(spec_type_seq(v, keys).record, Mark::Correct),
            count_marks(spec_type_seq(v, keys).record, Mark::Incorrect),
        ) == 0,
    decreases keys.len(),
{
    let v1 = spec_step_char(v, keys[0]);
    let rest = keys.drop_first();
    let f = spec_type_seq(v, keys);
    assert(keys.len() >= 1);
    if keys.len() == 1 {
        assert(f == v1);
        assert forall|i: int| 0 <= i < f.record.len() implies f.record[i] == Mark::Incorrect by {}
        lemma_count_uniform(f.record, Mark::Incorrect);
    } else {
        lemma_mismatching_keys_all_incorrect(v1, rest);
        assert(f == spec_type_seq(v1, rest));
    }
}

/// Where the physical cursor moves on backspace, given the terminal
/// width: left within the row, or to the last column of the row above
/// when the cursor sits at the left edge; nowhere at the top-left corner.
pub open spec fn spec_backspace_move(x: u16, y: u16, width: u16) -> Option<(u16, u16)> {
    if x >= 1 {
        Some(((x - 1) as u16, y))
    } else if y == 0 {
        None
    } else {
        Some(((width - 1) as u16, (y - 1) as u16))
    }
}

/// Decides the physical cursor motion for a backspace from the terminal's
/// reported cursor position `(x, y)` and the terminal width.
pub fn backspace_move(x: u16, y: u16, width: u16) -> (r: Option<(u16, u16)>)
    requires
        width >= 1,
    ensures
        r == spec_backspace_move(x, y, width),
{
    if x >= 1 {
        Some((x - 1, y))
    } else if y == 0 {
        None
    } else {
        Some((width - 1, y - 1))
    }
}

/// Maps a logical character index to the physical terminal position it
/// occupies when the passage is printed from the top-left corner and the
/// terminal auto-wraps at `width` columns.
pub fn logical_to_physical(index: usize, width: u16) -> (r: (u16, u16))
    requires
        width >= 1,
        index / (width as usize) <= u16::MAX,
    ensures
        r.0 == index as int % width as int,
        r.1 == index as int / width as int,
{
    let w = width as usize;
    let x = index % w;
    let y = index / w;
    (x as u16, y as u16)
}

/// An interactive typing session over a fixed target text.
pub struct Session {
    target: String,
    record: Vec<Mark>,
    cursor: usize,
    filled: usize,
    state: SessionState,
}

impl View for Session {
    type V = SessionView;

    closed spec fn view(&self) -> SessionView {
        SessionView {
            target: self.target@,
            record: self.record@,
            cursor: self.cursor as int,
            filled: self.filled as int,
            state: self.state,
        }
    }
}

impl Session {
    /// Starts a session on the given passage: nothing judged, the cursor
    /// at the first character, the passage still to be rendered.
    pub fn start(target: String) -> (s: Session)
        ensures
            s@.wf(),
            s@.target == target@,
            s@.record.len() == target@.len(),
            forall|i: int| 0 <= i < s@.record.len() ==> s@.record[i] == Mark::Unset,
            s@.cursor == 0,
            s@.filled == 0,
            s@.state == SessionState::Rendering,
    {
        let n = target.as_str().unicode_len();
        let mut record: Vec<Mark> = Vec::new();
        while record.len() < n
            invariant
                record.len() <= n,
                forall|i: int| 0 <= i < record.len() ==> record[i] == Mark::Unset,
            decreases n - record.len(),
        {
            record.push(Mark::Unset);
        }
        Session { target, record, cursor: 0, filled: 0, state: SessionState::Rendering }
    }

    /// Leaves the rendering phase once the caller has drawn the passage.
    /// An empty passage has nothing to judge, so the session finishes at
    /// once; otherwise it awaits input.
    pub fn begin(&mut self)
        requires
            old(self)@.wf(),
            old(self)@.state == SessionState::Rendering,
        ensures
            final(self)@.wf(),
            final(self)@.target == old(self)@.target,
            final(self)@.record == old(self)@.record,
            final(self)@.cursor == old(self)@.cursor,
            final(self)@.filled == old(self)@.filled,
            final(self)@.state == if old(self)@.cursor == old(self)@.target.len() {
                SessionState::Finished
            } else {
                SessionState::AwaitingInput
            },
    {
        if self.cursor == self.record.len() {
            self.state = SessionState::Finished;
        } else {
            self.state = SessionState::AwaitingInput;
        }
    }

    /// Consumes one key event while input is awaited and returns what to
    /// draw.  `(x, y)` is the physical cursor position the terminal
    /// reports at this moment and `width` its column count.
    ///
    /// A character key judges the position under the cursor and advances
    /// it; the action draws the target character (never the typed one)
    /// styled by the verdict.  Backspace is navigation only: it retreats
    /// the cursor without touching the record, and is a no-op at logical
    /// position zero or at the physical top-left corner.  Escape aborts.
    pub fn on_key(&mut self, key: KeyEvent, x: u16, y: u16, width: u16) -> (action: Action)
        requires
            old(self)@.wf(),
            old(self)@.state == SessionState::AwaitingInput,
            width >= 1,
        ensures
            final(self)@.wf(),
            match key {
                KeyEvent::Character(c) => {
                    &&& final(self)@ == spec_step_char(old(self)@, c)
                    &&& action == Action::Draw(
                        old(self)@.target[old(self)@.cursor],
                        c == old(self)@.target[old(self)@.cursor],
                    )
                },
                KeyEvent::Backspace => {
                    &&& final(self)@.target == old(self)@.target
                    &&& final(self)@.record == old(self)@.record
                    &&& final(self)@.filled == old(self)@.filled
                    &&& final(self)@.state == old(self)@.state
                    &&& if old(self)@.cursor == 0 || (x == 0 && y == 0) {
                        final(self)@.cursor == old(self)@.cursor && action == Action::Stay
                    } else {
                        &&& final(self)@.cursor == old(self)@.cursor - 1
                        &&& spec_backspace_move(x, y, width) matches Some(p) && action
                            == Action::MoveTo(p.0, p.1)
                    }
                },
                KeyEvent::Escape => {
                    &&& final(self)@ == (SessionView { state: SessionState::Finished, ..old(self)@ })
                    &&& action == Action::Stay
                },
                KeyEvent::Other => final(self)@ == old(self)@ && action == Action::Stay,
            },
    {
        match key {
            KeyEvent::Character(c) => {
                let expected = self.target.as_str().get_char(self.cursor);
                let correct = c == expected;
                let mark = if correct {
                    Mark::Correct
                } else {
                    Mark::Incorrect
                };
                self.record[self.cursor] = mark;
                let n = self.record.len();
                proof {
                    assert(self.cursor < n);
                }
                self.cursor = self.cursor + 1;
                if self.cursor > self.filled {
                    self.filled = self.cursor;
                }
                if self.cursor == n {
                    self.state = SessionState::Finished;
                }
                proof {
                    assert(self@ =~= spec_step_char(old(self)@, c));
                }
                Action::Draw(expected, correct)
            },
            KeyEvent::Backspace => {
                if self.cursor == 0 || (x == 0 && y == 0) {
                    Action::Stay
                } else {
                    self.cursor = self.cursor - 1;
                    match backspace_move(x, y, width) {
                        Some(p) => Action::MoveTo(p.0, p.1),
                        None => Action::Stay,
                    }
                }
            },
            KeyEvent::Escape => {
                self.state = SessionState::Finished;
                proof {
                    assert(self@ =~= (SessionView {
                        state: SessionState::Finished,
                        ..old(self)@
                    }));
                }
                Action::Stay
            },
            KeyEvent::Other => {
                proof {
                    assert(self@ =~= old(self)@);
                }
                Action::Stay
            },
        }
    }

    /// The logical cursor: the index of the next character to judge.
    pub fn cursor(&self) -> (r: usize)
        ensures
            r == self@.cursor,
    {
        self.cursor
    }

    /// The phase the session is in.
    pub fn state(&self) -> (r: SessionState)
        ensures
            r == self@.state,
    {
        self.state
    }

    /// The target passage.
    pub fn target_text(&self) -> (r: &String)
        ensures
            r@ == self@.target,
    {
        &self.target
    }

    /// The full correctness record, one mark per target character.
    pub fn record(&self) -> (r: &Vec<Mark>)
        ensures
            r@ == self@.record,
    {
        &self.record
    }

    /// The judged prefix of the record: the positions before the logical
    /// cursor, the only ones a finished session is evaluated on.
    pub fn filled_record(&self) -> (r: Vec<Mark>)
        requires
            self@.wf(),
        ensures
            r@ == self@.record.take(self@.cursor),
    {
        let mut out: Vec<Mark> = Vec::new();
        let mut i: usize = 0;
        while i < self.cursor
            invariant
                0 <= i <= self.cursor <= self.record.len(),
                out@ == self@.record.take(i as int),
                self@.wf(),
            decreases self.cursor - i,
        {
            out.push(self.record[i]);
            proof {
                assert(out@ =~= self@.record.take(i + 1));
            }
            i = i + 1;
        }
        out
    }
}

} // verus!
