//! The input editor: the line being typed and the cursor within it, counted
//! in whole characters.

use vstd::prelude::*;
use crate::chars::{char_is_control, is_control};
use crate::text::{chars_of, string_of};

verus! {

/// `s` without its control characters.
pub open spec fn printable(s: Seq<char>) -> Seq<char>
    decreases s.len(),
{
    if s.len() == 0 {
        s
    } else if is_control(s.last()) {
        printable(s.drop_last())
    } else {
        printable(s.drop_last()).push(s.last())
    }
}

/// A cursor movement.
#[derive(Clone, Copy, Debug, PartialEq, Eq, Structural)]
pub enum CursorMove {
    /// By so many characters, to the right if positive; the cursor stops at
    /// either end of the line.
    By(i64),
    /// To the start of the line.
    ToStart,
    /// To the end of the line.
    ToEnd,
}

/// The input line as a mathematical value.
pub ghost struct InputState {
    pub buffer: Seq<char>,
    pub cursor: nat,
}

impl InputState {
    /// The cursor lies within the line or just behind its last character.
    pub open spec fn wf(self) -> bool {
        self.cursor <= self.buffer.len()
    }

    /// The empty line.
    pub open spec fn empty() -> InputState {
        InputState { buffer: Seq::empty(), cursor: 0 }
    }

    /// `c` is inserted at the cursor, which moves behind it.
    pub open spec fn insert_char(self, c: char) -> InputState {
        InputState { buffer: self.buffer.insert(self.cursor as int, c), cursor: self.cursor + 1 }
    }

    /// The printable characters of `s` are inserted at the cursor, which
    /// moves behind them.
    pub open spec fn insert_text(self, s: Seq<char>) -> InputState {
        InputState {
            buffer: self.buffer.take(self.cursor as int) + printable(s) + self.buffer.skip(
                self.cursor as int,
            ),
            cursor: self.cursor + printable(s).len(),
        }
    }

    /// `c` is added at the end of the line and the cursor moves one place to
    /// the right.
    pub open spec fn append_char(self, c: char) -> InputState {
        InputState { buffer: self.buffer.push(c), cursor: self.cursor + 1 }
    }

    /// The character before the cursor is removed; nothing changes at the
    /// start of the line.
    pub open spec fn delete_before_cursor(self) -> InputState {
        if self.cursor > 0 {
            InputState {
                buffer: self.buffer.remove(self.cursor - 1),
                cursor: (self.cursor - 1) as nat,
            }
        } else {
            self
        }
    }

    /// The character at the cursor is removed; nothing changes at the end of
    /// the line.
    pub open spec fn delete_at_cursor(self) -> InputState {
        if self.cursor < self.buffer.len() {
            InputState { buffer: self.buffer.remove(self.cursor as int), ..self }
        } else {
            self
        }
    }

    /// The cursor is moved and stops at either end of the line.
    pub open spec fn move_cursor(self, m: CursorMove) -> InputState {
        match m {
            CursorMove::By(delta) => {
                let target = self.cursor + delta;
                let cursor = if target < 0 {
                    0
                } else if target > self.buffer.len() {
                    self.buffer.len()
                } else {
                    target as nat
                };
                InputState { cursor, ..self }
            },
            CursorMove::ToStart => InputState { cursor: 0, ..self },
            CursorMove::ToEnd => InputState { cursor: self.buffer.len(), ..self },
        }
    }

    /// The line is replaced by `text` and the cursor stands at its end.
    pub open spec fn replace(self, text: Seq<char>) -> InputState {
        InputState { buffer: text, cursor: text.len() }
    }
}

/// One editing step.
pub ghost enum Edit {
    InsertChar(char),
    InsertText(Seq<char>),
    AppendChar(char),
    DeleteBeforeCursor,
    DeleteAtCursor,
    MoveCursor(CursorMove),
    Replace(Seq<char>),
    Take,
}

impl InputState {
    /// The line after one editing step.
    pub open spec fn apply(self, e: Edit) -> InputState {
        match e {
            Edit::InsertChar(c) => self.insert_char(c),
            Edit::InsertText(s) => self.insert_text(s),
            Edit::AppendChar(c) => self.append_char(c),
            Edit::DeleteBeforeCursor => self.delete_before_cursor(),
            Edit::DeleteAtCursor => self.delete_at_cursor(),
            Edit::MoveCursor(m) => self.move_cursor(m),
            Edit::Replace(s) => self.replace(s),
            Edit::Take => InputState::empty(),
        }
    }

    /// The line after a sequence of editing steps, applied from first to
    /// last.
    pub open spec fn apply_all(self, edits: Seq<Edit>) -> InputState
        decreases edits.len(),
    {
        if edits.len() == 0 {
            self
        } else {
            self.apply_all(edits.drop_last()).apply(edits.last())
        }
    }
}

/// One editing step keeps the cursor within bounds.
pub proof fn lemma_apply_keeps_bounds(state: InputState, e: Edit)
    requires
        state.wf(),
    ensures
        state.apply(e).wf(),
{
}

/// A sequence of editing steps keeps the cursor within bounds.
pub proof fn lemma_apply_all_keeps_bounds(state: InputState, edits: Seq<Edit>)
    requires
        state.wf(),
    ensures
        state.apply_all(edits).wf(),
    decreases edits.len(),
{
    if edits.len() > 0 {
        lemma_apply_all_keeps_bounds(state, edits.drop_last());
        lemma_apply_keeps_bounds(state.apply_all(edits.drop_last()), edits.last());
    }
}

/// Whatever sequence of editing steps is applied to a line whose cursor is
/// within bounds, the cursor is within bounds after every step.
pub proof fn lemma_cursor_stays_in_bounds(state: InputState, edits: Seq<Edit>)
    requires
        state.wf(),
    ensures
        forall|k: int| 0 <= k <= edits.len() ==> (#[trigger] state.apply_all(edits.take(k))).wf(),
{
    assert forall|k: int| 0 <= k <= edits.len() implies (#[trigger] state.apply_all(
        edits.take(k),
    )).wf() by {
        lemma_apply_all_keeps_bounds(state, edits.take(k));
    }
}

/// The input line and its cursor.
pub struct InputEditor {
    buffer: Vec<char>,
    cursor: usize,
}

impl View for InputEditor {
    type V = InputState;

    closed spec fn view(&self) -> InputState {
        InputState { buffer: self.buffer@, cursor: self.cursor as nat }
    }
}

impl InputEditor {
    /// The cursor lies within the line or just behind its last character.
    pub open spec fn wf(&self) -> bool {
        self@.wf()
    }

    /// An empty line.
    pub fn new() -> (editor: InputEditor)
        ensures
            editor@ == InputState::empty(),
            editor.wf(),
    {
        InputEditor { buffer: Vec::new(), cursor: 0 }
    }

    /// Inserts `c` at the cursor.
    pub fn insert_char(&mut self, c: char)
        requires
            old(self).wf(),
        ensures
            final(self)@ == old(self)@.insert_char(c),
            final(self).wf(),
    {
        self.buffer.insert(self.cursor, c);
        assert(self.cursor < self.buffer.len());
        self.cursor += 1;
    }

    /// Inserts the printable characters of `s` at the cursor.
    pub fn insert_text(&mut self, s: &str)
        requires
            old(self).wf(),
        ensures
            final(self)@ == old(self)@.insert_text(s@),
            final(self).wf(),
    {
        let v = chars_of(s);
        let ghost start = old(self)@;
        let mut i: usize = 0;
        assert(start.buffer.take(start.cursor as int) + printable(v@.take(0)) + start.buffer.skip(
            start.cursor as int,
        ) =~= start.buffer);
        while i < v.len()
            invariant
                i <= v.len(),
                start.wf(),
                self.cursor == start.cursor + printable(v@.take(i as int)).len(),
                self.buffer@ == start.buffer.take(start.cursor as int) + printable(
                    v@.take(i as int),
                ) + start.buffer.skip(start.cursor as int),
            decreases v.len() - i,
        {
            let c = v[i];
            proof {
                assert(v@.take(i + 1).drop_last() =~= v@.take(i as int));
            }
            if !char_is_control(c) {
                let ghost before = self.buffer@;
                self.buffer.insert(self.cursor, c);
                assert(self.cursor < self.buffer.len());
                self.cursor += 1;
                assert(self.buffer@ =~= start.buffer.take(start.cursor as int) + printable(
                    v@.take(i + 1),
                ) + start.buffer.skip(start.cursor as int));
            }
            i += 1;
        }
        assert(v@.take(i as int) =~= v@);
    }

    /// Adds `c` at the end of the line and moves the cursor one place to the
    /// right.
    pub fn append_char(&mut self, c: char)
        requires
            old(self).wf(),
        ensures
            final(self)@ == old(self)@.append_char(c),
            final(self).wf(),
    {
        self.buffer.push(c);
        assert(self.cursor < self.buffer.len());
        self.cursor += 1;
    }

    /// Removes the character before the cursor, if there is one.
    pub fn delete_before_cursor(&mut self)
        requires
            old(self).wf(),
        ensures
            final(self)@ == old(self)@.delete_before_cursor(),
            final(self).wf(),
    {
        if self.cursor > 0 {
            let _ = self.buffer.remove(self.cursor - 1);
            self.cursor -= 1;
        }
    }

    /// Removes the character at the cursor, if there is one.
    pub fn delete_at_cursor(&mut self)
        requires
            old(self).wf(),
        ensures
            final(self)@ == old(self)@.delete_at_cursor(),
            final(self).wf(),
    {
        if self.cursor < self.buffer.len() {
            let _ = self.buffer.remove(self.cursor);
        }
    }

    /// Moves the cursor.
    pub fn move_cursor(&mut self, m: CursorMove)
        requires
            old(self).wf(),
        ensures
            final(self)@ == old(self)@.move_cursor(m),
            final(self).wf(),
    {
        match m {
            CursorMove::By(delta) => {
                let target: i128 = self.cursor as i128 + delta as i128;
                if target < 0 {
                    self.cursor = 0;
                } else if target > self.buffer.len() as i128 {
                    self.cursor = self.buffer.len();
                } else {
                    self.cursor = target as usize;
                }
            },
            CursorMove::ToStart => {
                self.cursor = 0;
            },
            CursorMove::ToEnd => {
                self.cursor = self.buffer.len();
            },
        }
    }

    /// Replaces the line by `text` and puts the cursor at its end.
    pub fn replace(&mut self, text: &str)
        ensures
            final(self)@ == old(self)@.replace(text@),
            final(self).wf(),
    {
        self.buffer = chars_of(text);
        self.cursor = self.buffer.len();
    }

    /// Hands out the line and leaves the editor empty.
    pub fn take(&mut self) -> (text: String)
        ensures
            text@ == old(self)@.buffer,
            final(self)@ == InputState::empty(),
            final(self).wf(),
    {
        let text = string_of(&self.buffer, 0, self.buffer.len());
        assert(self.buffer@.subrange(0, self.buffer@.len() as int) =~= self.buffer@);
        self.buffer = Vec::new();
        self.cursor = 0;
        text
    }

    /// The line as a string.
    pub fn text(&self) -> (text: String)
        ensures
            text@ == self@.buffer,
    {
        assert(self.buffer@.subrange(0, self.buffer@.len() as int) =~= self.buffer@);
        string_of(&self.buffer, 0, self.buffer.len())
    }

    /// The cursor's position: the number of characters before it.
    pub fn cursor(&self) -> (n: usize)
        ensures
            n == self@.cursor,
    {
        self.cursor
    }

    /// The number of characters in the line.
    pub fn len(&self) -> (n: usize)
        ensures
            n == self@.buffer.len(),
    {
        self.buffer.len()
    }
}

} // verus!
