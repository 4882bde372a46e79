//! The transcript: a bounded log of rendered lines that drops its oldest
//! lines first.

use vstd::prelude::*;
use std::collections::VecDeque;

verus! {

/// What a transcript line is: program output, an echoed input line, or a
/// prompt.
#[derive(Clone, Copy, Debug, PartialEq, Eq, Structural)]
pub enum LineRole {
    Output,
    Input,
    Prompt,
}

/// A transcript line as a mathematical value.
pub ghost struct Line {
    pub text: Seq<char>,
    pub role: LineRole,
}

/// The last `n` elements of `s`, or all of `s` if it has fewer.
pub open spec fn keep_last<A>(s: Seq<A>, n: nat) -> Seq<A> {
    if s.len() > n {
        s.skip(s.len() - n)
    } else {
        s
    }
}

/// A transcript as a mathematical value: its lines, oldest first, and the
/// most lines it may hold.
pub ghost struct Transcript {
    pub lines: Seq<Line>,
    pub capacity: nat,
}

impl Transcript {
    /// The transcript holds no more lines than its capacity.
    pub open spec fn wf(self) -> bool {
        self.lines.len() <= self.capacity
    }

    /// The transcript after `line` is appended: the oldest lines leave until
    /// the capacity is met.
    pub open spec fn append(self, line: Line) -> Transcript {
        Transcript { lines: keep_last(self.lines.push(line), self.capacity), ..self }
    }

    /// The transcript after each of `lines` is appended in turn.
    pub open spec fn append_all(self, lines: Seq<Line>) -> Transcript
        decreases lines.len(),
    {
        if lines.len() == 0 {
            self
        } else {
            self.append_all(lines.drop_last()).append(lines.last())
        }
    }

    /// The transcript with no lines.
    pub open spec fn clear(self) -> Transcript {
        Transcript { lines: Seq::empty(), ..self }
    }
}

/// Appending keeps the capacity and never leaves more lines than it allows.
pub proof fn lemma_append_all_bounded(t: Transcript, lines: Seq<Line>)
    requires
        t.wf(),
    ensures
        t.append_all(lines).wf(),
        t.append_all(lines).capacity == t.capacity,
    decreases lines.len(),
{
    if lines.len() > 0 {
        lemma_append_all_bounded(t, lines.drop_last());
    }
}

/// After any number of appends the transcript holds exactly the last
/// `capacity` of all lines it was given, in the order they came.
pub proof fn lemma_append_all_keeps_newest(t: Transcript, lines: Seq<Line>)
    requires
        t.wf(),
    ensures
        t.append_all(lines).lines == keep_last(t.lines + lines, t.capacity),
    decreases lines.len(),
{
    if lines.len() == 0 {
        assert(t.lines + lines =~= t.lines);
    } else {
        let init = lines.drop_last();
        lemma_append_all_keeps_newest(t, init);
        lemma_append_all_bounded(t, init);
        assert((t.lines + init).push(lines.last()) =~= t.lines + lines);
        assert(keep_last(keep_last(t.lines + init, t.capacity).push(lines.last()), t.capacity)
            =~= keep_last((t.lines + init).push(lines.last()), t.capacity));
    }
}

/// One line of the transcript.  It does not change once it is made.
#[derive(Debug)]
pub struct TranscriptLine {
    text: String,
    role: LineRole,
}

impl View for TranscriptLine {
    type V = Line;

    closed spec fn view(&self) -> Line {
        Line { text: self.text@, role: self.role }
    }
}

impl TranscriptLine {
    /// Makes a line.
    pub fn new(text: &str, role: LineRole) -> (line: TranscriptLine)
        ensures
            line@ == (Line { text: text@, role }),
    {
        TranscriptLine { text: text.to_string(), role }
    }

    /// The line's text.
    pub fn text(&self) -> (t: &str)
        ensures
            t@ == self@.text,
    {
        self.text.as_str()
    }

    /// The line's role.
    pub fn role(&self) -> (r: LineRole)
        ensures
            r == self@.role,
    {
        self.role
    }

    /// A copy of the line.
    pub fn duplicate(&self) -> (line: TranscriptLine)
        ensures
            line@ == self@,
    {
        TranscriptLine { text: self.text.clone(), role: self.role }
    }
}

/// The lines that a sequence of transcript lines stands for.
pub open spec fn line_views(s: Seq<TranscriptLine>) -> Seq<Line> {
    s.map_values(|l: TranscriptLine| l@)
}

/// A bounded log of transcript lines.  Appending beyond the capacity drops
/// lines from the front; lines are never reordered.
pub struct LineBuffer {
    lines: VecDeque<TranscriptLine>,
    capacity: usize,
}

impl View for LineBuffer {
    type V = Transcript;

    closed spec fn view(&self) -> Transcript {
        Transcript { lines: line_views(self.lines@), capacity: self.capacity as nat }
    }
}

impl LineBuffer {
    /// The buffer holds no more lines than its capacity.
    pub open spec fn wf(&self) -> bool {
        self@.wf()
    }

    /// An empty buffer that holds up to `capacity` lines.
    pub fn new(capacity: usize) -> (buffer: LineBuffer)
        ensures
            buffer@ == (Transcript { lines: Seq::empty(), capacity: capacity as nat }),
            buffer.wf(),
    {
        let buffer = LineBuffer { lines: VecDeque::new(), capacity };
        assert(buffer@.lines =~= Seq::empty());
        buffer
    }

    /// Appends a line, dropping the oldest lines while the buffer is over
    /// its capacity.
    pub fn append(&mut self, text: &str, role: LineRole)
        ensures
            final(self)@ == old(self)@.append(Line { text: text@, role }),
            old(self).wf() ==> final(self).wf(),
    {
        let line = TranscriptLine::new(text, role);
        self.lines.push_back(line);
        let ghost all = line_views(self.lines@);
        assert(all =~= old(self)@.lines.push(Line { text: text@, role }));
        while self.lines.len() > self.capacity
            invariant
                self.capacity == old(self).capacity,
                self.lines@.len() <= all.len(),
                self.lines@.len() >= self.capacity || self.lines@.len() == all.len(),
                line_views(self.lines@) == all.skip(all.len() - self.lines@.len()),
            decreases self.lines@.len(),
        {
            let ghost before = line_views(self.lines@);
            let _ = self.lines.pop_front();
            assert(line_views(self.lines@) =~= before.skip(1));
            assert(before.skip(1) =~= all.skip(all.len() - self.lines@.len()));
        }
        assert(line_views(self.lines@) =~= keep_last(all, self.capacity as nat));
    }

    /// Removes every line.
    pub fn clear(&mut self)
        ensures
            final(self)@ == old(self)@.clear(),
            final(self).wf(),
    {
        self.lines.clear();
        assert(line_views(self.lines@) =~= Seq::empty());
    }

    /// The number of lines held.
    pub fn len(&self) -> (n: usize)
        ensures
            n == self@.lines.len(),
    {
        self.lines.len()
    }

    /// Whether no line is held.
    pub fn is_empty(&self) -> (b: bool)
        ensures
            b == (self@.lines.len() == 0),
    {
        self.lines.len() == 0
    }

    /// The most lines the buffer may hold.
    pub fn capacity(&self) -> (n: usize)
        ensures
            n == self@.capacity,
    {
        self.capacity
    }

    /// The line at position `i`, counted from the oldest.
    pub fn get(&self, i: usize) -> (line: Option<&TranscriptLine>)
        ensures
            match line {
                Some(l) => i < self@.lines.len() && l@ == self@.lines[i as int],
                None => i >= self@.lines.len(),
            },
    {
        if i < self.lines.len() {
            Some(&self.lines[i])
        } else {
            None
        }
    }

    /// A copy of every line, oldest first.  Calling it again gives the same
    /// lines until the buffer is changed.
    pub fn iterate(&self) -> (lines: Vec<TranscriptLine>)
        ensures
            line_views(lines@) == self@.lines,
    {
        let mut lines: Vec<TranscriptLine> = Vec::new();
        let mut i: usize = 0;
        while i < self.lines.len()
            invariant
                i <= self.lines@.len(),
                line_views(lines@) == self@.lines.take(i as int),
            decreases self.lines@.len() - i,
        {
            let ghost before = line_views(lines@);
            lines.push(self.lines[i].duplicate());
            assert(line_views(lines@) =~= before.push(self.lines@[i as int]@));
            assert(self@.lines.take(i + 1) =~= before.push(self.lines@[i as int]@));
            i += 1;
        }
        assert(self@.lines.take(i as int) =~= self@.lines);
        lines
    }
}

} // verus!
