//! The command history: what was submitted, oldest first, and a cursor for
//! stepping back and forth through it.

use vstd::prelude::*;
use crate::text::{is_blank, is_blank_text, text_eq, texts};

verus! {

/// The history as a mathematical value.  `cursor` is `None` while the
/// history is not being browsed.
pub ghost struct History {
    pub entries: Seq<Seq<char>>,
    pub cursor: Option<nat>,
}

impl History {
    /// The cursor, if set, points at an entry; no entry is blank; no entry
    /// repeats the one before it.
    pub open spec fn wf(self) -> bool {
        &&& self.cursor matches Some(i) ==> i < self.entries.len()
        &&& forall|k: int| 0 <= k < self.entries.len() ==> !is_blank(#[trigger] self.entries[k])
        &&& forall|k: int|
            0 < k < self.entries.len() ==> #[trigger] self.entries[k] != self.entries[k - 1]
    }

    /// The history with no entries.
    pub open spec fn empty() -> History {
        History { entries: Seq::empty(), cursor: None }
    }

    /// Whether recording `command` adds an entry: it does unless `command`
    /// is blank or equals the newest entry.
    pub open spec fn accepts(self, command: Seq<char>) -> bool {
        !is_blank(command) && !(self.entries.len() > 0 && self.entries.last() == command)
    }

    /// The history after `command` is recorded.  Browsing ends.
    pub open spec fn record(self, command: Seq<char>) -> History {
        History {
            entries: if self.accepts(command) {
                self.entries.push(command)
            } else {
                self.entries
            },
            cursor: None,
        }
    }

    /// Where the cursor stands after a step back: at the newest entry when
    /// browsing starts, else one entry older, and at the oldest it stays.
    pub open spec fn previous_index(self) -> nat
        recommends
            self.entries.len() > 0,
    {
        match self.cursor {
            None => (self.entries.len() - 1) as nat,
            Some(i) => if i > 0 {
                (i - 1) as nat
            } else {
                0
            },
        }
    }

    /// The history after a step back.  An empty history does not change.
    pub open spec fn after_recall_previous(self) -> History {
        if self.entries.len() == 0 {
            self
        } else {
            History { cursor: Some(self.previous_index()), ..self }
        }
    }

    /// What a step back hands out: the entry the cursor then points at, or
    /// nothing if the history is empty.
    pub open spec fn recalled_previous(self) -> Option<Seq<char>> {
        if self.entries.len() == 0 {
            None
        } else {
            Some(self.entries[self.previous_index() as int])
        }
    }

    /// The history after a step forward.  Stepping past the newest entry
    /// ends browsing; without browsing nothing changes.
    pub open spec fn after_recall_next(self) -> History {
        match self.cursor {
            None => self,
            Some(i) => if i + 1 >= self.entries.len() {
                History { cursor: None, ..self }
            } else {
                History { cursor: Some((i + 1) as nat), ..self }
            },
        }
    }

    /// What a step forward hands out: the next newer entry, the empty line
    /// when browsing ends, or nothing without browsing.
    pub open spec fn recalled_next(self) -> Option<Seq<char>> {
        match self.cursor {
            None => None,
            Some(i) => if i + 1 >= self.entries.len() {
                Some(Seq::empty())
            } else {
                Some(self.entries[i as int + 1])
            },
        }
    }

    /// The history after `n` steps back.
    pub open spec fn recall_previous_times(self, n: nat) -> History
        decreases n,
    {
        if n == 0 {
            self
        } else {
            self.recall_previous_times((n - 1) as nat).after_recall_previous()
        }
    }
}

/// Recording keeps the history well formed.
pub proof fn lemma_record_wf(h: History, command: Seq<char>)
    requires
        h.wf(),
    ensures
        h.record(command).wf(),
{
}

/// Recording the same command twice in a row gives what recording it once
/// gives: at most one entry more than before, and exactly one entry if the
/// history was empty and the command is not blank.
pub proof fn lemma_record_twice(h: History, command: Seq<char>)
    ensures
        h.record(command).record(command) == h.record(command),
        h.record(command).record(command).entries.len() <= h.entries.len() + 1,
        !is_blank(command) ==> History::empty().record(command).record(command).entries
            == seq![command],
{
    let once = h.record(command);
    if !is_blank(command) {
        assert(once.entries.last() == command);
        let first = History::empty().record(command);
        assert(first.entries =~= seq![command]);
        assert(first.entries.last() == command);
    }
}

/// Stepping back never leaves the entries, and after as many steps as there
/// are entries the cursor rests on the oldest one.
pub proof fn lemma_recall_previous_reaches_oldest(h: History, n: nat)
    requires
        h.wf(),
        h.entries.len() > 0,
    ensures
        h.recall_previous_times(n).wf(),
        h.recall_previous_times(n).entries == h.entries,
        n >= 1 ==> h.recall_previous_times(n).cursor is Some,
        n >= 1 ==> h.recall_previous_times(n).cursor->0 + n <= h.entries.len()
            || h.recall_previous_times(n).cursor->0 == 0,
        n >= h.entries.len() ==> h.recall_previous_times(n).cursor == Some(0nat),
    decreases n,
{
    if n > 0 {
        lemma_recall_previous_reaches_oldest(h, (n - 1) as nat);
    }
}

/// Stepping back more often than there are entries hands out nothing new:
/// from the step that reaches the oldest entry on, every further step leaves
/// the history as it is and hands out the oldest entry again.  On an empty
/// history every step hands out nothing.
pub proof fn lemma_recall_previous_stops(h: History, n: nat)
    requires
        h.wf(),
        n >= h.entries.len(),
    ensures
        h.recall_previous_times(n + 1) == h.recall_previous_times(n),
        h.entries.len() > 0 ==> h.recall_previous_times(n).recalled_previous() == Some(
            h.entries[0],
        ),
        h.entries.len() == 0 ==> h.recall_previous_times(n).recalled_previous() is None,
    decreases n,
{
    if h.entries.len() > 0 {
        lemma_recall_previous_reaches_oldest(h, n);
    } else {
        if n > 0 {
            lemma_recall_previous_stops(h, (n - 1) as nat);
        }
    }
}

/// A step forward from the newest entry ends browsing and hands out the
/// empty line.
pub proof fn lemma_recall_next_leaves(h: History)
    requires
        h.wf(),
        h.cursor == Some((h.entries.len() - 1) as nat),
    ensures
        h.after_recall_next().cursor is None,
        h.after_recall_next().entries == h.entries,
        h.recalled_next() == Some(Seq::<char>::empty()),
{
}

/// The commands submitted so far and the recall cursor.
pub struct HistoryStore {
    entries: Vec<String>,
    cursor: Option<usize>,
}

impl View for HistoryStore {
    type V = History;

    closed spec fn view(&self) -> History {
        History {
            entries: texts(self.entries@),
            cursor: match self.cursor {
                Some(i) => Some(i as nat),
                None => None,
            },
        }
    }
}

impl HistoryStore {
    /// The store stands for a well-formed history.
    pub open spec fn wf(&self) -> bool {
        self@.wf()
    }

    /// An empty history.
    pub fn new() -> (store: HistoryStore)
        ensures
            store@ == History::empty(),
            store.wf(),
    {
        let store = HistoryStore { entries: Vec::new(), cursor: None };
        assert(store@.entries =~= Seq::empty());
        store
    }

    /// Records `command` unless it is blank or equals the newest entry, and
    /// ends browsing.
    pub fn record(&mut self, command: &str)
        requires
            old(self).wf(),
        ensures
            final(self)@ == old(self)@.record(command@),
            final(self).wf(),
    {
        self.cursor = None;
        if is_blank_text(command) {
            return ;
        }
        let n = self.entries.len();
        if n > 0 && text_eq(self.entries[n - 1].as_str(), command) {
            return ;
        }
        self.entries.push(command.to_string());
        assert(texts(self.entries@) =~= texts(old(self).entries@).push(command@));
    }

    /// Steps back through the history and hands out the entry reached.
    pub fn recall_previous(&mut self) -> (entry: Option<String>)
        requires
            old(self).wf(),
        ensures
            final(self)@ == old(self)@.after_recall_previous(),
            final(self).wf(),
            match entry {
                Some(e) => old(self)@.recalled_previous() == Some(e@),
                None => old(self)@.recalled_previous() is None,
            },
    {
        let n = self.entries.len();
        if n == 0 {
            return None;
        }
        let i = match self.cursor {
            None => n - 1,
            Some(i) => if i > 0 {
                i - 1
            } else {
                0
            },
        };
        self.cursor = Some(i);
        Some(self.entries[i].clone())
    }

    /// Steps forward through the history and hands out the entry reached,
    /// or the empty line when browsing ends.
    pub fn recall_next(&mut self) -> (entry: Option<String>)
        requires
            old(self).wf(),
        ensures
            final(self)@ == old(self)@.after_recall_next(),
            final(self).wf(),
            match entry {
                Some(e) => old(self)@.recalled_next() == Some(e@),
                None => old(self)@.recalled_next() is None,
            },
    {
        match self.cursor {
            None => None,
            Some(i) => {
                assert(self@.cursor == Some(i as nat));
                assert(i < self.entries.len());
                if i + 1 >= self.entries.len() {
                    self.cursor = None;
                    Some(String::new())
                } else {
                    self.cursor = Some(i + 1);
                    Some(self.entries[i + 1].clone())
                }
            },
        }
    }

    /// The number of entries.
    pub fn len(&self) -> (n: usize)
        ensures
            n == self@.entries.len(),
    {
        self.entries.len()
    }

    /// The entry at position `i`, counted from the oldest.
    pub fn get(&self, i: usize) -> (entry: Option<&str>)
        ensures
            match entry {
                Some(e) => i < self@.entries.len() && e@ == self@.entries[i as int],
                None => i >= self@.entries.len(),
            },
    {
        if i < self.entries.len() {
            Some(self.entries[i].as_str())
        } else {
            None
        }
    }

    /// The position of the entry being browsed, if any.
    pub fn cursor(&self) -> (c: Option<usize>)
        ensures
            match c {
                Some(i) => self@.cursor == Some(i as nat),
                None => self@.cursor is None,
            },
    {
        self.cursor
    }
}

} // verus!
