//! The session as a mathematical value, and the rules by which each event
//! turns one session into the next.
//!
//! The session waits for the host whenever `pending` is not `Nothing`: keys
//! and text are then ignored, and only the outcome that answers the pending
//! request moves the session on.

use vstd::prelude::*;
use crate::complete::{apply_selection, suggest, Completion, Lexicon};
use crate::dispatch::{
    classify, help_lines, history_listing, missing_directory, not_a_directory, report_lines,
    resolve, spawn_failure, Order,
};
use crate::editor::{CursorMove, InputState};
use crate::history::{lemma_record_wf, History};
use crate::host::{Ask, Lookup, Outcome, Probe, Report};
use crate::prompt::{branch_label, header, input_mark};
use crate::text::{is_blank, lemma_blank_has_no_words};
use crate::transcript::{lemma_append_all_bounded, Line, LineRole, Transcript};

verus! {

/// The most lines a session's transcript holds unless told otherwise.
pub const DEFAULT_CAPACITY: usize = 500;

/// How many milliseconds the cursor stays shown or hidden before it
/// changes.
pub const BLINK_MILLIS: u64 = 500;

/// The blinking of the cursor, as a mathematical value: whether the cursor
/// shows, and for how many milliseconds it has been as it is.
pub ghost struct Blink {
    pub visible: bool,
    pub waited: nat,
}

impl Blink {
    /// The time waited is within one blink interval.
    pub open spec fn wf(self) -> bool {
        self.waited <= BLINK_MILLIS
    }

    /// The cursor shows and no time has passed.
    pub open spec fn start() -> Blink {
        Blink { visible: true, waited: 0 }
    }

    /// Whether the cursor changes once `elapsed` more milliseconds have
    /// passed: it does when it has then been as it is for more than
    /// `BLINK_MILLIS`.
    pub open spec fn due(self, elapsed: nat) -> bool {
        self.waited + elapsed > BLINK_MILLIS
    }

    /// The blinking after `elapsed` more milliseconds.
    pub open spec fn tick(self, elapsed: nat) -> Blink {
        if self.due(elapsed) {
            Blink { visible: !self.visible, waited: 0 }
        } else {
            Blink { waited: self.waited + elapsed, ..self }
        }
    }
}

/// A key that the engine gives a meaning to.  The letters count only
/// together with the control key.
#[derive(Clone, Copy, Debug, PartialEq, Eq, Structural)]
pub enum Key {
    Enter,
    Backspace,
    Delete,
    ArrowLeft,
    ArrowRight,
    ArrowUp,
    ArrowDown,
    Home,
    End,
    Tab,
    Escape,
    C,
    D,
    L,
    Other,
}

/// Where and for whom the session runs, as a mathematical value.
pub ghost struct Context {
    pub current_dir: Seq<char>,
    pub username: Seq<char>,
    pub hostname: Seq<char>,
    pub home: Option<Seq<char>>,
}

impl Context {
    /// The home directory that the prompt abbreviates.
    pub open spec fn prompt_home(self) -> Seq<char> {
        match self.home {
            Some(h) => h,
            None => "/home/user"@,
        }
    }

    /// The directory that `cd` without an argument goes to.
    pub open spec fn cd_home(self) -> Seq<char> {
        match self.home {
            Some(h) => h,
            None => "/"@,
        }
    }

    /// The context made of what the environment gave, with a default for
    /// each value that is missing.
    pub open spec fn from_environment(
        current_dir: Option<Seq<char>>,
        username: Option<Seq<char>>,
        hostname: Option<Seq<char>>,
        home: Option<Seq<char>>,
    ) -> Context {
        Context {
            current_dir: match current_dir {
                Some(d) => d,
                None => "/"@,
            },
            username: match username {
                Some(u) => u,
                None => "user"@,
            },
            hostname: match hostname {
                Some(h) => h,
                None => "localhost"@,
            },
            home,
        }
    }
}

/// The given texts as output lines.
pub open spec fn as_output(texts: Seq<Seq<char>>) -> Seq<Line> {
    texts.map_values(|t: Seq<char>| Line { text: t, role: LineRole::Output })
}

/// The line that marks an interrupt.
pub open spec fn interrupt_mark() -> Seq<char> {
    "^C"@
}

/// What there is to render at one moment, as a mathematical value.
pub ghost struct Picture {
    pub lines: Seq<Line>,
    pub input: Seq<char>,
    pub cursor: nat,
    pub cursor_visible: bool,
    pub suggestions: Seq<Seq<char>>,
    pub selected: Option<nat>,
}

/// The whole session as a mathematical value.
pub ghost struct Session {
    pub transcript: Transcript,
    pub input: InputState,
    pub history: History,
    pub vocabulary: Lexicon,
    pub completion: Completion,
    pub context: Context,
    pub pending: Ask,
    pub blink: Blink,
}

impl Session {
    /// Every part of the session is well formed.
    pub open spec fn wf(self) -> bool {
        &&& self.transcript.wf()
        &&& self.input.wf()
        &&& self.history.wf()
        &&& self.completion.wf()
        &&& self.blink.wf()
    }

    /// The session at its start: a greeting in the transcript, nothing typed,
    /// nothing recorded, and the first prompt waiting for the branch.
    pub open spec fn start(context: Context, capacity: nat, vocabulary: Lexicon) -> Session {
        Session {
            transcript: (Transcript { lines: Seq::empty(), capacity }).append(
                Line { text: "Terminal Ready"@, role: LineRole::Output },
            ).append(Line { text: ""@, role: LineRole::Output }),
            input: InputState::empty(),
            history: History::empty(),
            vocabulary,
            completion: Completion::cleared(),
            context,
            pending: Ask::ProbeBranch { dir: context.current_dir },
            blink: Blink::start(),
        }
    }

    /// What there is to render.
    pub open spec fn snapshot(self) -> Picture {
        Picture {
            lines: self.transcript.lines,
            input: self.input.buffer,
            cursor: self.input.cursor,
            cursor_visible: self.blink.visible,
            suggestions: self.completion.suggestions,
            selected: self.completion.selected,
        }
    }

    /// One line is appended to the transcript.
    pub open spec fn add_line(self, text: Seq<char>, role: LineRole) -> Session {
        Session { transcript: self.transcript.append(Line { text, role }), ..self }
    }

    /// The given texts are appended to the transcript as output lines.
    pub open spec fn add_output(self, texts: Seq<Seq<char>>) -> Session {
        Session { transcript: self.transcript.append_all(as_output(texts)), ..self }
    }

    /// The prompt is appended: the header line, which shows the user, the
    /// host and the working directory, and the input mark.
    pub open spec fn show_prompt(self, branch: Seq<char>) -> Session {
        self.add_line(
            header(
                self.context.username,
                self.context.hostname,
                self.context.current_dir,
                self.context.prompt_home(),
                branch,
            ),
            LineRole::Prompt,
        ).add_line(input_mark(), LineRole::Prompt)
    }

    /// The session asks for the branch, so that the prompt can follow.
    pub open spec fn await_branch(self) -> Session {
        Session { pending: Ask::ProbeBranch { dir: self.context.current_dir }, ..self }
    }

    /// The help text for `topic` is appended to the transcript.
    pub open spec fn format_help_output(self, topic: Seq<char>) -> Session {
        self.add_output(help_lines(topic))
    }

    /// The suggestions are computed anew from the input line.
    pub open spec fn update_autocomplete(self) -> Session {
        Session {
            completion: Completion::fresh(suggest(self.vocabulary, self.input.buffer)),
            ..self
        }
    }

    /// The selection moves to the next suggestion, which takes the place of
    /// the last word of the input line.  Without suggestions nothing
    /// changes.
    pub open spec fn apply_autocomplete(self) -> Session {
        match self.completion.cycled() {
            Some(selection) => Session {
                completion: self.completion.after_cycle(),
                input: self.input.replace(apply_selection(self.input.buffer, selection)),
                ..self
            },
            None => self,
        }
    }

    /// What `order` does to a session that has echoed and recorded the line.
    pub open spec fn run(self, order: Order) -> Session {
        match order {
            Order::Blank => self.await_branch(),
            Order::Clear => self.clear_screen(),
            Order::Exit => Session { pending: Ask::Exit, ..self },
            Order::ChangeDirectory { target } => {
                let target = match target {
                    Some(t) => t,
                    None => self.context.cd_home(),
                };
                Session {
                    pending: Ask::ResolveDirectory {
                        target,
                        path: resolve(self.context.current_dir, target),
                    },
                    ..self
                }
            },
            Order::PrintDirectory => self.add_line(
                self.context.current_dir,
                LineRole::Output,
            ).await_branch(),
            Order::ShowHistory => self.add_output(
                history_listing(self.history.entries),
            ).await_branch(),
            Order::External { program, args } => Session {
                pending: Ask::Run { program, args, dir: self.context.current_dir },
                ..self
            },
        }
    }

    /// A line is submitted.  A blank line only asks for a new prompt.  Any
    /// other line is echoed as an input line and recorded in the history,
    /// and then does what it asks for.
    pub open spec fn execute_command(self, line: Seq<char>) -> Session {
        if !(self.pending is Nothing) {
            self
        } else if is_blank(line) {
            self.await_branch()
        } else {
            (Session { history: self.history.record(line), ..self }).add_line(
                line,
                LineRole::Input,
            ).run(classify(line))
        }
    }

    /// The host answers a directory lookup.  Only a directory changes the
    /// working directory; the other answers add one line that says what is
    /// wrong with the target.
    pub open spec fn directory_resolved(self, lookup: Lookup) -> Session {
        match self.pending {
            Ask::ResolveDirectory { target, path } => (match lookup {
                Lookup::Directory { canonical } => Session {
                    context: Context { current_dir: canonical, ..self.context },
                    ..self
                },
                Lookup::NotDirectory => self.add_line(not_a_directory(target), LineRole::Output),
                Lookup::Missing => self.add_line(missing_directory(target), LineRole::Output),
            }).await_branch(),
            _ => self,
        }
    }

    /// The host answers a request to run a program.
    pub open spec fn process_finished(self, outcome: Outcome) -> Session {
        match self.pending {
            Ask::Run { program, args, dir } => (match outcome {
                Outcome::Finished(report) => self.add_output(report_lines(program, report)),
                Outcome::SpawnFailed { reason } => self.add_line(
                    spawn_failure(program, reason),
                    LineRole::Output,
                ),
            }).await_branch(),
            _ => self,
        }
    }

    /// The host answers a branch query: the prompt is appended and the
    /// session is ready for the next key.
    pub open spec fn branch_probed(self, probe: Probe) -> Session {
        match self.pending {
            Ask::ProbeBranch { dir } => Session {
                pending: Ask::Nothing,
                ..self.show_prompt(branch_label(probe.ran, probe.output))
            },
            _ => self,
        }
    }

    /// Text is typed: its printable characters go into the input line and
    /// the suggestions follow.
    pub open spec fn insert_text(self, text: Seq<char>) -> Session {
        if self.pending is Nothing {
            (Session { input: self.input.insert_text(text), ..self }).update_autocomplete()
        } else {
            self
        }
    }

    /// Time passes: the cursor changes between shown and hidden whenever it
    /// has been as it is for more than `BLINK_MILLIS`.  Nothing else
    /// changes.
    pub open spec fn tick(self, elapsed: nat) -> Session {
        Session { blink: self.blink.tick(elapsed), ..self }
    }

    /// The input line is submitted and left empty, without suggestions.
    pub open spec fn submit(self) -> Session {
        (Session {
            input: InputState::empty(),
            completion: Completion::cleared(),
            ..self
        }).execute_command(self.input.buffer)
    }

    /// A step back through the history: the entry reached replaces the input
    /// line.  The suggestions are dropped.
    pub open spec fn recall_previous(self) -> Session {
        let s = Session { completion: Completion::cleared(), ..self };
        match self.history.recalled_previous() {
            Some(entry) => Session {
                history: self.history.after_recall_previous(),
                input: self.input.replace(entry),
                ..s
            },
            None => s,
        }
    }

    /// A step forward through the history: the entry reached, or the empty
    /// line behind the newest entry, replaces the input line.  The
    /// suggestions are dropped.
    pub open spec fn recall_next(self) -> Session {
        let s = Session { completion: Completion::cleared(), ..self };
        match self.history.recalled_next() {
            Some(entry) => Session {
                history: self.history.after_recall_next(),
                input: self.input.replace(entry),
                ..s
            },
            None => s,
        }
    }

    /// The tab key: the next suggestion is applied, or, without
    /// suggestions, a space is added to the input line.
    pub open spec fn tab(self) -> Session {
        if self.completion.suggestions.len() > 0 {
            self.apply_autocomplete()
        } else {
            (Session { input: self.input.append_char(' '), ..self }).update_autocomplete()
        }
    }

    /// An interrupt: the mark is appended, the input line is emptied and a
    /// new prompt is asked for.  The history stays as it is.
    pub open spec fn interrupt(self) -> Session {
        (Session {
            input: InputState::empty(),
            completion: Completion::cleared(),
            ..self.add_line(interrupt_mark(), LineRole::Output)
        }).await_branch()
    }

    /// The screen is cleared and a new prompt is asked for.
    pub open spec fn clear_screen(self) -> Session {
        (Session { transcript: self.transcript.clear(), ..self }).await_branch()
    }

    /// A key is pressed, with or without the control key.
    pub open spec fn handle_key(self, key: Key, ctrl: bool) -> Session {
        if !(self.pending is Nothing) {
            self
        } else {
            match key {
                Key::Enter => self.submit(),
                Key::Backspace => if self.input.cursor > 0 {
                    (Session {
                        input: self.input.delete_before_cursor(),
                        ..self
                    }).update_autocomplete()
                } else {
                    self
                },
                Key::Delete => if self.input.cursor < self.input.buffer.len() {
                    (Session { input: self.input.delete_at_cursor(), ..self }).update_autocomplete()
                } else {
                    self
                },
                Key::ArrowLeft => Session {
                    input: self.input.move_cursor(CursorMove::By((-1) as i64)),
                    ..self
                },
                Key::ArrowRight => Session {
                    input: self.input.move_cursor(CursorMove::By(1)),
                    ..self
                },
                Key::ArrowUp => self.recall_previous(),
                Key::ArrowDown => self.recall_next(),
                Key::Home => Session { input: self.input.move_cursor(CursorMove::ToStart), ..self },
                Key::End => Session { input: self.input.move_cursor(CursorMove::ToEnd), ..self },
                Key::Tab => self.tab(),
                Key::Escape => Session { completion: Completion::cleared(), ..self },
                Key::C => if ctrl {
                    self.interrupt()
                } else {
                    self
                },
                Key::D => if ctrl {
                    Session { pending: Ask::Exit, ..self }
                } else {
                    self
                },
                Key::L => if ctrl {
                    self.clear_screen()
                } else {
                    self
                },
                Key::Other => self,
            }
        }
    }
}

/// Something that happens to a session.
pub ghost enum Event {
    /// A key is pressed.
    Key { key: Key, ctrl: bool },
    /// Text is typed.
    Text { text: Seq<char> },
    /// A line is submitted.
    Line { line: Seq<char> },
    /// The host answers a directory lookup.
    Directory { lookup: Lookup },
    /// The host answers a request to run a program.
    Process { outcome: Outcome },
    /// The host answers a branch query.
    Branch { probe: Probe },
    /// Time passes, in milliseconds.
    Tick { elapsed: nat },
}

impl Session {
    /// The session after one event.
    pub open spec fn step(self, event: Event) -> Session {
        match event {
            Event::Key { key, ctrl } => self.handle_key(key, ctrl),
            Event::Text { text } => self.insert_text(text),
            Event::Line { line } => self.execute_command(line),
            Event::Directory { lookup } => self.directory_resolved(lookup),
            Event::Process { outcome } => self.process_finished(outcome),
            Event::Branch { probe } => self.branch_probed(probe),
            Event::Tick { elapsed } => self.tick(elapsed),
        }
    }

    /// The session after a sequence of events, taken from first to last.
    pub open spec fn steps(self, events: Seq<Event>) -> Session
        decreases events.len(),
    {
        if events.len() == 0 {
            self
        } else {
            self.steps(events.drop_last()).step(events.last())
        }
    }
}

/// Submitting a non-blank line keeps the session well formed.
proof fn lemma_execute_keeps_wf(s: Session, line: Seq<char>)
    requires
        s.wf(),
    ensures
        s.execute_command(line).wf(),
{
    if s.pending is Nothing && !is_blank(line) {
        lemma_record_wf(s.history, line);
        let t = (Session { history: s.history.record(line), ..s }).add_line(line, LineRole::Input);
        assert(t.wf());
        match classify(line) {
            Order::ShowHistory => {
                lemma_append_all_bounded(
                    t.transcript,
                    as_output(history_listing(t.history.entries)),
                );
            },
            _ => {},
        }
    }
}

/// One event keeps the session well formed.
pub proof fn lemma_step_keeps_wf(s: Session, event: Event)
    requires
        s.wf(),
    ensures
        s.step(event).wf(),
{
    match event {
        Event::Key { key, ctrl } => {
            if s.pending is Nothing && key == Key::Enter {
                let t = Session {
                    input: InputState::empty(),
                    completion: Completion::cleared(),
                    ..s
                };
                lemma_execute_keeps_wf(t, s.input.buffer);
            }
        },
        Event::Text { text } => {},
        Event::Line { line } => {
            lemma_execute_keeps_wf(s, line);
        },
        Event::Directory { lookup } => {},
        Event::Process { outcome } => {
            match (s.pending, outcome) {
                (Ask::Run { program, args, dir }, Outcome::Finished(report)) => {
                    lemma_append_all_bounded(
                        s.transcript,
                        as_output(report_lines(program, report)),
                    );
                },
                _ => {},
            }
        },
        Event::Branch { probe } => {},
        Event::Tick { elapsed } => {},
    }
}

/// Whatever events come, in whatever order, after each of them the cursor
/// lies within the input line, the transcript is within its capacity, the
/// history cursor and the selected suggestion point at entries that exist.
pub proof fn lemma_steps_keep_wf(s: Session, events: Seq<Event>)
    requires
        s.wf(),
    ensures
        s.steps(events).wf(),
        s.steps(events).input.cursor <= s.steps(events).input.buffer.len(),
        s.steps(events).transcript.lines.len() <= s.steps(events).transcript.capacity,
    decreases events.len(),
{
    if events.len() > 0 {
        lemma_steps_keep_wf(s, events.drop_last());
        lemma_step_keeps_wf(s.steps(events.drop_last()), events.last());
    }
}

/// Submitting an empty or blank line never changes the history.  A session
/// that is ready for input keeps its transcript and its input line as well
/// and asks for the branch; once the host has answered, the transcript has
/// grown by the prompt and nothing else.
pub proof fn lemma_blank_line_only_prompts(s: Session, line: Seq<char>, probe: Probe)
    requires
        is_blank(line),
    ensures
        s.execute_command(line).history == s.history,
        s.execute_command(line).transcript == s.transcript,
        s.pending is Nothing ==> s.execute_command(line) == s.await_branch(),
        s.pending is Nothing ==> s.execute_command(line).branch_probed(probe) == (Session {
            pending: Ask::Nothing,
            ..s.show_prompt(branch_label(probe.ran, probe.output))
        }),
        s.pending is Nothing ==> s.execute_command(line).branch_probed(probe).history
            == s.history,
{
}

/// Pressing enter on an empty or blank input line leaves the history as it
/// is.
pub proof fn lemma_blank_enter_keeps_history(s: Session, ctrl: bool)
    requires
        is_blank(s.input.buffer),
    ensures
        s.handle_key(Key::Enter, ctrl).history == s.history,
{
}

/// A line that is not blank is recorded when it is submitted, and
/// submitting it again right away adds no second entry.
pub proof fn lemma_repeated_line_recorded_once(s: Session, line: Seq<char>)
    requires
        s.pending is Nothing,
        !is_blank(line),
    ensures
        s.execute_command(line).history == s.history.record(line),
        s.execute_command(line).history.entries.last() == line,
        forall|t: Session|
            t.pending is Nothing && t.history.entries == s.execute_command(line).history.entries
                ==> (#[trigger] t.execute_command(line)).history.entries == t.history.entries,
{
    let once = s.history.record(line);
    assert(once.entries.last() == line);
}

/// The host's answers to a program run and to a branch query leave the
/// history as it is.
pub proof fn lemma_answers_keep_history(s: Session, outcome: Outcome, probe: Probe, lookup: Lookup)
    ensures
        s.process_finished(outcome).history == s.history,
        s.branch_probed(probe).history == s.history,
        s.directory_resolved(lookup).history == s.history,
{
}

/// Only the answer to a pending directory lookup can change the context;
/// every other event leaves the working directory, the user, the host and
/// the home directory as they are.
pub proof fn lemma_only_cd_changes_context(s: Session, event: Event)
    requires
        !(event is Directory && s.pending is ResolveDirectory),
    ensures
        s.step(event).context == s.context,
{
}

/// Typing and deleting recompute the suggestions from the line as it then
/// stands.
pub proof fn lemma_suggestions_follow_edits(s: Session, text: Seq<char>, ctrl: bool)
    requires
        s.pending is Nothing,
    ensures
        s.insert_text(text).completion == Completion::fresh(
            suggest(s.vocabulary, s.insert_text(text).input.buffer),
        ),
        s.input.cursor > 0 ==> s.handle_key(Key::Backspace, ctrl).completion == Completion::fresh(
            suggest(s.vocabulary, s.handle_key(Key::Backspace, ctrl).input.buffer),
        ),
        s.input.cursor < s.input.buffer.len() ==> s.handle_key(Key::Delete, ctrl).completion
            == Completion::fresh(
            suggest(s.vocabulary, s.handle_key(Key::Delete, ctrl).input.buffer),
        ),
{
}

/// An interrupt empties the input line and adds the interrupt mark to the
/// transcript; the history stays as it is.
pub proof fn lemma_interrupt_keeps_history(s: Session)
    requires
        s.pending is Nothing,
    ensures
        s.handle_key(Key::C, true).history == s.history,
        s.handle_key(Key::C, true).input == InputState::empty(),
        s.handle_key(Key::C, true).transcript == s.transcript.append(
            Line { text: interrupt_mark(), role: LineRole::Output },
        ),
        s.handle_key(Key::C, true).pending == (Ask::ProbeBranch { dir: s.context.current_dir }),
{
}

/// While a request is pending, keys, typed text and submitted lines change
/// nothing at all.
pub proof fn lemma_pending_ignores_input(
    s: Session,
    key: Key,
    ctrl: bool,
    text: Seq<char>,
    line: Seq<char>,
)
    requires
        !(s.pending is Nothing),
    ensures
        s.handle_key(key, ctrl) == s,
        s.insert_text(text) == s,
        s.execute_command(line) == s,
{
}

/// Backspace in a session that is ready removes exactly the character
/// before the cursor: what stood before that character and what stood from
/// the cursor on stay in order, and the cursor moves back by one.  At the
/// start of the line nothing changes.
pub proof fn lemma_backspace_removes_one(s: Session, ctrl: bool)
    requires
        s.pending is Nothing,
        s.wf(),
    ensures
        s.input.cursor > 0 ==> s.handle_key(Key::Backspace, ctrl).input == (InputState {
            buffer: s.input.buffer.take(s.input.cursor - 1) + s.input.buffer.skip(
                s.input.cursor as int,
            ),
            cursor: (s.input.cursor - 1) as nat,
        }),
        s.input.cursor == 0 ==> s.handle_key(Key::Backspace, ctrl) == s,
        s.handle_key(Key::Backspace, ctrl).input.wf(),
{
    if s.input.cursor > 0 {
        assert(s.input.buffer.remove(s.input.cursor - 1) =~= s.input.buffer.take(
            s.input.cursor - 1,
        ) + s.input.buffer.skip(s.input.cursor as int));
    }
}

/// Delete in a session that is ready removes exactly the character at the
/// cursor: what stood before the cursor and what stood behind that
/// character stay in order, and the cursor stays where it is.  At the end
/// of the line nothing changes.
pub proof fn lemma_delete_removes_one(s: Session, ctrl: bool)
    requires
        s.pending is Nothing,
        s.wf(),
    ensures
        s.input.cursor < s.input.buffer.len() ==> s.handle_key(Key::Delete, ctrl).input
            == (InputState {
            buffer: s.input.buffer.take(s.input.cursor as int) + s.input.buffer.skip(
                s.input.cursor as int + 1,
            ),
            cursor: s.input.cursor,
        }),
        s.input.cursor == s.input.buffer.len() ==> s.handle_key(Key::Delete, ctrl) == s,
        s.handle_key(Key::Delete, ctrl).input.wf(),
{
    if s.input.cursor < s.input.buffer.len() {
        assert(s.input.buffer.remove(s.input.cursor as int) =~= s.input.buffer.take(
            s.input.cursor as int,
        ) + s.input.buffer.skip(s.input.cursor as int + 1));
    }
}

/// The first step back through a history that is not being browsed selects
/// the newest entry: it becomes the input line, with the cursor at its end.
pub proof fn lemma_arrow_up_selects_newest(s: Session, ctrl: bool)
    requires
        s.pending is Nothing,
        s.history.entries.len() > 0,
        s.history.cursor is None,
    ensures
        s.handle_key(Key::ArrowUp, ctrl).history.cursor == Some(
            (s.history.entries.len() - 1) as nat,
        ),
        s.handle_key(Key::ArrowUp, ctrl).history.entries == s.history.entries,
        s.handle_key(Key::ArrowUp, ctrl).input.buffer == s.history.entries.last(),
        s.handle_key(Key::ArrowUp, ctrl).input.cursor == s.history.entries.last().len(),
{
}

/// A step forward from the newest entry ends browsing and empties the input
/// line; the entries stay as they are.
pub proof fn lemma_arrow_down_leaves(s: Session, ctrl: bool)
    requires
        s.pending is Nothing,
        s.history.entries.len() > 0,
        s.history.cursor == Some((s.history.entries.len() - 1) as nat),
    ensures
        s.handle_key(Key::ArrowDown, ctrl).history.cursor is None,
        s.handle_key(Key::ArrowDown, ctrl).history.entries == s.history.entries,
        s.handle_key(Key::ArrowDown, ctrl).input == InputState::empty(),
{
}

/// The header line of the prompt for the session's context and `probe`.
pub open spec fn prompt_header(s: Session, probe: Probe) -> Line {
    Line {
        text: header(
            s.context.username,
            s.context.hostname,
            s.context.current_dir,
            s.context.prompt_home(),
            branch_label(probe.ran, probe.output),
        ),
        role: LineRole::Prompt,
    }
}

/// The line at which input is typed, as a prompt line.
pub open spec fn prompt_mark() -> Line {
    Line { text: input_mark(), role: LineRole::Prompt }
}

/// A blank line submitted to a session that is ready adds, once the host
/// has answered, the two prompt lines and nothing else: no input line, no
/// output line.  The context and the history stay as they are, and the
/// session is ready again.
pub proof fn lemma_blank_line_from_start_to_end(s: Session, line: Seq<char>, probe: Probe)
    requires
        s.pending is Nothing,
        is_blank(line),
    ensures
        s.execute_command(line).branch_probed(probe).transcript == s.transcript.append(
            prompt_header(s, probe),
        ).append(prompt_mark()),
        s.execute_command(line).branch_probed(probe).context == s.context,
        s.execute_command(line).branch_probed(probe).history == s.history,
        s.execute_command(line).branch_probed(probe).pending is Nothing,
{
}

/// A `cd` whose target the host cannot enter, because it is missing or no
/// directory, keeps the working directory.  Between the echoed line and the
/// prompt stands exactly one output line, which names the target as it was
/// typed; the prompt comes last and the session is ready again.
pub proof fn lemma_failed_cd_from_start_to_end(
    s: Session,
    line: Seq<char>,
    target: Seq<char>,
    lookup: Lookup,
    probe: Probe,
)
    requires
        s.pending is Nothing,
        classify(line) == (Order::ChangeDirectory { target: Some(target) }),
        !(lookup is Directory),
    ensures
        s.execute_command(line).directory_resolved(lookup).branch_probed(probe).context
            == s.context,
        s.execute_command(line).directory_resolved(lookup).branch_probed(probe).transcript
            == s.transcript.append(Line { text: line, role: LineRole::Input }).append(
            Line {
                text: if lookup is Missing {
                    missing_directory(target)
                } else {
                    not_a_directory(target)
                },
                role: LineRole::Output,
            },
        ).append(prompt_header(s, probe)).append(prompt_mark()),
        missing_directory(target).subrange(4, 4 + target.len() as int) == target,
        not_a_directory(target).subrange(4, 4 + target.len() as int) == target,
        s.execute_command(line).directory_resolved(lookup).branch_probed(probe).pending is Nothing,
{
    lemma_blank_has_no_words(line);
    reveal_strlit("cd: ");
    assert(missing_directory(target).subrange(4, 4 + target.len() as int) =~= target);
    assert(not_a_directory(target).subrange(4, 4 + target.len() as int) =~= target);
}

/// A `cd` whose target the host can enter makes the canonical path that the
/// host found the working directory; the prompt that follows shows it.
pub proof fn lemma_cd_from_start_to_end(
    s: Session,
    line: Seq<char>,
    target: Seq<char>,
    canonical: Seq<char>,
    probe: Probe,
)
    requires
        s.pending is Nothing,
        classify(line) == (Order::ChangeDirectory { target: Some(target) }),
    ensures
        ({
            let t = s.execute_command(line).directory_resolved(Lookup::Directory { canonical });
            &&& t.context == (Context { current_dir: canonical, ..s.context })
            &&& t.transcript == s.transcript.append(Line { text: line, role: LineRole::Input })
            &&& t.branch_probed(probe).transcript == t.transcript.append(
                prompt_header(t, probe),
            ).append(prompt_mark())
            &&& t.branch_probed(probe).pending is Nothing
        }),
{
    lemma_blank_has_no_words(line);
}

/// A line whose first word is no built-in name asks the host to run that
/// word as a program with every word after it as an argument.  If the
/// program cannot be started, exactly one output line stands between the
/// echoed line and the prompt; it names the program and the reason, and no
/// line reports an exit code.  The context stays as it is.
pub proof fn lemma_failed_spawn_from_start_to_end(
    s: Session,
    line: Seq<char>,
    program: Seq<char>,
    args: Seq<Seq<char>>,
    reason: Seq<char>,
    probe: Probe,
)
    requires
        s.pending is Nothing,
        classify(line) == (Order::External { program, args }),
    ensures
        s.execute_command(line).pending == (Ask::Run {
            program,
            args,
            dir: s.context.current_dir,
        }),
        s.execute_command(line).process_finished(Outcome::SpawnFailed { reason }).branch_probed(
            probe,
        ).transcript == s.transcript.append(Line { text: line, role: LineRole::Input }).append(
            Line { text: spawn_failure(program, reason), role: LineRole::Output },
        ).append(prompt_header(s, probe)).append(prompt_mark()),
        s.execute_command(line).process_finished(Outcome::SpawnFailed { reason }).branch_probed(
            probe,
        ).context == s.context,
        s.execute_command(line).process_finished(Outcome::SpawnFailed { reason }).branch_probed(
            probe,
        ).pending is Nothing,
{
    lemma_blank_has_no_words(line);
}

/// A program that ran to its end puts its report between the echoed line
/// and the prompt: its output lines, its marked error lines and, if it
/// failed with an exit code, the line that reports the code.
pub proof fn lemma_run_from_start_to_end(
    s: Session,
    line: Seq<char>,
    program: Seq<char>,
    args: Seq<Seq<char>>,
    report: Report,
    probe: Probe,
)
    requires
        s.pending is Nothing,
        classify(line) == (Order::External { program, args }),
    ensures
        s.execute_command(line).process_finished(Outcome::Finished(report)).branch_probed(
            probe,
        ).transcript == s.transcript.append(
            Line { text: line, role: LineRole::Input },
        ).append_all(as_output(report_lines(program, report))).append(
            prompt_header(s, probe),
        ).append(prompt_mark()),
        s.execute_command(line).process_finished(Outcome::Finished(report)).branch_probed(
            probe,
        ).context == s.context,
{
    lemma_blank_has_no_words(line);
}

/// The host's work for one command is soon done: the answer to a directory
/// lookup or to a program run leads to a branch query, and the answer to a
/// branch query leaves the session ready for the next key.
pub proof fn lemma_answers_settle(s: Session, lookup: Lookup, outcome: Outcome, probe: Probe)
    ensures
        s.pending is ResolveDirectory ==> s.directory_resolved(lookup).pending is ProbeBranch,
        s.pending is Run ==> s.process_finished(outcome).pending is ProbeBranch,
        s.pending is ProbeBranch ==> s.branch_probed(probe).pending is Nothing,
{
}

/// When the host cannot resolve the directory that `cd` named, the working
/// directory stays as it is and the transcript grows by exactly one line,
/// which names the directory as the user wrote it.
pub proof fn lemma_missing_directory_reported(s: Session, target: Seq<char>, path: Seq<char>)
    requires
        s.pending == (Ask::ResolveDirectory { target, path }),
    ensures
        s.directory_resolved(Lookup::Missing).context == s.context,
        s.directory_resolved(Lookup::Missing).transcript == s.transcript.append(
            Line { text: missing_directory(target), role: LineRole::Output },
        ),
        missing_directory(target).subrange(4, 4 + target.len() as int) == target,
        s.directory_resolved(Lookup::Missing).pending == (Ask::ProbeBranch {
            dir: s.context.current_dir,
        }),
{
    reveal_strlit("cd: ");
    assert(missing_directory(target).subrange(4, 4 + target.len() as int) =~= target);
}

/// A `cd` that names a directory leads to a lookup of that directory,
/// taken below the working directory unless it starts at the root; until
/// the host answers, the working directory stays as it is.
pub proof fn lemma_cd_asks_host(s: Session, line: Seq<char>, target: Seq<char>)
    requires
        s.pending is Nothing,
        classify(line) == (Order::ChangeDirectory { target: Some(target) }),
    ensures
        s.execute_command(line).pending == (Ask::ResolveDirectory {
            target,
            path: resolve(s.context.current_dir, target),
        }),
        s.execute_command(line).context == s.context,
{
    lemma_blank_has_no_words(line);
}

/// When a program cannot be started, the transcript grows by exactly one
/// line, which names the program and the reason, and no line reports an
/// exit code.
pub proof fn lemma_spawn_failure_reported(
    s: Session,
    program: Seq<char>,
    args: Seq<Seq<char>>,
    dir: Seq<char>,
    reason: Seq<char>,
)
    requires
        s.pending == (Ask::Run { program, args, dir }),
    ensures
        s.process_finished(Outcome::SpawnFailed { reason }).transcript == s.transcript.append(
            Line { text: spawn_failure(program, reason), role: LineRole::Output },
        ),
        s.process_finished(Outcome::SpawnFailed { reason }).pending == (Ask::ProbeBranch {
            dir: s.context.current_dir,
        }),
{
}

} // verus!
