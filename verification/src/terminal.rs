//! The session engine: it owns the transcript, the input line, the history
//! and the autocomplete state, takes one event at a time, and says what it
//! needs from its host.

use vstd::prelude::*;
use crate::complete::{
    apply_to, standard_commands, standard_tables, AutocompleteState, Lexicon, Vocabulary,
};
use crate::dispatch::{
    help_text, history_line_text, history_listing, missing_directory_text, not_a_directory_text,
    parse_command, report_text, resolve_path, spawn_failure_text, Command,
};
use crate::editor::{CursorMove, InputEditor};
use crate::history::HistoryStore;
use crate::host::{copy_texts, BranchProbe, DirLookup, ProcessOutcome, Request};
use crate::prompt::{render_branch, render_header};
use crate::session::{
    as_output, Blink, Context, Key, Picture, Session, BLINK_MILLIS, DEFAULT_CAPACITY,
};
use crate::text::{is_blank_text, push_text, texts};
use crate::transcript::{
    lemma_append_all_bounded, line_views, LineBuffer, LineRole, TranscriptLine,
};

verus! {

/// The text that an optional string stands for.
pub open spec fn optional_text(o: Option<String>) -> Option<Seq<char>> {
    match o {
        Some(s) => Some(s@),
        None => None,
    }
}

/// Where and for whom the session runs: the working directory, the user,
/// the host and the home directory, if one is known.
pub struct SessionContext {
    current_dir: String,
    username: String,
    hostname: String,
    home: Option<String>,
}

impl View for SessionContext {
    type V = Context;

    closed spec fn view(&self) -> Context {
        Context {
            current_dir: self.current_dir@,
            username: self.username@,
            hostname: self.hostname@,
            home: optional_text(self.home),
        }
    }
}

impl SessionContext {
    /// Makes the context of what the environment gave.  A missing working
    /// directory is the root, a missing user is `user`, and a missing host
    /// is `localhost`.
    pub fn from_environment(
        current_dir: Option<String>,
        username: Option<String>,
        hostname: Option<String>,
        home: Option<String>,
    ) -> (context: SessionContext)
        ensures
            context@ == Context::from_environment(
                optional_text(current_dir),
                optional_text(username),
                optional_text(hostname),
                optional_text(home),
            ),
    {
        SessionContext {
            current_dir: match current_dir {
                Some(d) => d,
                None => "/".to_string(),
            },
            username: match username {
                Some(u) => u,
                None => "user".to_string(),
            },
            hostname: match hostname {
                Some(h) => h,
                None => "localhost".to_string(),
            },
            home,
        }
    }

    /// The working directory.
    pub fn current_dir(&self) -> (d: &str)
        ensures
            d@ == self@.current_dir,
    {
        self.current_dir.as_str()
    }

    /// The user's name.
    pub fn username(&self) -> (u: &str)
        ensures
            u@ == self@.username,
    {
        self.username.as_str()
    }

    /// The host's name.
    pub fn hostname(&self) -> (h: &str)
        ensures
            h@ == self@.hostname,
    {
        self.hostname.as_str()
    }

    /// The home directory that the prompt abbreviates.
    pub fn prompt_home(&self) -> (h: &str)
        ensures
            h@ == self@.prompt_home(),
    {
        match &self.home {
            Some(h) => h.as_str(),
            None => "/home/user",
        }
    }

    /// The directory that `cd` without an argument goes to.
    pub fn cd_home(&self) -> (h: &str)
        ensures
            h@ == self@.cd_home(),
    {
        match &self.home {
            Some(h) => h.as_str(),
            None => "/",
        }
    }
}

/// The lines that list the entries of `history`, each with its number.
pub fn history_listing_text(history: &HistoryStore) -> (lines: Vec<String>)
    ensures
        texts(lines@) == history_listing(history@.entries),
{
    let mut lines: Vec<String> = Vec::new();
    let n = history.len();
    let ghost all = history_listing(history@.entries);
    let mut i: usize = 0;
    assert(texts(lines@) =~= all.take(0));
    while i < n
        invariant
            i <= n,
            n == history@.entries.len(),
            all == history_listing(history@.entries),
            texts(lines@) == all.take(i as int),
        decreases n - i,
    {
        match history.get(i) {
            Some(entry) => {
                let line = history_line_text(i, entry);
                push_text(&mut lines, line.as_str());
                assert(all.take(i + 1) =~= all.take(i as int).push(line@));
            },
            None => {},
        }
        i += 1;
    }
    assert(all.take(n as int) =~= all);
    lines
}

/// What there is to render at one moment.
pub struct Snapshot {
    /// The transcript lines, oldest first.
    pub lines: Vec<TranscriptLine>,
    /// The input line.
    pub input: String,
    /// The number of characters before the cursor.
    pub cursor: usize,
    /// Whether the cursor shows at this moment of its blinking.
    pub cursor_visible: bool,
    /// The suggestions on offer.
    pub suggestions: Vec<String>,
    /// The position of the selected suggestion, if any.
    pub selected: Option<usize>,
}

impl View for Snapshot {
    type V = Picture;

    open spec fn view(&self) -> Picture {
        Picture {
            lines: line_views(self.lines@),
            input: self.input@,
            cursor: self.cursor as nat,
            cursor_visible: self.cursor_visible,
            suggestions: texts(self.suggestions@),
            selected: match self.selected {
                Some(i) => Some(i as nat),
                None => None,
            },
        }
    }
}

/// The session engine.
pub struct TerminalApp {
    lines: LineBuffer,
    input: InputEditor,
    history: HistoryStore,
    vocabulary: Vocabulary,
    completion: AutocompleteState,
    context: SessionContext,
    pending: Request,
    cursor_visible: bool,
    waited: u64,
}

impl View for TerminalApp {
    type V = Session;

    closed spec fn view(&self) -> Session {
        Session {
            transcript: self.lines@,
            input: self.input@,
            history: self.history@,
            vocabulary: self.vocabulary@,
            completion: self.completion@,
            context: self.context@,
            pending: self.pending@,
            blink: Blink { visible: self.cursor_visible, waited: self.waited as nat },
        }
    }
}

impl TerminalApp {
    /// Every part of the engine is well formed.
    pub open spec fn wf(&self) -> bool {
        self@.wf()
    }

    /// An engine with the built-in vocabulary and a transcript of
    /// `DEFAULT_CAPACITY` lines.  It greets and asks for the branch so that
    /// the first prompt can follow.
    pub fn new(context: SessionContext) -> (app: TerminalApp)
        ensures
            app@ == Session::start(
                context@,
                DEFAULT_CAPACITY as nat,
                Lexicon { commands: standard_commands(), tables: standard_tables() },
            ),
            app.wf(),
    {
        TerminalApp::with_settings(context, DEFAULT_CAPACITY, Vocabulary::standard())
    }

    /// An engine with a vocabulary and a transcript capacity of the caller's
    /// choice.
    pub fn with_settings(context: SessionContext, capacity: usize, vocabulary: Vocabulary) -> (app:
        TerminalApp)
        ensures
            app@ == Session::start(context@, capacity as nat, vocabulary@),
            app.wf(),
    {
        let mut lines = LineBuffer::new(capacity);
        lines.append("Terminal Ready", LineRole::Output);
        lines.append("", LineRole::Output);
        let pending = Request::ProbeBranch { dir: context.current_dir().to_string() };
        TerminalApp {
            lines,
            input: InputEditor::new(),
            history: HistoryStore::new(),
            vocabulary,
            completion: AutocompleteState::new(),
            context,
            pending,
            cursor_visible: true,
            waited: 0,
        }
    }

    /// Appends one line to the transcript.
    pub fn add_line(&mut self, text: &str, role: LineRole)
        ensures
            final(self)@ == old(self)@.add_line(text@, role),
            old(self).wf() ==> final(self).wf(),
    {
        self.lines.append(text, role);
    }

    /// Appends the given texts to the transcript as output lines.
    pub fn add_output(&mut self, lines: &Vec<String>)
        ensures
            final(self)@ == old(self)@.add_output(texts(lines@)),
            old(self).wf() ==> final(self).wf(),
    {
        let ghost all = as_output(texts(lines@));
        let mut i: usize = 0;
        assert(all.take(0) =~= Seq::empty());
        while i < lines.len()
            invariant
                i <= lines.len(),
                all == as_output(texts(lines@)),
                self@ == (Session {
                    transcript: old(self)@.transcript.append_all(all.take(i as int)),
                    ..old(self)@
                }),
            decreases lines.len() - i,
        {
            proof {
                assert(all.take(i + 1).drop_last() =~= all.take(i as int));
            }
            self.lines.append(lines[i].as_str(), LineRole::Output);
            i += 1;
        }
        proof {
            assert(all.take(i as int) =~= all);
            if old(self).wf() {
                lemma_append_all_bounded(old(self)@.transcript, all);
            }
        }
    }

    /// Appends the prompt: the header line, which shows the user, the host,
    /// the working directory and `branch` if it is not empty, and the input
    /// mark.
    pub fn show_prompt(&mut self, branch: &str)
        ensures
            final(self)@ == old(self)@.show_prompt(branch@),
            old(self).wf() ==> final(self).wf(),
    {
        let line = render_header(
            self.context.username(),
            self.context.hostname(),
            self.context.current_dir(),
            self.context.prompt_home(),
            branch,
        );
        self.lines.append(line.as_str(), LineRole::Prompt);
        self.lines.append("> ", LineRole::Prompt);
    }

    /// Appends the help text for `command` to the transcript.
    pub fn format_help_output(&mut self, command: &str)
        ensures
            final(self)@ == old(self)@.format_help_output(command@),
            old(self).wf() ==> final(self).wf(),
    {
        let lines = help_text(command);
        self.add_output(&lines);
    }

    /// Computes the suggestions anew from the input line.
    pub fn update_autocomplete(&mut self)
        ensures
            final(self)@ == old(self)@.update_autocomplete(),
            old(self).wf() ==> final(self).wf(),
    {
        let line = self.input.text();
        self.completion.update(&self.vocabulary, line.as_str());
    }

    /// Moves the selection to the next suggestion and puts it in the place
    /// of the last word of the input line.  Says whether there was a
    /// suggestion to apply.
    pub fn apply_autocomplete(&mut self) -> (applied: bool)
        requires
            old(self).wf(),
        ensures
            final(self)@ == old(self)@.apply_autocomplete(),
            applied == (old(self)@.completion.suggestions.len() > 0),
            final(self).wf(),
    {
        match self.completion.cycle_selection() {
            Some(selection) => {
                let line = self.input.text();
                let next = apply_to(line.as_str(), selection.as_str());
                self.input.replace(next.as_str());
                true
            },
            None => false,
        }
    }

    /// Whether the engine waits for nothing and takes keys.
    pub fn is_idle(&self) -> (b: bool)
        ensures
            b == (self@.pending is Nothing),
    {
        match &self.pending {
            Request::Nothing => true,
            _ => false,
        }
    }

    fn await_branch(&mut self)
        ensures
            final(self)@ == old(self)@.await_branch(),
            old(self).wf() ==> final(self).wf(),
    {
        self.pending = Request::ProbeBranch { dir: self.context.current_dir().to_string() };
    }

    fn run(&mut self, command: Command)
        requires
            old(self).wf(),
        ensures
            final(self)@ == old(self)@.run(command@),
            final(self).wf(),
    {
        match command {
            Command::Blank => {
                self.await_branch();
            },
            Command::Clear => {
                self.lines.clear();
                self.await_branch();
            },
            Command::Exit => {
                self.pending = Request::Exit;
            },
            Command::ChangeDirectory { target } => {
                let target = match target {
                    Some(t) => t,
                    None => self.context.cd_home().to_string(),
                };
                let path = resolve_path(self.context.current_dir(), target.as_str());
                self.pending = Request::ResolveDirectory { target, path };
            },
            Command::PrintDirectory => {
                self.lines.append(self.context.current_dir(), LineRole::Output);
                self.await_branch();
            },
            Command::ShowHistory => {
                let lines = history_listing_text(&self.history);
                self.add_output(&lines);
                self.await_branch();
            },
            Command::External { program, args } => {
                self.pending = Request::Run {
                    program,
                    args,
                    dir: self.context.current_dir().to_string(),
                };
            },
        }
    }

    /// Takes a submitted line.  A blank line only asks for a new prompt.
    /// Any other line is echoed and recorded, and a built-in command is
    /// carried out at once.  The result says what the host is to do next.
    /// While a request is pending the line is ignored.
    pub fn execute_command(&mut self, command: &str) -> (request: Request)
        requires
            old(self).wf(),
        ensures
            final(self)@ == old(self)@.execute_command(command@),
            request@ == final(self)@.pending,
            final(self).wf(),
    {
        if self.is_idle() {
            if is_blank_text(command) {
                self.await_branch();
            } else {
                self.history.record(command);
                self.lines.append(command, LineRole::Input);
                let order = parse_command(command);
                self.run(order);
            }
        }
        self.pending.duplicate()
    }

    /// Takes the host's answer to a directory lookup.  It is ignored unless
    /// a lookup is pending.
    pub fn directory_resolved(&mut self, lookup: DirLookup) -> (request: Request)
        requires
            old(self).wf(),
        ensures
            final(self)@ == old(self)@.directory_resolved(lookup@),
            request@ == final(self)@.pending,
            final(self).wf(),
    {
        let line = match &self.pending {
            Request::ResolveDirectory { target, path } => match &lookup {
                DirLookup::Directory { canonical } => None,
                DirLookup::NotDirectory => Some(not_a_directory_text(target.as_str())),
                DirLookup::Missing => Some(missing_directory_text(target.as_str())),
            },
            _ => {
                return self.pending.duplicate();
            },
        };
        match line {
            Some(l) => {
                self.lines.append(l.as_str(), LineRole::Output);
            },
            None => {
                if let DirLookup::Directory { canonical } = lookup {
                    self.context.current_dir = canonical;
                }
            },
        }
        self.await_branch();
        self.pending.duplicate()
    }

    /// Takes the host's answer to a request to run a program.  It is
    /// ignored unless such a request is pending.
    pub fn process_finished(&mut self, outcome: ProcessOutcome) -> (request: Request)
        requires
            old(self).wf(),
        ensures
            final(self)@ == old(self)@.process_finished(outcome@),
            request@ == final(self)@.pending,
            final(self).wf(),
    {
        let mut lines: Vec<String> = Vec::new();
        let mut failure: Option<String> = None;
        match &self.pending {
            Request::Run { program, args, dir } => match &outcome {
                ProcessOutcome::Finished(report) => {
                    lines = report_text(program.as_str(), report);
                },
                ProcessOutcome::SpawnFailed { reason } => {
                    failure = Some(spawn_failure_text(program.as_str(), reason.as_str()));
                },
            },
            _ => {
                return self.pending.duplicate();
            },
        }
        match failure {
            Some(line) => {
                self.lines.append(line.as_str(), LineRole::Output);
            },
            None => {
                self.add_output(&lines);
            },
        }
        self.await_branch();
        self.pending.duplicate()
    }

    /// Takes the host's answer to a branch query and appends the prompt.
    /// It is ignored unless such a query is pending.
    pub fn branch_probed(&mut self, probe: BranchProbe) -> (request: Request)
        requires
            old(self).wf(),
        ensures
            final(self)@ == old(self)@.branch_probed(probe@),
            request@ == final(self)@.pending,
            final(self).wf(),
    {
        match &self.pending {
            Request::ProbeBranch { dir } => {},
            _ => {
                return self.pending.duplicate();
            },
        }
        let label = render_branch(probe.ran, probe.output.as_str());
        self.show_prompt(label.as_str());
        self.pending = Request::Nothing;
        Request::Nothing
    }

    /// Takes typed text.  It is ignored while a request is pending.
    pub fn insert_text(&mut self, text: &str)
        requires
            old(self).wf(),
        ensures
            final(self)@ == old(self)@.insert_text(text@),
            final(self).wf(),
    {
        if self.is_idle() {
            self.input.insert_text(text);
            self.update_autocomplete();
        }
    }

    /// Takes a key press and says what the host is to do next.  The key is
    /// ignored while a request is pending.
    pub fn handle_key(&mut self, key: Key, ctrl: bool) -> (request: Request)
        requires
            old(self).wf(),
        ensures
            final(self)@ == old(self)@.handle_key(key, ctrl),
            request@ == final(self)@.pending,
            final(self).wf(),
    {
        if !self.is_idle() {
            return self.pending.duplicate();
        }
        match key {
            Key::Enter => {
                let line = self.input.take();
                self.completion.clear();
                return self.execute_command(line.as_str());
            },
            Key::Backspace => {
                if self.input.cursor() > 0 {
                    self.input.delete_before_cursor();
                    self.update_autocomplete();
                }
            },
            Key::Delete => {
                if self.input.cursor() < self.input.len() {
                    self.input.delete_at_cursor();
                    self.update_autocomplete();
                }
            },
            Key::ArrowLeft => {
                self.input.move_cursor(CursorMove::By(-1));
            },
            Key::ArrowRight => {
                self.input.move_cursor(CursorMove::By(1));
            },
            Key::ArrowUp => {
                self.completion.clear();
                match self.history.recall_previous() {
                    Some(entry) => {
                        self.input.replace(entry.as_str());
                    },
                    None => {},
                }
            },
            Key::ArrowDown => {
                self.completion.clear();
                match self.history.recall_next() {
                    Some(entry) => {
                        self.input.replace(entry.as_str());
                    },
                    None => {},
                }
            },
            Key::Home => {
                self.input.move_cursor(CursorMove::ToStart);
            },
            Key::End => {
                self.input.move_cursor(CursorMove::ToEnd);
            },
            Key::Tab => {
                if !self.apply_autocomplete() {
                    self.input.append_char(' ');
                    self.update_autocomplete();
                }
            },
            Key::Escape => {
                self.completion.clear();
            },
            Key::C => {
                if ctrl {
                    self.lines.append("^C", LineRole::Output);
                    let _ = self.input.take();
                    self.completion.clear();
                    self.await_branch();
                }
            },
            Key::D => {
                if ctrl {
                    self.pending = Request::Exit;
                }
            },
            Key::L => {
                if ctrl {
                    self.lines.clear();
                    self.await_branch();
                }
            },
            Key::Other => {},
        }
        self.pending.duplicate()
    }

    /// Takes the time, in milliseconds, that has passed since the last
    /// tick, or since the engine was made.  Says whether the cursor changed
    /// between shown and hidden.
    pub fn tick(&mut self, elapsed: u64) -> (changed: bool)
        requires
            old(self).wf(),
        ensures
            final(self)@ == old(self)@.tick(elapsed as nat),
            changed == old(self)@.blink.due(elapsed as nat),
            final(self).wf(),
    {
        if elapsed > BLINK_MILLIS - self.waited {
            self.cursor_visible = !self.cursor_visible;
            self.waited = 0;
            true
        } else {
            self.waited = self.waited + elapsed;
            false
        }
    }

    /// What there is to render: the transcript, the input line with its
    /// cursor, and the suggestions with the selection.
    pub fn snapshot(&self) -> (snapshot: Snapshot)
        ensures
            snapshot@ == self@.snapshot(),
    {
        let suggestions = copy_texts(self.completion.suggestions());
        Snapshot {
            lines: self.lines.iterate(),
            input: self.input.text(),
            cursor: self.input.cursor(),
            cursor_visible: self.cursor_visible,
            suggestions,
            selected: self.completion.selected(),
        }
    }

    /// The transcript.
    pub fn lines(&self) -> (lines: &LineBuffer)
        ensures
            lines@ == self@.transcript,
    {
        &self.lines
    }

    /// The input line.
    pub fn input(&self) -> (input: &InputEditor)
        ensures
            input@ == self@.input,
    {
        &self.input
    }

    /// The history.
    pub fn history(&self) -> (history: &HistoryStore)
        ensures
            history@ == self@.history,
    {
        &self.history
    }

    /// The autocomplete state.
    pub fn completion(&self) -> (completion: &AutocompleteState)
        ensures
            completion@ == self@.completion,
    {
        &self.completion
    }

    /// The session context.
    pub fn context(&self) -> (context: &SessionContext)
        ensures
            context@ == self@.context,
    {
        &self.context
    }

    /// What the engine is waiting for.
    pub fn pending(&self) -> (request: &Request)
        ensures
            request@ == self@.pending,
    {
        &self.pending
    }
}

} // verus!
