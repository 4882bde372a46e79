//! Autocomplete: which completions the vocabulary offers for the word being
//! typed, the cyclic selection among them, and how a selection is put into
//! the input line.

use vstd::prelude::*;
use vstd::string::*;
use crate::chars::{char_is_whitespace, is_whitespace};
use crate::text::{
    chars_of, has_prefix_at, join_first, join_spaced, push_char, push_text, split_words, text_eq,
    texts, words,
};

verus! {

/// The most suggestions offered at once.
pub const MAX_SUGGESTIONS: usize = 5;

/// The flags and subcommands known for one command, as a mathematical value.
pub ghost struct FlagTable {
    pub command: Seq<char>,
    pub flags: Seq<Seq<char>>,
}

/// The vocabulary as a mathematical value: the command names, and for some
/// commands their flags.
pub ghost struct Lexicon {
    pub commands: Seq<Seq<char>>,
    pub tables: Seq<FlagTable>,
}

/// The flags of the first table for `command`, if there is one.
pub open spec fn lookup(tables: Seq<FlagTable>, command: Seq<char>) -> Option<Seq<Seq<char>>>
    decreases tables.len(),
{
    if tables.len() == 0 {
        None
    } else if tables[0].command == command {
        Some(tables[0].flags)
    } else {
        lookup(tables.drop_first(), command)
    }
}

/// The tables after the flags of `command` are set to `flags`: the table
/// for `command` is replaced where it stands, or a new table is added at
/// the end if there was none.
pub open spec fn with_flags(
    tables: Seq<FlagTable>,
    command: Seq<char>,
    flags: Seq<Seq<char>>,
) -> Seq<FlagTable>
    decreases tables.len(),
{
    if tables.len() == 0 {
        seq![FlagTable { command, flags }]
    } else if tables[0].command == command {
        seq![FlagTable { command, flags }] + tables.drop_first()
    } else {
        seq![tables[0]] + with_flags(tables.drop_first(), command, flags)
    }
}

/// Setting flags replaces the table at the first position that holds the
/// command, or adds a table if no position holds it.
pub proof fn lemma_with_flags_at(
    tables: Seq<FlagTable>,
    command: Seq<char>,
    flags: Seq<Seq<char>>,
    i: int,
)
    requires
        0 <= i <= tables.len(),
        forall|k: int| 0 <= k < i ==> (#[trigger] tables[k]).command != command,
        i < tables.len() ==> tables[i].command == command,
    ensures
        i < tables.len() ==> with_flags(tables, command, flags) == tables.update(
            i,
            FlagTable { command, flags },
        ),
        i == tables.len() ==> with_flags(tables, command, flags) == tables.push(
            FlagTable { command, flags },
        ),
    decreases i,
{
    let new = FlagTable { command, flags };
    if i == 0 {
        if tables.len() > 0 {
            assert(seq![new] + tables.drop_first() =~= tables.update(0, new));
        } else {
            assert(seq![new] =~= tables.push(new));
        }
    } else {
        let rest = tables.drop_first();
        assert(tables[0].command != command);
        assert forall|k: int| 0 <= k < i - 1 implies (#[trigger] rest[k]).command != command by {
            assert(rest[k] == tables[k + 1]);
        }
        lemma_with_flags_at(rest, command, flags, i - 1);
        if i < tables.len() {
            assert(seq![tables[0]] + rest.update(i - 1, new) =~= tables.update(i, new));
        } else {
            assert(seq![tables[0]] + rest.push(new) =~= tables.push(new));
        }
    }
}

/// Setting flags works as an insert into a map does: the command then has
/// the new flags, and every other command has the flags it had.
pub proof fn lemma_with_flags_is_insert(
    tables: Seq<FlagTable>,
    command: Seq<char>,
    flags: Seq<Seq<char>>,
    other: Seq<char>,
)
    ensures
        lookup(with_flags(tables, command, flags), command) == Some(flags),
        other != command ==> lookup(with_flags(tables, command, flags), other) == lookup(
            tables,
            other,
        ),
    decreases tables.len(),
{
    let new = FlagTable { command, flags };
    if tables.len() == 0 {
        assert(seq![new].drop_first() =~= tables);
    } else if tables[0].command == command {
        assert((seq![new] + tables.drop_first()).drop_first() =~= tables.drop_first());
    } else {
        let rest = tables.drop_first();
        lemma_with_flags_is_insert(rest, command, flags, other);
        assert((seq![tables[0]] + with_flags(rest, command, flags)).drop_first() =~= with_flags(
            rest,
            command,
            flags,
        ));
    }
}

/// Whether `candidate` completes `partial`: it starts with `partial`, case
/// for case, and is longer.
pub open spec fn completes(partial: Seq<char>, candidate: Seq<char>) -> bool {
    partial.is_prefix_of(candidate) && candidate != partial
}

/// The candidates that complete `partial`, in the order of `candidates`.
pub open spec fn completions(candidates: Seq<Seq<char>>, partial: Seq<char>) -> Seq<Seq<char>>
    decreases candidates.len(),
{
    if candidates.len() == 0 {
        Seq::empty()
    } else if completes(partial, candidates.last()) {
        completions(candidates.drop_last(), partial).push(candidates.last())
    } else {
        completions(candidates.drop_last(), partial)
    }
}

/// The first `MAX_SUGGESTIONS` of `s`, or all of `s` if it has fewer.
pub open spec fn capped(s: Seq<Seq<char>>) -> Seq<Seq<char>> {
    if s.len() > MAX_SUGGESTIONS {
        s.take(MAX_SUGGESTIONS as int)
    } else {
        s
    }
}

/// The word being typed: the last word of `input`, or nothing if `input`
/// has no word or ends in white space.
pub open spec fn current_token(input: Seq<char>) -> Seq<char> {
    if words(input).len() == 0 || is_whitespace(input.last()) {
        Seq::empty()
    } else {
        words(input).last()
    }
}

/// The suggestions for `input`.  The first word is completed from the
/// command names.  A later word that starts with a hyphen is completed from
/// the flags of the first word.  Anything else gets no suggestion.
pub open spec fn suggest(vocabulary: Lexicon, input: Seq<char>) -> Seq<Seq<char>> {
    let ws = words(input);
    let token = current_token(input);
    if token.len() == 0 {
        Seq::empty()
    } else if ws.len() <= 1 {
        capped(completions(vocabulary.commands, token))
    } else if token[0] == '-' {
        match lookup(vocabulary.tables, ws[0]) {
            Some(flags) => capped(completions(flags, token)),
            None => Seq::empty(),
        }
    } else {
        Seq::empty()
    }
}

/// `input` with its last word replaced by `selection`.  The words before it
/// are kept, joined by single spaces.  A space follows the selection if it
/// is a command name, that is if it stands where the first word stands or
/// would stand, or if it is a flag, that is if it starts with a hyphen.
pub open spec fn apply_selection(input: Seq<char>, selection: Seq<char>) -> Seq<char> {
    let ws = words(input);
    let kept = if ws.len() == 0 {
        Seq::empty()
    } else {
        join_spaced(ws.drop_last())
    };
    let head = if kept.len() > 0 {
        kept.push(' ')
    } else {
        kept
    };
    let tail = if (selection.len() > 0 && selection[0] == '-') || ws.len() <= 1 {
        seq![' ']
    } else {
        Seq::empty()
    };
    head + selection + tail
}

/// The completions of a concatenation are the completions of its parts.
pub proof fn lemma_completions_concat(a: Seq<Seq<char>>, b: Seq<Seq<char>>, partial: Seq<char>)
    ensures
        completions(a + b, partial) == completions(a, partial) + completions(b, partial),
    decreases b.len(),
{
    if b.len() == 0 {
        assert(a + b =~= a);
        assert(completions(a, partial) + completions(b, partial) =~= completions(a, partial));
    } else {
        lemma_completions_concat(a, b.drop_last(), partial);
        assert((a + b).drop_last() =~= a + b.drop_last());
        assert((a + b).last() == b.last());
        assert(completions(a + b, partial) =~= completions(a, partial) + completions(b, partial));
    }
}

/// A suggestion list never holds more than `MAX_SUGGESTIONS` entries, and
/// each entry completes the word being typed.
pub proof fn lemma_suggest_bounded(vocabulary: Lexicon, input: Seq<char>)
    ensures
        suggest(vocabulary, input).len() <= MAX_SUGGESTIONS,
        forall|k: int|
            0 <= k < suggest(vocabulary, input).len() ==> completes(
                current_token(input),
                #[trigger] suggest(vocabulary, input)[k],
            ),
{
    let token = current_token(input);
    lemma_completions_complete(vocabulary.commands, token);
    match lookup(vocabulary.tables, words(input)[0]) {
        Some(flags) => {
            lemma_completions_complete(flags, token);
        },
        None => {},
    }
}

/// Every completion listed does complete the partial word.
pub proof fn lemma_completions_complete(candidates: Seq<Seq<char>>, partial: Seq<char>)
    ensures
        forall|k: int|
            0 <= k < completions(candidates, partial).len() ==> completes(
                partial,
                #[trigger] completions(candidates, partial)[k],
            ),
    decreases candidates.len(),
{
    if candidates.len() > 0 {
        lemma_completions_complete(candidates.drop_last(), partial);
        let init = completions(candidates.drop_last(), partial);
        assert forall|k: int| 0 <= k < completions(candidates, partial).len() implies completes(
            partial,
            #[trigger] completions(candidates, partial)[k],
        ) by {
            if k < init.len() {
                assert(completions(candidates, partial)[k] == init[k]);
            }
        }
    }
}

/// The autocomplete state as a mathematical value.
pub ghost struct Completion {
    pub suggestions: Seq<Seq<char>>,
    pub selected: Option<nat>,
}

impl Completion {
    /// The selection, if set, points at a suggestion.
    pub open spec fn wf(self) -> bool {
        self.selected matches Some(i) ==> i < self.suggestions.len()
    }

    /// No suggestions and no selection.
    pub open spec fn cleared() -> Completion {
        Completion { suggestions: Seq::empty(), selected: None }
    }

    /// The given suggestions with no selection.
    pub open spec fn fresh(suggestions: Seq<Seq<char>>) -> Completion {
        Completion { suggestions, selected: None }
    }

    /// Where the selection stands after a cycle step: at the first
    /// suggestion to begin with, then one further, and after the last at the
    /// first again.
    pub open spec fn next_index(self) -> nat
        recommends
            self.suggestions.len() > 0,
    {
        match self.selected {
            None => 0,
            Some(i) => (i + 1) % self.suggestions.len(),
        }
    }

    /// The state after a cycle step.  Without suggestions nothing changes.
    pub open spec fn after_cycle(self) -> Completion {
        if self.suggestions.len() == 0 {
            self
        } else {
            Completion { selected: Some(self.next_index()), ..self }
        }
    }

    /// What a cycle step hands out: the suggestion then selected, or nothing
    /// if there are no suggestions.
    pub open spec fn cycled(self) -> Option<Seq<char>> {
        if self.suggestions.len() == 0 {
            None
        } else {
            Some(self.suggestions[self.next_index() as int])
        }
    }
}

/// The flags and subcommands known for one command.
pub struct FlagSet {
    command: String,
    flags: Vec<String>,
}

impl View for FlagSet {
    type V = FlagTable;

    closed spec fn view(&self) -> FlagTable {
        FlagTable { command: self.command@, flags: texts(self.flags@) }
    }
}

/// The tables that a sequence of flag sets stands for.
pub open spec fn table_views(s: Seq<FlagSet>) -> Seq<FlagTable> {
    s.map_values(|t: FlagSet| t@)
}

/// The known command names and, per command, its flags and subcommands.
pub struct Vocabulary {
    commands: Vec<String>,
    tables: Vec<FlagSet>,
}

impl View for Vocabulary {
    type V = Lexicon;

    closed spec fn view(&self) -> Lexicon {
        Lexicon { commands: texts(self.commands@), tables: table_views(self.tables@) }
    }
}

/// The command names of the built-in vocabulary.
pub open spec fn standard_commands() -> Seq<Seq<char>> {
    seq![
        "ls"@,
        "cd"@,
        "pwd"@,
        "mkdir"@,
        "rm"@,
        "cp"@,
        "mv"@,
        "cat"@,
        "grep"@,
        "find"@,
        "chmod"@,
        "ps"@,
        "kill"@,
        "tar"@,
        "curl"@,
        "git"@,
        "clear"@,
        "exit"@,
        "history"@,
        "help"@,
    ]
}

/// The flag tables of the built-in vocabulary.
pub open spec fn standard_tables() -> Seq<FlagTable> {
    seq![
        FlagTable { command: "ls"@, flags: seq!["-l"@, "-a"@, "-la"@, "-lh"@] },
        FlagTable { command: "rm"@, flags: seq!["-r"@, "-f"@, "-rf"@] },
        FlagTable { command: "cp"@, flags: seq!["-r"@, "-v"@] },
        FlagTable { command: "mv"@, flags: seq!["-v"@] },
        FlagTable { command: "grep"@, flags: seq!["-i"@, "-r"@, "-n"@] },
        FlagTable {
            command: "git"@,
            flags: seq!["status"@, "add"@, "commit"@, "push"@, "pull"@],
        },
    ]
}

impl Vocabulary {
    /// A vocabulary with no commands and no flags.
    pub fn new() -> (v: Vocabulary)
        ensures
            v@ == (Lexicon { commands: Seq::empty(), tables: Seq::empty() }),
    {
        let v = Vocabulary { commands: Vec::new(), tables: Vec::new() };
        assert(v@.commands =~= Seq::empty());
        assert(v@.tables =~= Seq::empty());
        v
    }

    /// Adds a command name behind those already known.
    pub fn add_command(&mut self, name: &str)
        ensures
            final(self)@ == (Lexicon { commands: old(self)@.commands.push(name@), ..old(self)@ }),
    {
        self.commands.push(name.to_string());
        assert(texts(self.commands@) =~= texts(old(self).commands@).push(name@));
    }

    /// Sets the flags of `command`.  Flags set earlier for the same command
    /// are replaced.
    pub fn set_flags(&mut self, command: &str, flags: Vec<String>)
        ensures
            final(self)@ == (Lexicon {
                tables: with_flags(old(self)@.tables, command@, texts(flags@)),
                ..old(self)@
            }),
    {
        let table = FlagSet { command: command.to_string(), flags };
        let ghost new = table@;
        let ghost before = table_views(self.tables@);
        let mut i: usize = 0;
        while i < self.tables.len()
            invariant
                i <= self.tables.len(),
                self.tables@ == old(self).tables@,
                self.commands@ == old(self).commands@,
                before == table_views(old(self).tables@),
                new == table@,
                new.command == command@,
                new.flags == texts(flags@),
                forall|k: int| 0 <= k < i ==> (#[trigger] before[k]).command != command@,
            decreases self.tables.len() - i,
        {
            if text_eq(self.tables[i].command.as_str(), command) {
                proof {
                    lemma_with_flags_at(before, new.command, new.flags, i as int);
                }
                self.tables.set(i, table);
                assert(table_views(self.tables@) =~= before.update(i as int, new));
                return ;
            }
            i += 1;
        }
        proof {
            lemma_with_flags_at(before, new.command, new.flags, i as int);
        }
        self.tables.push(table);
        assert(table_views(self.tables@) =~= before.push(new));
    }

    fn push_table(&mut self, command: &str, flags: Vec<String>)
        ensures
            final(self)@ == (Lexicon {
                tables: old(self)@.tables.push(
                    FlagTable { command: command@, flags: texts(flags@) },
                ),
                ..old(self)@
            }),
    {
        let table = FlagSet { command: command.to_string(), flags };
        self.tables.push(table);
        assert(table_views(self.tables@) =~= table_views(old(self).tables@).push(
            FlagTable { command: command@, flags: texts(flags@) },
        ));
    }

    /// The built-in vocabulary.
    pub fn standard() -> (v: Vocabulary)
        ensures
            v@ == (Lexicon { commands: standard_commands(), tables: standard_tables() }),
    {
        let mut v = Vocabulary::new();
        v.add_command("ls");
        v.add_command("cd");
        v.add_command("pwd");
        v.add_command("mkdir");
        v.add_command("rm");
        v.add_command("cp");
        v.add_command("mv");
        v.add_command("cat");
        v.add_command("grep");
        v.add_command("find");
        v.add_command("chmod");
        v.add_command("ps");
        v.add_command("kill");
        v.add_command("tar");
        v.add_command("curl");
        v.add_command("git");
        v.add_command("clear");
        v.add_command("exit");
        v.add_command("history");
        v.add_command("help");
        assert(v@.commands =~= standard_commands());
        v.push_table("ls", four("-l", "-a", "-la", "-lh"));
        v.push_table("rm", three("-r", "-f", "-rf"));
        v.push_table("cp", two("-r", "-v"));
        v.push_table("mv", one("-v"));
        v.push_table("grep", three("-i", "-r", "-n"));
        let mut git = four("status", "add", "commit", "push");
        push_text(&mut git, "pull");
        assert(texts(git@) =~= seq!["status"@, "add"@, "commit"@, "push"@, "pull"@]);
        v.push_table("git", git);
        assert(v@.tables =~= standard_tables());
        v
    }

    /// The flags set for `command`, if any were set.
    pub fn flags_of(&self, command: &str) -> (flags: Option<&Vec<String>>)
        ensures
            match flags {
                Some(f) => lookup(self@.tables, command@) == Some(texts(f@)),
                None => lookup(self@.tables, command@) is None,
            },
    {
        let mut i: usize = 0;
        assert(self@.tables.skip(0) =~= self@.tables);
        while i < self.tables.len()
            invariant
                i <= self.tables.len(),
                lookup(self@.tables, command@) == lookup(self@.tables.skip(i as int), command@),
            decreases self.tables.len() - i,
        {
            assert(self@.tables.skip(i as int).drop_first() =~= self@.tables.skip(i + 1));
            if text_eq(self.tables[i].command.as_str(), command) {
                return Some(&self.tables[i].flags);
            }
            i += 1;
        }
        None
    }

    /// The command names.
    pub fn commands(&self) -> (names: &Vec<String>)
        ensures
            texts(names@) == self@.commands,
    {
        &self.commands
    }
}

fn one(a: &str) -> (v: Vec<String>)
    ensures
        texts(v@) == seq![a@],
{
    let mut v: Vec<String> = Vec::new();
    assert(texts(v@) =~= Seq::empty());
    push_text(&mut v, a);
    assert(texts(v@) =~= seq![a@]);
    v
}

fn two(a: &str, b: &str) -> (v: Vec<String>)
    ensures
        texts(v@) == seq![a@, b@],
{
    let mut v = one(a);
    push_text(&mut v, b);
    assert(texts(v@) =~= seq![a@, b@]);
    v
}

fn three(a: &str, b: &str, c: &str) -> (v: Vec<String>)
    ensures
        texts(v@) == seq![a@, b@, c@],
{
    let mut v = two(a, b);
    push_text(&mut v, c);
    assert(texts(v@) =~= seq![a@, b@, c@]);
    v
}

fn four(a: &str, b: &str, c: &str, d: &str) -> (v: Vec<String>)
    ensures
        texts(v@) == seq![a@, b@, c@, d@],
{
    let mut v = three(a, b, c);
    push_text(&mut v, d);
    assert(texts(v@) =~= seq![a@, b@, c@, d@]);
    v
}

/// The first `MAX_SUGGESTIONS` of `candidates` that complete `partial`.
pub fn complete_from(candidates: &Vec<String>, partial: &str) -> (found: Vec<String>)
    ensures
        texts(found@) == capped(completions(texts(candidates@), partial@)),
{
    let p = chars_of(partial);
    let mut found: Vec<String> = Vec::new();
    let mut i: usize = 0;
    let ghost all = texts(candidates@);
    assert(texts(found@) =~= completions(all.take(0), partial@));
    while i < candidates.len() && found.len() < MAX_SUGGESTIONS
        invariant
            i <= candidates.len(),
            p@ == partial@,
            all == texts(candidates@),
            found.len() <= MAX_SUGGESTIONS,
            texts(found@) == completions(all.take(i as int), partial@),
        decreases candidates.len() - i,
    {
        let c = chars_of(candidates[i].as_str());
        let ghost before = texts(found@);
        proof {
            assert(all.take(i + 1).drop_last() =~= all.take(i as int));
            assert(all.take(i + 1).last() == c@);
            assert(c@.skip(0) =~= c@);
        }
        if has_prefix_at(&c, 0, &p) && c.len() != p.len() {
            found.push(candidates[i].clone());
            proof {
                assert(texts(found@) =~= before.push(c@));
                assert(c@ != p@);
            }
        } else {
            proof {
                if p@.is_prefix_of(c@) {
                    assert(c@ =~= p@);
                }
            }
        }
        i += 1;
    }
    proof {
        lemma_completions_concat(all.take(i as int), all.skip(i as int), partial@);
        assert(all.take(i as int) + all.skip(i as int) =~= all);
        if i == candidates.len() {
            assert(all.take(i as int) =~= all);
        } else {
            assert(texts(found@) =~= (texts(found@) + completions(
                all.skip(i as int),
                partial@,
            )).take(MAX_SUGGESTIONS as int));
        }
    }
    found
}

/// The suggestions that `vocabulary` offers for `input`.
pub fn suggest_for(vocabulary: &Vocabulary, input: &str) -> (found: Vec<String>)
    ensures
        texts(found@) == suggest(vocabulary@, input@),
{
    let ws = split_words(input);
    let v = chars_of(input);
    let none: Vec<String> = Vec::new();
    assert(texts(none@) =~= Seq::empty());
    if ws.len() == 0 || char_is_whitespace(v[v.len() - 1]) {
        return none;
    }
    let token = ws[ws.len() - 1].as_str();
    assert(token@ == words(input@).last());
    if token.unicode_len() == 0 {
        return none;
    }
    if ws.len() <= 1 {
        complete_from(&vocabulary.commands, token)
    } else if token.get_char(0) == '-' {
        match vocabulary.flags_of(ws[0].as_str()) {
            Some(flags) => complete_from(flags, token),
            None => none,
        }
    } else {
        none
    }
}

/// Puts `selection` in the place of the last word of `input`.
pub fn apply_to(input: &str, selection: &str) -> (line: String)
    ensures
        line@ == apply_selection(input@, selection@),
{
    let ws = split_words(input);
    let kept: usize = if ws.len() == 0 {
        0
    } else {
        ws.len() - 1
    };
    let mut line = join_first(&ws, kept);
    proof {
        if ws.len() > 0 {
            assert(texts(ws@).take(kept as int) =~= words(input@).drop_last());
        }
    }
    if line.as_str().unicode_len() > 0 {
        push_char(&mut line, ' ');
    }
    line.append(selection);
    if (selection.unicode_len() > 0 && selection.get_char(0) == '-') || ws.len() <= 1 {
        push_char(&mut line, ' ');
    }
    assert(line@ =~= apply_selection(input@, selection@));
    line
}

/// The suggestions on offer and which of them is selected.
pub struct AutocompleteState {
    suggestions: Vec<String>,
    selected: Option<usize>,
}

impl View for AutocompleteState {
    type V = Completion;

    closed spec fn view(&self) -> Completion {
        Completion {
            suggestions: texts(self.suggestions@),
            selected: match self.selected {
                Some(i) => Some(i as nat),
                None => None,
            },
        }
    }
}

impl AutocompleteState {
    /// The selection, if set, points at a suggestion.
    pub open spec fn wf(&self) -> bool {
        self@.wf()
    }

    /// No suggestions and no selection.
    pub fn new() -> (a: AutocompleteState)
        ensures
            a@ == Completion::cleared(),
            a.wf(),
    {
        let a = AutocompleteState { suggestions: Vec::new(), selected: None };
        assert(a@.suggestions =~= Seq::empty());
        a
    }

    /// Drops the suggestions and the selection.
    pub fn clear(&mut self)
        ensures
            final(self)@ == Completion::cleared(),
            final(self).wf(),
    {
        self.suggestions = Vec::new();
        self.selected = None;
        assert(self@.suggestions =~= Seq::empty());
    }

    /// Computes the suggestions for `input` anew and drops the selection.
    pub fn update(&mut self, vocabulary: &Vocabulary, input: &str)
        ensures
            final(self)@ == Completion::fresh(suggest(vocabulary@, input@)),
            final(self).wf(),
    {
        self.suggestions = suggest_for(vocabulary, input);
        self.selected = None;
    }

    /// Moves the selection to the next suggestion, from the last to the
    /// first again, and hands out the suggestion selected.
    pub fn cycle_selection(&mut self) -> (selection: Option<String>)
        requires
            old(self).wf(),
        ensures
            final(self)@ == old(self)@.after_cycle(),
            final(self).wf(),
            match selection {
                Some(s) => old(self)@.cycled() == Some(s@),
                None => old(self)@.cycled() is None,
            },
    {
        let n = self.suggestions.len();
        if n == 0 {
            return None;
        }
        let i = match self.selected {
            None => 0,
            Some(i) => {
                assert(self@.selected == Some(i as nat));
                (i + 1) % n
            },
        };
        self.selected = Some(i);
        Some(self.suggestions[i].clone())
    }

    /// The suggestions on offer.
    pub fn suggestions(&self) -> (s: &Vec<String>)
        ensures
            texts(s@) == self@.suggestions,
    {
        &self.suggestions
    }

    /// The position of the selected suggestion, if any.
    pub fn selected(&self) -> (c: Option<usize>)
        ensures
            match c {
                Some(i) => self@.selected == Some(i as nat),
                None => self@.selected is None,
            },
    {
        self.selected
    }
}

} // verus!
