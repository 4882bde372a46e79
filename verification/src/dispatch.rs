//! The command dispatcher: what a submitted line asks for, and the lines
//! that the built-in commands and finished programs put into the transcript.

use vstd::prelude::*;
use vstd::string::*;
use crate::host::{ProcessReport, Report};
use crate::text::{
    decimal, lines_of, push_decimal, push_signed_decimal, push_text, signed_decimal,
    split_lines, split_words, text_eq, texts, words,
};

verus! {

/// What a submitted line asks for, as a mathematical value.
pub ghost enum Order {
    Blank,
    Clear,
    Exit,
    ChangeDirectory { target: Option<Seq<char>> },
    PrintDirectory,
    ShowHistory,
    External { program: Seq<char>, args: Seq<Seq<char>> },
}

/// What `line` asks for.  Its first word is the command name and the words
/// after it are the arguments.  The names `clear`, `exit`, `cd`, `pwd` and
/// `history` are built in and matched case for case; any other name stands
/// for a program to run with all the arguments, whatever they are.
pub open spec fn classify(line: Seq<char>) -> Order {
    let ws = words(line);
    if ws.len() == 0 {
        Order::Blank
    } else {
        let name = ws[0];
        let args = ws.skip(1);
        if name == "clear"@ {
            Order::Clear
        } else if name == "exit"@ {
            Order::Exit
        } else if name == "cd"@ {
            Order::ChangeDirectory {
                target: if args.len() == 0 {
                    None
                } else {
                    Some(args[0])
                },
            }
        } else if name == "pwd"@ {
            Order::PrintDirectory
        } else if name == "history"@ {
            Order::ShowHistory
        } else {
            Order::External { program: name, args }
        }
    }
}

/// What a submitted line asks for.
#[derive(Debug)]
pub enum Command {
    /// Nothing: the line is empty or blank.
    Blank,
    /// Empty the transcript.
    Clear,
    /// End the session.
    Exit,
    /// Change the working directory to `target`, or to the home directory
    /// if none is named.
    ChangeDirectory { target: Option<String> },
    /// Print the working directory.
    PrintDirectory,
    /// List the history.
    ShowHistory,
    /// Run the program `program` with the arguments `args`.
    External { program: String, args: Vec<String> },
}

impl View for Command {
    type V = Order;

    open spec fn view(&self) -> Order {
        match self {
            Command::Blank => Order::Blank,
            Command::Clear => Order::Clear,
            Command::Exit => Order::Exit,
            Command::ChangeDirectory { target } => Order::ChangeDirectory {
                target: match target {
                    Some(t) => Some(t@),
                    None => None,
                },
            },
            Command::PrintDirectory => Order::PrintDirectory,
            Command::ShowHistory => Order::ShowHistory,
            Command::External { program, args } => Order::External {
                program: program@,
                args: texts(args@),
            },
        }
    }
}

/// Works out what `line` asks for.
pub fn parse_command(line: &str) -> (command: Command)
    ensures
        command@ == classify(line@),
{
    let ws = split_words(line);
    if ws.len() == 0 {
        return Command::Blank;
    }
    let name = ws[0].as_str();
    let ghost args = words(line@).skip(1);
    if text_eq(name, "clear") {
        Command::Clear
    } else if text_eq(name, "exit") {
        Command::Exit
    } else if text_eq(name, "cd") {
        if ws.len() == 1 {
            Command::ChangeDirectory { target: None }
        } else {
            assert(args[0] == ws@[1]@);
            Command::ChangeDirectory { target: Some(ws[1].clone()) }
        }
    } else if text_eq(name, "pwd") {
        Command::PrintDirectory
    } else if text_eq(name, "history") {
        Command::ShowHistory
    } else {
        let mut rest: Vec<String> = Vec::new();
        let mut i: usize = 1;
        assert(texts(rest@) =~= args.take(0));
        while i < ws.len()
            invariant
                1 <= i <= ws.len(),
                args == texts(ws@).skip(1),
                texts(rest@) == args.take(i - 1),
            decreases ws.len() - i,
        {
            push_text(&mut rest, ws[i].as_str());
            assert(args.take(i as int) =~= args.take(i - 1).push(ws@[i as int]@));
            i += 1;
        }
        assert(args.take(i - 1) =~= args);
        Command::External { program: name.to_string(), args: rest }
    }
}

/// The help text for the command `topic`: two lines for `ls`, `grep` and
/// `git`, and one line that points to the command's own help for any other.
pub open spec fn help_lines(topic: Seq<char>) -> Seq<Seq<char>> {
    if topic == "ls"@ {
        seq!["📁 ls - List files"@, "-l (detailed), -a (hidden), -lh (sizes)"@]
    } else if topic == "grep"@ {
        seq![
            "🔍 grep - Search text"@,
            "-i (ignore case), -r (recursive), -n (line numbers)"@,
        ]
    } else if topic == "git"@ {
        seq!["🌿 git - Version control"@, "status, add, commit, push, pull"@]
    } else {
        seq!["ℹ️  "@ + topic + " - Try "@ + topic + " --help"@]
    }
}

fn pair(a: &str, b: &str) -> (v: Vec<String>)
    ensures
        texts(v@) == seq![a@, b@],
{
    let mut v: Vec<String> = Vec::new();
    assert(texts(v@) =~= Seq::empty());
    push_text(&mut v, a);
    push_text(&mut v, b);
    assert(texts(v@) =~= seq![a@, b@]);
    v
}

/// Writes the help text for the command `topic`.
pub fn help_text(topic: &str) -> (lines: Vec<String>)
    ensures
        texts(lines@) == help_lines(topic@),
{
    if text_eq(topic, "ls") {
        pair("📁 ls - List files", "-l (detailed), -a (hidden), -lh (sizes)")
    } else if text_eq(topic, "grep") {
        pair("🔍 grep - Search text", "-i (ignore case), -r (recursive), -n (line numbers)")
    } else if text_eq(topic, "git") {
        pair("🌿 git - Version control", "status, add, commit, push, pull")
    } else {
        let mut line = "ℹ️  ".to_string();
        line.append(topic);
        line.append(" - Try ");
        line.append(topic);
        line.append(" --help");
        let mut v: Vec<String> = Vec::new();
        assert(texts(v@) =~= Seq::empty());
        push_text(&mut v, line.as_str());
        assert(texts(v@) =~= seq![line@]);
        v
    }
}

/// The path that `cd` hands to the host: `target` itself if it starts at
/// the root, else `target` below `current_dir`.
pub open spec fn resolve(current_dir: Seq<char>, target: Seq<char>) -> Seq<char> {
    if target.len() > 0 && target[0] == '/' {
        target
    } else if current_dir.len() > 0 && current_dir.last() != '/' {
        current_dir + seq!['/'] + target
    } else {
        current_dir + target
    }
}

/// Joins `target` to `current_dir` unless it starts at the root.
pub fn resolve_path(current_dir: &str, target: &str) -> (path: String)
    ensures
        path@ == resolve(current_dir@, target@),
{
    if target.unicode_len() > 0 && target.get_char(0) == '/' {
        return target.to_string();
    }
    let n = current_dir.unicode_len();
    let mut path = current_dir.to_string();
    if n > 0 && current_dir.get_char(n - 1) != '/' {
        path.append("/");
        proof {
            reveal_strlit("/");
            assert("/"@ =~= seq!['/']);
        }
    }
    path.append(target);
    path
}

/// The line that reports a directory that could not be resolved.
pub open spec fn missing_directory(target: Seq<char>) -> Seq<char> {
    "cd: "@ + target + ": No such file or directory"@
}

/// The line that reports a path that is no directory.
pub open spec fn not_a_directory(target: Seq<char>) -> Seq<char> {
    "cd: "@ + target + ": Not a directory"@
}

/// The line that reports a program that could not be started.
pub open spec fn spawn_failure(program: Seq<char>, reason: Seq<char>) -> Seq<char> {
    "Failed to execute '"@ + program + "': "@ + reason
}

/// The line that reports the exit code of a program that failed.
pub open spec fn exit_line(program: Seq<char>, code: int) -> Seq<char> {
    "Command '"@ + program + "' exited with code "@ + signed_decimal(code)
}

/// A line of the error stream as the transcript shows it.
pub open spec fn error_line(line: Seq<char>) -> Seq<char> {
    "ERROR: "@ + line
}

/// The lines of the error stream as the transcript shows them: the empty
/// ones are left out and the others are marked.
pub open spec fn error_lines(lines: Seq<Seq<char>>) -> Seq<Seq<char>>
    decreases lines.len(),
{
    if lines.len() == 0 {
        Seq::empty()
    } else if lines.last().len() == 0 {
        error_lines(lines.drop_last())
    } else {
        error_lines(lines.drop_last()).push(error_line(lines.last()))
    }
}

/// What a finished program puts into the transcript: each line of its
/// output, each non-empty line of its error stream, marked, and, if it
/// failed with an exit code, a line that reports the code.
pub open spec fn report_lines(program: Seq<char>, report: Report) -> Seq<Seq<char>> {
    lines_of(report.stdout) + error_lines(lines_of(report.stderr)) + if !report.success
        && report.code is Some {
        seq![exit_line(program, report.code->0)]
    } else {
        Seq::empty()
    }
}

/// Writes the line that reports a directory that could not be resolved.
pub fn missing_directory_text(target: &str) -> (line: String)
    ensures
        line@ == missing_directory(target@),
{
    let mut line = "cd: ".to_string();
    line.append(target);
    line.append(": No such file or directory");
    line
}

/// Writes the line that reports a path that is no directory.
pub fn not_a_directory_text(target: &str) -> (line: String)
    ensures
        line@ == not_a_directory(target@),
{
    let mut line = "cd: ".to_string();
    line.append(target);
    line.append(": Not a directory");
    line
}

/// Writes the line that reports a program that could not be started.
pub fn spawn_failure_text(program: &str, reason: &str) -> (line: String)
    ensures
        line@ == spawn_failure(program@, reason@),
{
    let mut line = "Failed to execute '".to_string();
    line.append(program);
    line.append("': ");
    line.append(reason);
    line
}

/// Writes what a finished program puts into the transcript.
pub fn report_text(program: &str, report: &ProcessReport) -> (lines: Vec<String>)
    ensures
        texts(lines@) == report_lines(program@, report@),
{
    let mut lines = split_lines(report.stdout.as_str());
    let errors = split_lines(report.stderr.as_str());
    let ghost out = lines_of(report@.stdout);
    let ghost errs = lines_of(report@.stderr);
    let mut i: usize = 0;
    assert(errs.take(0) =~= Seq::empty());
    assert(texts(lines@) =~= out + error_lines(errs.take(0)));
    while i < errors.len()
        invariant
            i <= errors.len(),
            texts(errors@) == errs,
            texts(lines@) == out + error_lines(errs.take(i as int)),
        decreases errors.len() - i,
    {
        let ghost before = texts(lines@);
        proof {
            assert(errs.take(i + 1).drop_last() =~= errs.take(i as int));
            assert(errs.take(i + 1).last() == errors@[i as int]@);
        }
        if errors[i].as_str().unicode_len() > 0 {
            let mut line = "ERROR: ".to_string();
            line.append(errors[i].as_str());
            push_text(&mut lines, line.as_str());
            assert(texts(lines@) =~= out + error_lines(errs.take(i + 1)));
        }
        i += 1;
    }
    assert(errs.take(i as int) =~= errs);
    if !report.success {
        if let Some(code) = report.code {
            let mut line = "Command '".to_string();
            line.append(program);
            line.append("' exited with code ");
            push_signed_decimal(&mut line, code);
            let ghost before = texts(lines@);
            push_text(&mut lines, line.as_str());
            assert(texts(lines@) =~= before + seq![exit_line(program@, code as int)]);
            return lines;
        }
    }
    assert(texts(lines@) =~= texts(lines@) + Seq::<Seq<char>>::empty());
    lines
}

/// The line that lists the history entry at position `i`.
pub open spec fn history_line(i: nat, entry: Seq<char>) -> Seq<char> {
    " "@ + decimal(i + 1) + ": "@ + entry
}

/// The lines that list `entries`, each with its number, counted from one.
pub open spec fn history_listing(entries: Seq<Seq<char>>) -> Seq<Seq<char>> {
    Seq::new(entries.len(), |i: int| history_line(i as nat, entries[i]))
}

/// Writes the line that lists the history entry at position `i`.
pub(crate) fn history_line_text(i: usize, entry: &str) -> (line: String)
    requires
        i < usize::MAX,
    ensures
        line@ == history_line(i as nat, entry@),
{
    let mut line = " ".to_string();
    push_decimal(&mut line, (i + 1) as u64);
    line.append(": ");
    line.append(entry);
    line
}

} // verus!
