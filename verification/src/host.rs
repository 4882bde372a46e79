//! What the engine asks of its host and what the host hands back.
//!
//! The engine never touches the file system or starts a process.  It states
//! a request, the host carries it out, and the outcome comes back as a plain
//! value.

use vstd::prelude::*;
use vstd::utf8::{decode_utf8, valid_utf8};
use crate::text::{push_text, texts};

verus! {

/// A request as a mathematical value.
pub ghost enum Ask {
    Nothing,
    Exit,
    ResolveDirectory { target: Seq<char>, path: Seq<char> },
    Run { program: Seq<char>, args: Seq<Seq<char>>, dir: Seq<char> },
    ProbeBranch { dir: Seq<char> },
}

/// What the engine is waiting for the host to do.
#[derive(Debug)]
pub enum Request {
    /// Nothing: the engine is ready for the next key.
    Nothing,
    /// End the process.
    Exit,
    /// Make `path` canonical and say whether it is a directory.  `target`
    /// is the directory as the user named it.
    ResolveDirectory { target: String, path: String },
    /// Run `program` with `args` in the directory `dir` and collect what it
    /// prints.
    Run { program: String, args: Vec<String>, dir: String },
    /// Ask which branch is checked out in the directory `dir`.
    ProbeBranch { dir: String },
}

impl View for Request {
    type V = Ask;

    open spec fn view(&self) -> Ask {
        match self {
            Request::Nothing => Ask::Nothing,
            Request::Exit => Ask::Exit,
            Request::ResolveDirectory { target, path } => Ask::ResolveDirectory {
                target: target@,
                path: path@,
            },
            Request::Run { program, args, dir } => Ask::Run {
                program: program@,
                args: texts(args@),
                dir: dir@,
            },
            Request::ProbeBranch { dir } => Ask::ProbeBranch { dir: dir@ },
        }
    }
}

/// A copy of `v`.
pub(crate) fn copy_texts(v: &Vec<String>) -> (w: Vec<String>)
    ensures
        texts(w@) == texts(v@),
{
    let mut w: Vec<String> = Vec::new();
    let mut i: usize = 0;
    assert(texts(w@) =~= texts(v@).take(0));
    while i < v.len()
        invariant
            i <= v.len(),
            texts(w@) == texts(v@).take(i as int),
        decreases v.len() - i,
    {
        push_text(&mut w, v[i].as_str());
        assert(texts(v@).take(i + 1) =~= texts(v@).take(i as int).push(v@[i as int]@));
        i += 1;
    }
    assert(texts(v@).take(i as int) =~= texts(v@));
    w
}

impl Request {
    /// A copy of the request.
    pub fn duplicate(&self) -> (r: Request)
        ensures
            r@ == self@,
    {
        match self {
            Request::Nothing => Request::Nothing,
            Request::Exit => Request::Exit,
            Request::ResolveDirectory { target, path } => Request::ResolveDirectory {
                target: target.clone(),
                path: path.clone(),
            },
            Request::Run { program, args, dir } => Request::Run {
                program: program.clone(),
                args: copy_texts(args),
                dir: dir.clone(),
            },
            Request::ProbeBranch { dir } => Request::ProbeBranch { dir: dir.clone() },
        }
    }
}

/// The outcome of a directory lookup as a mathematical value.
pub ghost enum Lookup {
    Directory { canonical: Seq<char> },
    NotDirectory,
    Missing,
}

/// What the host found when it resolved a directory.
#[derive(Debug)]
pub enum DirLookup {
    /// The path names a directory; `canonical` is its canonical form.
    Directory { canonical: String },
    /// The path names something that is no directory.
    NotDirectory,
    /// The path could not be resolved.
    Missing,
}

impl View for DirLookup {
    type V = Lookup;

    open spec fn view(&self) -> Lookup {
        match self {
            DirLookup::Directory { canonical } => Lookup::Directory { canonical: canonical@ },
            DirLookup::NotDirectory => Lookup::NotDirectory,
            DirLookup::Missing => Lookup::Missing,
        }
    }
}

/// What a finished process left behind, as a mathematical value.
pub ghost struct Report {
    pub stdout: Seq<char>,
    pub stderr: Seq<char>,
    pub success: bool,
    pub code: Option<int>,
}

/// The outcome of running a program, as a mathematical value.
pub ghost enum Outcome {
    Finished(Report),
    SpawnFailed { reason: Seq<char> },
}

/// What a finished process left behind: its output as text, whether it
/// succeeded, and its exit code if it has one.
#[derive(Debug)]
pub struct ProcessReport {
    pub stdout: String,
    pub stderr: String,
    pub success: bool,
    pub code: Option<i32>,
}

impl View for ProcessReport {
    type V = Report;

    open spec fn view(&self) -> Report {
        Report {
            stdout: self.stdout@,
            stderr: self.stderr@,
            success: self.success,
            code: match self.code {
                Some(c) => Some(c as int),
                None => None,
            },
        }
    }
}

/// The outcome of running a program.
#[derive(Debug)]
pub enum ProcessOutcome {
    /// The program ran to its end.
    Finished(ProcessReport),
    /// The program could not be started; `reason` says why.
    SpawnFailed { reason: String },
}

impl View for ProcessOutcome {
    type V = Outcome;

    open spec fn view(&self) -> Outcome {
        match self {
            ProcessOutcome::Finished(report) => Outcome::Finished(report@),
            ProcessOutcome::SpawnFailed { reason } => Outcome::SpawnFailed { reason: reason@ },
        }
    }
}

/// The answer to a branch query, as a mathematical value.
pub ghost struct Probe {
    pub ran: bool,
    pub output: Seq<char>,
}

/// The answer to a branch query: whether the query ran and succeeded, and
/// what it printed.
#[derive(Debug)]
pub struct BranchProbe {
    pub ran: bool,
    pub output: String,
}

impl View for BranchProbe {
    type V = Probe;

    open spec fn view(&self) -> Probe {
        Probe { ran: self.ran, output: self.output@ }
    }
}

/// The text that `bytes` decode to as UTF-8 when every invalid sequence is
/// replaced by the replacement character.
pub uninterp spec fn lossy_text(bytes: Seq<u8>) -> Seq<char>;

/// Decodes `bytes` as UTF-8, replacing what is invalid.
///
/// Calls `String::from_utf8_lossy`.  The contract names its result, since
/// the same bytes always decode to the same text, and adds what the
/// function's documentation says of valid input: bytes that are valid UTF-8
/// come back as the text they encode, with nothing replaced.
#[verifier::external_body]
fn decode_lossy(bytes: &[u8]) -> (text: String)
    ensures
        text@ == lossy_text(bytes@),
        valid_utf8(bytes@) ==> text@ == decode_utf8(bytes@),
{
    String::from_utf8_lossy(bytes).into_owned()
}

/// Turns what a process wrote, as bytes, into a report.  Valid UTF-8 is
/// decoded as it stands.
pub fn read_process(stdout: &[u8], stderr: &[u8], success: bool, code: Option<i32>) -> (report:
    ProcessReport)
    ensures
        report@ == (Report {
            stdout: lossy_text(stdout@),
            stderr: lossy_text(stderr@),
            success,
            code: match code {
                Some(c) => Some(c as int),
                None => None,
            },
        }),
        valid_utf8(stdout@) ==> report@.stdout == decode_utf8(stdout@),
        valid_utf8(stderr@) ==> report@.stderr == decode_utf8(stderr@),
{
    ProcessReport { stdout: decode_lossy(stdout), stderr: decode_lossy(stderr), success, code }
}

/// Turns what a branch query wrote, as bytes, into a probe.  Valid UTF-8
/// is decoded as it stands.
pub fn read_branch(ran: bool, stdout: &[u8]) -> (probe: BranchProbe)
    ensures
        probe@ == (Probe { ran, output: lossy_text(stdout@) }),
        valid_utf8(stdout@) ==> probe@.output == decode_utf8(stdout@),
{
    BranchProbe { ran, output: decode_lossy(stdout) }
}

} // verus!
