//! The prompt: how the working directory, the user and the branch are
//! rendered into the header line that precedes each input line.

use vstd::prelude::*;
use vstd::string::*;
use crate::text::{
    chars_of, replace_all, replace_text, starts_with_text, string_of, text_eq, trim, trimmed,
};

verus! {

/// How many characters at the end of `s` are not slashes.
pub open spec fn tail_len(s: Seq<char>) -> nat
    decreases s.len(),
{
    if s.len() > 0 && s.last() != '/' {
        1 + tail_len(s.drop_last())
    } else {
        0
    }
}

/// The last `n` characters are the tail if none of them is a slash and a
/// slash, or nothing, stands before them.
pub proof fn lemma_tail_len_is(s: Seq<char>, n: nat)
    requires
        n <= s.len(),
        forall|i: int| s.len() - n <= i < s.len() ==> #[trigger] s[i] != '/',
        n < s.len() ==> s[s.len() - n - 1] == '/',
    ensures
        tail_len(s) == n,
    decreases n,
{
    if n > 0 {
        let t = s.drop_last();
        assert forall|i: int| t.len() - (n - 1) <= i < t.len() implies #[trigger] t[i] != '/' by {
            assert(t[i] == s[i]);
        }
        lemma_tail_len_is(t, (n - 1) as nat);
    }
}

/// The final component of `path`: what stands behind its last slash, once
/// slashes and `.` components at the end are set aside.  There is none if
/// nothing is left or if what is left ends in `..`.
pub open spec fn file_name(path: Seq<char>) -> Option<Seq<char>>
    decreases path.len(),
{
    if path.len() == 0 {
        None
    } else if path.last() == '/' {
        file_name(path.drop_last())
    } else {
        let name = path.skip(path.len() - tail_len(path));
        if name == seq!['.'] {
            file_name(path.drop_last())
        } else if name == seq!['.', '.'] {
            None
        } else {
            Some(name)
        }
    }
}

/// Finds the final component of `path`.
pub fn file_name_of(path: &str) -> (name: Option<String>)
    ensures
        match name {
            Some(n) => file_name(path@) == Some(n@),
            None => file_name(path@) is None,
        },
{
    let v = chars_of(path);
    let mut end: usize = v.len();
    assert(v@.take(end as int) =~= v@);
    while end > 0
        invariant
            end <= v.len(),
            v@ == path@,
            file_name(v@) == file_name(v@.take(end as int)),
        decreases end,
    {
        let ghost head = v@.take(end as int);
        assert(head.drop_last() =~= v@.take(end - 1));
        if v[end - 1] == '/' {
            end -= 1;
        } else {
            let mut start: usize = end - 1;
            while start > 0 && v[start - 1] != '/'
                invariant
                    start < end <= v.len(),
                    forall|i: int| start <= i < end ==> #[trigger] v@[i] != '/',
                decreases start,
            {
                start -= 1;
            }
            proof {
                assert forall|i: int|
                    head.len() - (end - start) <= i < head.len() implies #[trigger] head[i]
                    != '/' by {
                    assert(head[i] == v@[i]);
                }
                lemma_tail_len_is(head, (end - start) as nat);
                assert(head.skip(head.len() - tail_len(head)) =~= v@.subrange(
                    start as int,
                    end as int,
                ));
            }
            let ghost name = v@.subrange(start as int, end as int);
            if end - start == 1 && v[start] == '.' {
                assert(name =~= seq!['.']);
                end -= 1;
            } else if end - start == 2 && v[start] == '.' && v[start + 1] == '.' {
                assert(name =~= seq!['.', '.']);
                return None;
            } else {
                proof {
                    if name == seq!['.'] {
                        assert(name.len() == 1 && name[0] == '.');
                    }
                    if name == seq!['.', '.'] {
                        assert(name.len() == 2 && name[0] == '.' && name[1] == '.');
                    }
                }
                return Some(string_of(&v, start, end));
            }
        }
    }
    assert(v@.take(0).len() == 0);
    None
}

/// The working directory as the prompt shows it: if it starts with the home
/// directory, every occurrence of the home directory in it is written `~`.
pub open spec fn display_dir(current_dir: Seq<char>, home: Seq<char>) -> Seq<char> {
    if home.is_prefix_of(current_dir) {
        replace_all(current_dir, home, "~"@)
    } else {
        current_dir
    }
}

/// The short name of the shown directory: its final component, or all of it
/// where it has none.
pub open spec fn dir_label(shown: Seq<char>) -> Seq<char> {
    match file_name(shown) {
        Some(name) => name,
        None => shown,
    }
}

/// The header line of the prompt: the user and the host, joined by `@`,
/// then the shown directory with backslashes for slashes, its short name,
/// and the branch if there is one.
pub open spec fn header(
    username: Seq<char>,
    hostname: Seq<char>,
    current_dir: Seq<char>,
    home: Seq<char>,
    branch: Seq<char>,
) -> Seq<char> {
    let shown = display_dir(current_dir, home);
    let base = "🏠 "@ + username + "@"@ + hostname + " 📂 ~\\"@ + replace_all(
        shown,
        "/"@,
        "\\"@,
    ) + "\\"@ + dir_label(shown) + " 🐧 3.9.1"@;
    if branch.len() == 0 {
        base
    } else {
        base + " "@ + branch
    }
}

/// The header begins with the user and the host, joined by `@`, and ends
/// with the branch if there is one.
pub proof fn lemma_header_names_user_and_host(
    username: Seq<char>,
    hostname: Seq<char>,
    current_dir: Seq<char>,
    home: Seq<char>,
    branch: Seq<char>,
)
    ensures
        ("🏠 "@ + username + "@"@ + hostname).is_prefix_of(
            header(username, hostname, current_dir, home, branch),
        ),
        branch.len() > 0 ==> header(username, hostname, current_dir, home, branch) == header(
            username,
            hostname,
            current_dir,
            home,
            Seq::empty(),
        ) + " "@ + branch,
{
    let start = "🏠 "@ + username + "@"@ + hostname;
    let whole = header(username, hostname, current_dir, home, branch);
    assert(start =~= whole.subrange(0, start.len() as int));
}

/// The line at which input is typed.
pub open spec fn input_mark() -> Seq<char> {
    "> "@
}

/// What the prompt shows of the branch.  `ran` says whether the query for
/// the branch succeeded and `output` is what it printed.  A detached head
/// and an empty answer show nothing.
pub open spec fn branch_label(ran: bool, output: Seq<char>) -> Seq<char> {
    let name = trim(output);
    if ran && name.len() > 0 && name != "HEAD"@ {
        "⚡ "@ + name
    } else {
        Seq::empty()
    }
}

/// Renders the header line of the prompt.
pub fn render_header(
    username: &str,
    hostname: &str,
    current_dir: &str,
    home: &str,
    branch: &str,
) -> (line: String)
    ensures
        line@ == header(username@, hostname@, current_dir@, home@, branch@),
{
    let shown = if starts_with_text(current_dir, home) {
        replace_text(current_dir, home, "~")
    } else {
        current_dir.to_string()
    };
    let label = match file_name_of(shown.as_str()) {
        Some(name) => name,
        None => shown.clone(),
    };
    let mut line = "🏠 ".to_string();
    line.append(username);
    line.append("@");
    line.append(hostname);
    line.append(" 📂 ~\\");
    line.append(replace_text(shown.as_str(), "/", "\\").as_str());
    line.append("\\");
    line.append(label.as_str());
    line.append(" 🐧 3.9.1");
    if branch.unicode_len() > 0 {
        line.append(" ");
        line.append(branch);
    }
    line
}

/// Renders what the prompt shows of the branch.
pub fn render_branch(ran: bool, output: &str) -> (label: String)
    ensures
        label@ == branch_label(ran, output@),
{
    let name = trimmed(output);
    if ran && name.as_str().unicode_len() > 0 && !text_eq(name.as_str(), "HEAD") {
        let mut label = "⚡ ".to_string();
        label.append(name.as_str());
        label
    } else {
        String::new()
    }
}

} // verus!
