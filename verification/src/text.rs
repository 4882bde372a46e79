//! Text primitives over sequences of characters: conversion between strings
//! and character vectors, words, lines, trimming, replacement and decimal
//! numerals.

use vstd::prelude::*;
use vstd::string::*;
use crate::chars::{char_is_whitespace, is_whitespace};

verus! {

/// The character sequences held by a sequence of strings.
pub open spec fn texts(v: Seq<String>) -> Seq<Seq<char>> {
    v.map_values(|s: String| s@)
}

/// Appends a copy of `s` to `v`.
pub(crate) fn push_text(v: &mut Vec<String>, s: &str)
    ensures
        texts(final(v)@) == texts(old(v)@).push(s@),
{
    v.push(s.to_string());
    assert(texts(v@) =~= texts(old(v)@).push(s@));
}

/// Appends one character to a string.
///
/// Calls `String::push`, which appends the given character to the end of the
/// string; the contract says exactly that about the string's characters.
#[verifier::external_body]
pub(crate) fn push_char(s: &mut String, c: char)
    ensures
        final(s)@ == old(s)@.push(c),
{
    s.push(c)
}

/// The characters of `s`, in order.
pub fn chars_of(s: &str) -> (v: Vec<char>)
    ensures
        v@ == s@,
{
    let mut v: Vec<char> = Vec::new();
    for c in it: s.chars()
        invariant
            v@ == it.seq().take(it.index() as int),
            it.seq() == s@,
    {
        v.push(c);
    }
    v
}

/// The string made of `v[from..to]`.
pub(crate) fn string_of(v: &Vec<char>, from: usize, to: usize) -> (s: String)
    requires
        from <= to <= v.len(),
    ensures
        s@ == v@.subrange(from as int, to as int),
{
    let mut s = String::new();
    let mut i: usize = from;
    while i < to
        invariant
            from <= i <= to <= v.len(),
            s@ == v@.subrange(from as int, i as int),
        decreases to - i,
    {
        push_char(&mut s, v[i]);
        i += 1;
    }
    s
}

/// A class of characters that a scan can run over.
#[derive(Clone, Copy)]
pub enum CharClass {
    /// White space.
    Space,
    /// Anything but white space.
    Word,
    /// Anything but a line feed.
    LineBody,
}

impl CharClass {
    /// Whether `c` belongs to the class.
    pub open spec fn holds(self, c: char) -> bool {
        match self {
            CharClass::Space => is_whitespace(c),
            CharClass::Word => !is_whitespace(c),
            CharClass::LineBody => c != '\n',
        }
    }

    /// Tests whether `c` belongs to the class.
    pub fn test(self, c: char) -> (b: bool)
        ensures
            b == self.holds(c),
    {
        match self {
            CharClass::Space => char_is_whitespace(c),
            CharClass::Word => !char_is_whitespace(c),
            CharClass::LineBody => c != '\n',
        }
    }
}

/// How many characters at the start of `s` belong to `class`.
pub open spec fn run_len(s: Seq<char>, class: CharClass) -> nat
    decreases s.len(),
{
    if s.len() > 0 && class.holds(s[0]) {
        1 + run_len(s.drop_first(), class)
    } else {
        0
    }
}

/// A run is a prefix, every character of it is in the class, and the
/// character after it, if there is one, is not.
pub proof fn lemma_run_len(s: Seq<char>, class: CharClass)
    ensures
        run_len(s, class) <= s.len(),
        forall|i: int| 0 <= i < run_len(s, class) ==> class.holds(#[trigger] s[i]),
        run_len(s, class) < s.len() ==> !class.holds(s[run_len(s, class) as int]),
    decreases s.len(),
{
    if s.len() > 0 && class.holds(s[0]) {
        let t = s.drop_first();
        lemma_run_len(t, class);
        assert forall|i: int| 0 <= i < run_len(s, class) implies class.holds(#[trigger] s[i]) by {
            if i > 0 {
                assert(s[i] == t[i - 1]);
            }
        }
        if run_len(s, class) < s.len() {
            assert(s[run_len(s, class) as int] == t[run_len(t, class) as int]);
        }
    }
}

/// The prefix of length `n` is the run if it lies in the class and stops at
/// the end of `s` or before a character outside the class.
pub proof fn lemma_run_len_is(s: Seq<char>, class: CharClass, n: nat)
    requires
        n <= s.len(),
        forall|i: int| 0 <= i < n ==> class.holds(#[trigger] s[i]),
        n < s.len() ==> !class.holds(s[n as int]),
    ensures
        run_len(s, class) == n,
    decreases n,
{
    if n > 0 {
        let t = s.drop_first();
        assert forall|i: int| 0 <= i < n - 1 implies class.holds(#[trigger] t[i]) by {
            assert(t[i] == s[i + 1]);
        }
        lemma_run_len_is(t, class, (n - 1) as nat);
    }
}

/// Finds the end of the run of `class` that starts at `from`.
pub(crate) fn scan_run(v: &Vec<char>, from: usize, class: CharClass) -> (to: usize)
    requires
        from <= v.len(),
    ensures
        from <= to <= v.len(),
        to - from == run_len(v@.skip(from as int), class),
{
    let mut to: usize = from;
    while to < v.len() && class.test(v[to])
        invariant
            from <= to <= v.len(),
            forall|i: int| from <= i < to ==> class.holds(#[trigger] v@[i]),
        decreases v.len() - to,
    {
        to += 1;
    }
    proof {
        let s = v@.skip(from as int);
        assert forall|i: int| 0 <= i < to - from implies class.holds(#[trigger] s[i]) by {
            assert(s[i] == v@[from + i]);
        }
        lemma_run_len_is(s, class, (to - from) as nat);
    }
    to
}

/// The words of `s`: its maximal runs of characters that are not white space,
/// from left to right.
pub open spec fn words(s: Seq<char>) -> Seq<Seq<char>>
    decreases s.len(),
{
    let n = run_len(s, CharClass::Word);
    if s.len() == 0 {
        Seq::empty()
    } else if n == 0 {
        words(s.drop_first())
    } else if n >= s.len() {
        seq![s]
    } else {
        seq![s.take(n as int)] + words(s.skip(n as int))
    }
}

/// Whether `s` holds nothing but white space.
pub open spec fn is_blank(s: Seq<char>) -> bool {
    forall|i: int| 0 <= i < s.len() ==> is_whitespace(#[trigger] s[i])
}

/// A text is blank exactly when it has no words.
pub proof fn lemma_blank_has_no_words(s: Seq<char>)
    ensures
        is_blank(s) <==> words(s).len() == 0,
    decreases s.len(),
{
    if s.len() > 0 {
        if run_len(s, CharClass::Word) == 0 {
            let t = s.drop_first();
            lemma_blank_has_no_words(t);
            assert(is_whitespace(s[0]));
            if is_blank(t) {
                assert forall|i: int| 0 <= i < s.len() implies is_whitespace(#[trigger] s[i]) by {
                    if i > 0 {
                        assert(s[i] == t[i - 1]);
                    }
                }
            } else {
                let i = choose|i: int| 0 <= i < t.len() && !is_whitespace(#[trigger] t[i]);
                assert(s[i + 1] == t[i]);
            }
        } else {
            assert(!is_whitespace(s[0]));
        }
    }
}

/// Splits `s` into its words.
pub fn split_words(s: &str) -> (ws: Vec<String>)
    ensures
        texts(ws@) == words(s@),
{
    let v = chars_of(s);
    let mut ws: Vec<String> = Vec::new();
    let mut i: usize = 0;
    assert(v@.skip(0) =~= v@);
    assert(texts(ws@) =~= Seq::<Seq<char>>::empty());
    while i < v.len()
        invariant
            i <= v.len(),
            words(v@) == texts(ws@) + words(v@.skip(i as int)),
        decreases v.len() - i,
    {
        let j = scan_run(&v, i, CharClass::Word);
        let ghost rest = v@.skip(i as int);
        let ghost before = texts(ws@);
        if j == i {
            assert(rest.drop_first() =~= v@.skip(i + 1));
            i += 1;
        } else {
            let w = string_of(&v, i, j);
            ws.push(w);
            proof {
                assert(rest.take(j - i) =~= v@.subrange(i as int, j as int));
                assert(rest.skip(j - i) =~= v@.skip(j as int));
                assert(texts(ws@) =~= before.push(w@));
                if j - i >= rest.len() {
                    assert(rest.take(j - i) =~= rest);
                    assert(words(v@.skip(j as int)) =~= Seq::<Seq<char>>::empty());
                }
                assert(words(rest) =~= seq![w@] + words(v@.skip(j as int)));
            }
            i = j;
        }
    }
    ws
}

/// Tests whether `s` holds nothing but white space.
pub fn is_blank_text(s: &str) -> (b: bool)
    ensures
        b == is_blank(s@),
{
    let v = chars_of(s);
    let n = scan_run(&v, 0, CharClass::Space);
    proof {
        assert(v@.skip(0) =~= v@);
        lemma_run_len(v@, CharClass::Space);
    }
    n == v.len()
}

/// `l` without one carriage return at its end.
pub open spec fn strip_cr(l: Seq<char>) -> Seq<char> {
    if l.len() > 0 && l.last() == '\r' {
        l.drop_last()
    } else {
        l
    }
}

/// The lines of `s`.  A line ends at a line feed, which is dropped together
/// with one carriage return before it; what follows the last line feed is a
/// line of its own unless it is empty.
pub open spec fn lines_of(s: Seq<char>) -> Seq<Seq<char>>
    decreases s.len(),
{
    let n = run_len(s, CharClass::LineBody);
    if s.len() == 0 {
        Seq::empty()
    } else if n >= s.len() {
        seq![s]
    } else {
        seq![strip_cr(s.take(n as int))] + lines_of(s.skip(n as int + 1))
    }
}

/// Splits `s` into its lines.
pub fn split_lines(s: &str) -> (ls: Vec<String>)
    ensures
        texts(ls@) == lines_of(s@),
{
    let v = chars_of(s);
    let mut ls: Vec<String> = Vec::new();
    let mut i: usize = 0;
    assert(v@.skip(0) =~= v@);
    assert(texts(ls@) =~= Seq::<Seq<char>>::empty());
    while i < v.len()
        invariant
            i <= v.len(),
            lines_of(v@) == texts(ls@) + lines_of(v@.skip(i as int)),
        decreases v.len() - i,
    {
        let j = scan_run(&v, i, CharClass::LineBody);
        let ghost rest = v@.skip(i as int);
        let ghost before = texts(ls@);
        if j == v.len() {
            let l = string_of(&v, i, j);
            ls.push(l);
            proof {
                assert(v@.subrange(i as int, j as int) =~= rest);
                assert(texts(ls@) =~= before.push(l@));
                assert(lines_of(v@.skip(j as int)) =~= Seq::<Seq<char>>::empty());
                assert(lines_of(rest) =~= seq![l@] + lines_of(v@.skip(j as int)));
            }
            i = j;
        } else {
            let end = if j > i && v[j - 1] == '\r' {
                j - 1
            } else {
                j
            };
            let l = string_of(&v, i, end);
            ls.push(l);
            proof {
                let body = rest.take(j - i);
                assert(body =~= v@.subrange(i as int, j as int));
                assert(strip_cr(body) =~= v@.subrange(i as int, end as int));
                assert(rest.skip(j - i + 1) =~= v@.skip(j + 1));
                assert(texts(ls@) =~= before.push(l@));
                assert(lines_of(rest) =~= seq![l@] + lines_of(v@.skip(j + 1)));
            }
            i = j + 1;
        }
    }
    ls
}

/// `s` without the white space at its start.
pub open spec fn trim_start(s: Seq<char>) -> Seq<char> {
    s.skip(run_len(s, CharClass::Space) as int)
}

/// `s` without the white space at its end.
pub open spec fn trim_end(s: Seq<char>) -> Seq<char>
    decreases s.len(),
{
    if s.len() > 0 && is_whitespace(s.last()) {
        trim_end(s.drop_last())
    } else {
        s
    }
}

/// `s` without the white space at either end.
pub open spec fn trim(s: Seq<char>) -> Seq<char> {
    trim_end(trim_start(s))
}

/// Copies `s` without the white space at either end.
pub fn trimmed(s: &str) -> (t: String)
    ensures
        t@ == trim(s@),
{
    let v = chars_of(s);
    let start = scan_run(&v, 0, CharClass::Space);
    let mut end: usize = v.len();
    proof {
        assert(v@.skip(0) =~= v@);
        assert(v@.subrange(start as int, end as int) =~= trim_start(v@));
    }
    while end > start && char_is_whitespace(v[end - 1])
        invariant
            start <= end <= v.len(),
            trim(v@) == trim_end(v@.subrange(start as int, end as int)),
        decreases end,
    {
        proof {
            assert(v@.subrange(start as int, end as int).drop_last() =~= v@.subrange(
                start as int,
                end - 1,
            ));
        }
        end -= 1;
    }
    string_of(&v, start, end)
}

/// Tests whether `p` occurs in `s` at position `at`.
pub(crate) fn has_prefix_at(s: &Vec<char>, at: usize, p: &Vec<char>) -> (b: bool)
    requires
        at <= s.len(),
    ensures
        b == p@.is_prefix_of(s@.skip(at as int)),
{
    if p.len() > s.len() - at {
        return false;
    }
    let ghost rest = s@.skip(at as int);
    let mut k: usize = 0;
    while k < p.len()
        invariant
            k <= p.len() <= s.len() - at,
            rest == s@.skip(at as int),
            forall|i: int| 0 <= i < k ==> p@[i] == rest[i],
        decreases p.len() - k,
    {
        if p[k] != s[at + k] {
            assert(rest.subrange(0, p@.len() as int)[k as int] != p@[k as int]);
            return false;
        }
        k += 1;
    }
    assert(p@ =~= rest.subrange(0, p@.len() as int));
    true
}

/// Tests whether `s` starts with `p`.
pub fn starts_with_text(s: &str, p: &str) -> (b: bool)
    ensures
        b == p@.is_prefix_of(s@),
{
    let sv = chars_of(s);
    let pv = chars_of(p);
    assert(sv@.skip(0) =~= sv@);
    has_prefix_at(&sv, 0, &pv)
}

/// `s` with every occurrence of `pat` replaced by `with`, found from left to
/// right without overlap.  An empty `pat` occurs before every character and
/// at the end.
pub open spec fn replace_all(s: Seq<char>, pat: Seq<char>, with: Seq<char>) -> Seq<char>
    decreases s.len(),
{
    if pat.len() == 0 {
        if s.len() == 0 {
            with
        } else {
            with + seq![s[0]] + replace_all(s.drop_first(), pat, with)
        }
    } else if pat.is_prefix_of(s) {
        with + replace_all(s.skip(pat.len() as int), pat, with)
    } else if s.len() == 0 {
        s
    } else {
        seq![s[0]] + replace_all(s.drop_first(), pat, with)
    }
}

/// Replaces every occurrence of `pat` in `s` by `with`.
pub fn replace_text(s: &str, pat: &str, with: &str) -> (r: String)
    ensures
        r@ == replace_all(s@, pat@, with@),
{
    let v = chars_of(s);
    let p = chars_of(pat);
    let mut r = String::new();
    let mut i: usize = 0;
    assert(v@.skip(0) =~= v@);
    loop
        invariant_except_break
            i <= v.len(),
            p@ == pat@,
            replace_all(v@, p@, with@) == r@ + replace_all(v@.skip(i as int), p@, with@),
        ensures
            r@ == replace_all(v@, pat@, with@),
        decreases v.len() - i,
    {
        let ghost rest = v@.skip(i as int);
        let ghost before = r@;
        if p.len() == 0 {
            r.append(with);
            if i == v.len() {
                break ;
            }
            push_char(&mut r, v[i]);
            proof {
                assert(rest.drop_first() =~= v@.skip(i + 1));
                assert(r@ + replace_all(v@.skip(i + 1), p@, with@) =~= before + replace_all(
                    rest,
                    p@,
                    with@,
                ));
            }
            i += 1;
        } else if has_prefix_at(&v, i, &p) {
            r.append(with);
            proof {
                assert(rest.skip(p@.len() as int) =~= v@.skip(i + p@.len()));
                assert(r@ + replace_all(v@.skip(i + p@.len()), p@, with@) =~= before + replace_all(
                    rest,
                    p@,
                    with@,
                ));
            }
            i += p.len();
        } else if i == v.len() {
            assert(r@ + rest =~= r@);
            break ;
        } else {
            push_char(&mut r, v[i]);
            proof {
                assert(rest.drop_first() =~= v@.skip(i + 1));
                assert(r@ + replace_all(v@.skip(i + 1), p@, with@) =~= before + replace_all(
                    rest,
                    p@,
                    with@,
                ));
            }
            i += 1;
        }
    }
    r
}

/// The decimal digit for `d`.
pub open spec fn digit(d: nat) -> char
    recommends
        d < 10,
{
    seq!['0', '1', '2', '3', '4', '5', '6', '7', '8', '9'][d as int]
}

/// The decimal numeral of `n`, without leading zeros.
pub open spec fn decimal(n: nat) -> Seq<char>
    decreases n,
{
    if n < 10 {
        seq![digit(n)]
    } else {
        decimal(n / 10).push(digit(n % 10))
    }
}

/// The decimal numeral of `n`, with a minus sign if it is negative.
pub open spec fn signed_decimal(n: int) -> Seq<char> {
    if n < 0 {
        seq!['-'] + decimal((-n) as nat)
    } else {
        decimal(n as nat)
    }
}

fn digit_char(d: u64) -> (c: char)
    requires
        d < 10,
    ensures
        c == digit(d as nat),
{
    match d {
        0 => '0',
        1 => '1',
        2 => '2',
        3 => '3',
        4 => '4',
        5 => '5',
        6 => '6',
        7 => '7',
        8 => '8',
        _ => '9',
    }
}

/// Appends the decimal numeral of `n` to `out`.
pub(crate) fn push_decimal(out: &mut String, n: u64)
    ensures
        final(out)@ == old(out)@ + decimal(n as nat),
    decreases n,
{
    if n >= 10 {
        push_decimal(out, n / 10);
    }
    push_char(out, digit_char(n % 10));
    assert(out@ =~= old(out)@ + decimal(n as nat));
}

/// Appends the decimal numeral of `n`, with its sign, to `out`.
pub(crate) fn push_signed_decimal(out: &mut String, n: i32)
    ensures
        final(out)@ == old(out)@ + signed_decimal(n as int),
{
    let wide: i64 = n as i64;
    if wide < 0 {
        push_char(out, '-');
        push_decimal(out, (0 - wide) as u64);
        assert(out@ =~= old(out)@ + signed_decimal(n as int));
    } else {
        push_decimal(out, wide as u64);
    }
}

/// Writes the decimal numeral of `n`.
pub fn decimal_text(n: u64) -> (s: String)
    ensures
        s@ == decimal(n as nat),
{
    let mut s = String::new();
    push_decimal(&mut s, n);
    assert(s@ =~= decimal(n as nat));
    s
}

/// Writes the decimal numeral of `n`, with its sign.
pub fn signed_decimal_text(n: i32) -> (s: String)
    ensures
        s@ == signed_decimal(n as int),
{
    let mut s = String::new();
    push_signed_decimal(&mut s, n);
    assert(s@ =~= signed_decimal(n as int));
    s
}

/// The words `ws` joined by single spaces.
pub open spec fn join_spaced(ws: Seq<Seq<char>>) -> Seq<char>
    decreases ws.len(),
{
    if ws.len() == 0 {
        Seq::empty()
    } else if ws.len() == 1 {
        ws[0]
    } else {
        join_spaced(ws.drop_last()) + seq![' '] + ws.last()
    }
}

/// Joins the first `count` of `ws` by single spaces.
pub(crate) fn join_first(ws: &Vec<String>, count: usize) -> (r: String)
    requires
        count <= ws.len(),
    ensures
        r@ == join_spaced(texts(ws@).take(count as int)),
{
    let mut r = String::new();
    let mut k: usize = 0;
    while k < count
        invariant
            k <= count <= ws.len(),
            r@ == join_spaced(texts(ws@).take(k as int)),
        decreases count - k,
    {
        let ghost before = r@;
        if k > 0 {
            push_char(&mut r, ' ');
        }
        r.append(ws[k].as_str());
        proof {
            let next = texts(ws@).take(k + 1);
            assert(next.drop_last() =~= texts(ws@).take(k as int));
            assert(next.last() == ws@[k as int]@);
            if k == 0 {
                assert(r@ =~= next[0]);
            }
        }
        k += 1;
    }
    r
}

/// Whether two texts hold the same characters.
pub fn text_eq(a: &str, b: &str) -> (r: bool)
    ensures
        r == (a@ == b@),
{
    let x = a.to_string();
    let y = b.to_string();
    x == y
}

} // verus!
