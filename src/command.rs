//! The interactive commands: splitting an input line into words, reading the command
//! and its argument, parsing a document id, and clipping a title for display.
use vstd::prelude::*;
use crate::normalize::{is_white_space, is_white_space_char};
use crate::text::{chars_of, push_char};

verus! {

pub open spec fn is_digit(c: char) -> bool {
    '0' <= c && c <= '9'
}

pub open spec fn all_digits(s: Seq<char>) -> bool {
    forall|i: int| 0 <= i < s.len() ==> is_digit(#[trigger] s[i])
}

/// The value of a string of decimal digits.
pub open spec fn digits_value(s: Seq<char>) -> int
    decreases s.len(),
{
    if s.len() == 0 {
        0
    } else {
        digits_value(s.drop_last()) * 10 + (s.last() as u32 - '0' as u32)
    }
}

/// The unsigned digits of a decimal integer that may start with `+`.
pub open spec fn unsigned_digits(s: Seq<char>) -> Seq<char> {
    if s.len() > 0 && s[0] == '+' {
        s.drop_first()
    } else {
        s
    }
}

/// The document id that `s` names: a decimal integer, optionally with `+`, from 1 to
/// `i32::MAX`. Everything else (a sign `-`, zero, other characters, a value out of
/// range) names no document.
pub open spec fn document_id_of(s: Seq<char>) -> Option<i32> {
    let d = unsigned_digits(s);
    if d.len() > 0 && all_digits(d) && 1 <= digits_value(d) <= i32::MAX {
        Some(digits_value(d) as i32)
    } else {
        None
    }
}

proof fn lemma_digits_value_nonneg(s: Seq<char>)
    requires
        all_digits(s),
    ensures
        digits_value(s) >= 0,
    decreases s.len(),
{
    if s.len() > 0 {
        assert(all_digits(s.drop_last()));
        lemma_digits_value_nonneg(s.drop_last());
    }
}

proof fn lemma_digits_value_grows(s: Seq<char>, k: int)
    requires
        all_digits(s),
        0 <= k <= s.len(),
    ensures
        0 <= digits_value(s.take(k)) <= digits_value(s),
    decreases s.len() - k,
{
    if k < s.len() {
        lemma_digits_value_grows(s, k + 1);
        assert(s.take(k + 1).drop_last() =~= s.take(k));
        assert(s[k] == s.take(k + 1).last());
        assert(all_digits(s.take(k)));
        lemma_digits_value_nonneg(s.take(k));
    } else {
        assert(s.take(k) =~= s);
        lemma_digits_value_nonneg(s);
    }
}

/// Parses the argument of `delete` and `open`.
pub fn parse_document_id(s: &str) -> (r: Option<i32>)
    ensures
        r == document_id_of(s@),
{
    let chars = chars_of(s);
    let start: usize = if chars.len() > 0 && chars[0] == '+' {
        1
    } else {
        0
    };
    let ghost d = unsigned_digits(s@);
    assert(d =~= chars@.subrange(start as int, chars.len() as int));
    if start == chars.len() {
        return None;
    }
    let mut acc: u64 = 0;
    let mut k: usize = start;
    while k < chars.len()
        invariant
            start <= k <= chars.len(),
            d == chars@.subrange(start as int, chars.len() as int),
            d == unsigned_digits(s@),
            all_digits(d.take(k - start)),
            acc == digits_value(d.take(k - start)),
            acc <= i32::MAX,
        decreases chars.len() - k,
    {
        let c = chars[k];
        if !('0' <= c && c <= '9') {
            assert(d[k - start] == c);
            assert(!all_digits(d));
            return None;
        }
        let ghost t = d.take(k - start + 1);
        assert(t.drop_last() =~= d.take(k - start));
        assert(t.last() == c);
        acc = acc * 10 + (c as u32 - '0' as u32) as u64;
        assert(all_digits(t));
        assert(acc == digits_value(t));
        if acc > i32::MAX as u64 {
            proof {
                if all_digits(d) {
                    lemma_digits_value_grows(d, k - start + 1);
                }
            }
            return None;
        }
        k = k + 1;
    }
    assert(d.take(k - start) =~= d);
    if acc == 0 {
        return None;
    }
    Some(acc as i32)
}

/// The words of `s`: its maximal runs of characters other than white space.
pub open spec fn words(s: Seq<char>) -> Seq<Seq<char>>
    decreases s.len(),
{
    if s.len() == 0 {
        Seq::empty()
    } else {
        let w = words(s.drop_last());
        if is_white_space(s.last()) {
            w
        } else if s.len() >= 2 && !is_white_space(s[s.len() - 2]) {
            w.update(w.len() - 1, w.last().push(s.last()))
        } else {
            w.push(seq![s.last()])
        }
    }
}

proof fn lemma_words_nonempty(s: Seq<char>)
    ensures
        s.len() > 0 && !is_white_space(s.last()) ==> words(s).len() > 0,
    decreases s.len(),
{
    if s.len() > 1 {
        lemma_words_nonempty(s.drop_last());
    }
}

/// A command of the interactive loop.
#[derive(Debug, PartialEq, Eq)]
pub enum Command {
    Consume,
    Search(String),
    Delete(String),
    Open(String),
    List,
    Quit,
    Invalid,
}

/// The first word of a line, or nothing.
pub open spec fn command_name(w: Seq<Seq<char>>) -> Seq<char> {
    if w.len() > 0 {
        w[0]
    } else {
        Seq::empty()
    }
}

/// The argument of a line: its last word after the first, or nothing.
pub open spec fn command_argument(w: Seq<Seq<char>>) -> Seq<char> {
    if w.len() >= 2 {
        w.last()
    } else {
        Seq::empty()
    }
}

/// Whether `c` is the command that a line with the words `w` asks for.
pub open spec fn parses_as(c: Command, w: Seq<Seq<char>>) -> bool {
    let name = command_name(w);
    let arg = command_argument(w);
    match c {
        Command::Consume => name == seq!['c'],
        Command::Search(a) => name == seq!['s'] && a@ == arg,
        Command::Delete(a) => name == seq!['d'] && a@ == arg,
        Command::Open(a) => name == seq!['o'] && a@ == arg,
        Command::List => name == seq!['l'],
        Command::Quit => name == seq!['q'],
        Command::Invalid => name != seq!['c'] && name != seq!['s'] && name != seq!['d'] && name
            != seq!['o'] && name != seq!['l'] && name != seq!['q'],
    }
}

/// The words of `s`, each as its characters.
fn split_words(s: &Vec<char>) -> (r: Vec<Vec<char>>)
    ensures
        r@.len() == words(s@).len(),
        forall|i: int| 0 <= i < r.len() ==> #[trigger] r@[i]@ == words(s@)[i],
{
    let mut r: Vec<Vec<char>> = Vec::new();
    let mut k: usize = 0;
    while k < s.len()
        invariant
            k <= s.len(),
            r@.len() == words(s@.take(k as int)).len(),
            forall|i: int| 0 <= i < r.len() ==> #[trigger] r@[i]@ == words(s@.take(k as int))[i],
        decreases s.len() - k,
    {
        let ghost t = s@.take(k + 1);
        let ghost old_r = r@;
        assert(t.drop_last() =~= s@.take(k as int));
        let c = s[k];
        if is_white_space_char(c) {
        } else if k >= 1 && !is_white_space_char(s[k - 1]) {
            proof {
                lemma_words_nonempty(s@.take(k as int));
            }
            let last = r.len() - 1;
            let mut w = r.remove(last);
            w.push(c);
            r.push(w);
            assert forall|i: int| 0 <= i < r.len() implies #[trigger] r@[i]@ == words(t)[i] by {
                if i < last {
                    assert(r@[i] == old_r[i]);
                }
            }
        } else {
            let mut w: Vec<char> = Vec::new();
            w.push(c);
            r.push(w);
            assert forall|i: int| 0 <= i < r.len() implies #[trigger] r@[i]@ == words(t)[i] by {
                if i < r.len() - 1 {
                    assert(r@[i] == old_r[i]);
                } else {
                    assert(r@[i]@ =~= seq![c]);
                }
            }
        }
        k = k + 1;
    }
    assert(s@.take(s.len() as int) =~= s@);
    r
}

fn string_of(c: &Vec<char>) -> (r: String)
    ensures
        r@ == c@,
{
    let mut r = String::new();
    let mut k: usize = 0;
    while k < c.len()
        invariant
            k <= c.len(),
            r@ == c@.take(k as int),
        decreases c.len() - k,
    {
        push_char(&mut r, c[k]);
        assert(r@ =~= c@.take(k + 1));
        k = k + 1;
    }
    assert(c@.take(c.len() as int) =~= c@);
    r
}

fn is_single(w: &Vec<char>, c: char) -> (r: bool)
    ensures
        r == (w@ == seq![c]),
{
    let r = w.len() == 1 && w[0] == c;
    assert(r == (w@ =~= seq![c]));
    r
}

/// Reads an input line of the interactive loop.
pub fn parse_command(line: &str) -> (r: Command)
    ensures
        parses_as(r, words(line@)),
{
    let w = split_words(&chars_of(line));
    let ghost ws = words(line@);
    let empty: Vec<char> = Vec::new();
    let name = if w.len() > 0 {
        &w[0]
    } else {
        &empty
    };
    assert(name@ == command_name(ws));
    let arg = if w.len() >= 2 {
        string_of(&w[w.len() - 1])
    } else {
        String::new()
    };
    assert(arg@ == command_argument(ws));
    if is_single(name, 'c') {
        Command::Consume
    } else if is_single(name, 's') {
        Command::Search(arg)
    } else if is_single(name, 'd') {
        Command::Delete(arg)
    } else if is_single(name, 'o') {
        Command::Open(arg)
    } else if is_single(name, 'l') {
        Command::List
    } else if is_single(name, 'q') {
        Command::Quit
    } else {
        Command::Invalid
    }
}

/// Titles longer than this many characters are clipped for display.
pub const TITLE_WIDTH: usize = 46;

/// `s` without its line feeds.
pub open spec fn without_newlines(s: Seq<char>) -> Seq<char>
    decreases s.len(),
{
    if s.len() == 0 {
        s
    } else if s.last() == '\n' {
        without_newlines(s.drop_last())
    } else {
        without_newlines(s.drop_last()).push(s.last())
    }
}

/// A title as a table cell shows it: a title longer than `TITLE_WIDTH` loses its line
/// feeds and is cut to `TITLE_WIDTH` characters.
pub open spec fn display_title(t: Seq<char>) -> Seq<char> {
    if t.len() > TITLE_WIDTH {
        let u = without_newlines(t);
        if u.len() > TITLE_WIDTH {
            u.take(TITLE_WIDTH as int)
        } else {
            u
        }
    } else {
        t
    }
}

proof fn lemma_without_newlines_len(s: Seq<char>)
    ensures
        without_newlines(s).len() <= s.len(),
    decreases s.len(),
{
    if s.len() > 0 {
        lemma_without_newlines_len(s.drop_last());
    }
}

/// Clips a title for a table cell.
pub fn clip_title(title: &str) -> (r: String)
    ensures
        r@ == display_title(title@),
{
    let c = chars_of(title);
    if c.len() <= TITLE_WIDTH {
        return string_of(&c);
    }
    let mut r = String::new();
    let mut k: usize = 0;
    let mut n: usize = 0;
    while k < c.len()
        invariant
            k <= c.len(),
            r@ == without_newlines(c@.take(k as int)),
            n == r@.len(),
            n <= k,
        decreases c.len() - k,
    {
        assert(c@.take(k + 1).drop_last() =~= c@.take(k as int));
        if c[k] != '\n' {
            push_char(&mut r, c[k]);
            n = n + 1;
        }
        proof {
            lemma_without_newlines_len(c@.take(k + 1));
        }
        k = k + 1;
    }
    assert(c@.take(c.len() as int) =~= c@);
    if n <= TITLE_WIDTH {
        return r;
    }
    let clipped = chars_of(r.as_str());
    let mut out = String::new();
    let mut j: usize = 0;
    while j < TITLE_WIDTH
        invariant
            j <= TITLE_WIDTH < clipped.len(),
            out@ == clipped@.take(j as int),
        decreases TITLE_WIDTH - j,
    {
        push_char(&mut out, clipped[j]);
        assert(out@ =~= clipped@.take(j + 1));
        j = j + 1;
    }
    out
}

} // verus!
