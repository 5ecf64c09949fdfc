//! The text normaliser: strips unprintable characters, trims and collapses runs of
//! spaces; titles additionally lose markdown emphasis stars.
use vstd::prelude::*;
use crate::text::{chars_of, push_char};

verus! {

/// Unicode `White_Space`, the set that `str::trim` removes.
pub open spec fn is_white_space(c: char) -> bool {
    let u = c as u32;
    ||| 0x09 <= u <= 0x0D
    ||| u == 0x20
    ||| u == 0x85
    ||| u == 0xA0
    ||| u == 0x1680
    ||| 0x2000 <= u <= 0x200A
    ||| u == 0x2028
    ||| u == 0x2029
    ||| u == 0x202F
    ||| u == 0x205F
    ||| u == 0x3000
}

/// Printable ASCII: neither outside the ASCII range nor an ASCII control character.
pub open spec fn is_printable(c: char) -> bool {
    0x20 <= c as u32 <= 0x7E
}

/// `s` without its unprintable characters.
pub open spec fn printable_part(s: Seq<char>) -> Seq<char>
    decreases s.len(),
{
    if s.len() == 0 {
        s
    } else if is_printable(s.last()) {
        printable_part(s.drop_last()).push(s.last())
    } else {
        printable_part(s.drop_last())
    }
}

/// `s` without its leading white space.
pub open spec fn trim_start(s: Seq<char>) -> Seq<char>
    decreases s.len(),
{
    if s.len() > 0 && is_white_space(s[0]) {
        trim_start(s.drop_first())
    } else {
        s
    }
}

/// `s` without its trailing white space.
pub open spec fn trim_end(s: Seq<char>) -> Seq<char>
    decreases s.len(),
{
    if s.len() > 0 && is_white_space(s.last()) {
        trim_end(s.drop_last())
    } else {
        s
    }
}

pub open spec fn trim(s: Seq<char>) -> Seq<char> {
    trim_end(trim_start(s))
}

/// `s` where every space that directly follows another space is dropped.
pub open spec fn collapse_spaces(s: Seq<char>) -> Seq<char>
    decreases s.len(),
{
    if s.len() == 0 {
        s
    } else if s.len() >= 2 && s.last() == ' ' && s[s.len() - 2] == ' ' {
        collapse_spaces(s.drop_last())
    } else {
        collapse_spaces(s.drop_last()).push(s.last())
    }
}

/// Trimming, then collapsing runs of spaces (other white space is kept).
pub open spec fn tidy(s: Seq<char>) -> Seq<char> {
    collapse_spaces(trim(s))
}

/// The full normaliser: unprintable characters out, then `tidy`.
pub open spec fn normalized(s: Seq<char>) -> Seq<char> {
    tidy(printable_part(s))
}

/// `s` without its `*` characters.
pub open spec fn without_stars(s: Seq<char>) -> Seq<char>
    decreases s.len(),
{
    if s.len() == 0 {
        s
    } else if s.last() == '*' {
        without_stars(s.drop_last())
    } else {
        without_stars(s.drop_last()).push(s.last())
    }
}

/// A title as stored: normalised, then stripped of `*`.
pub open spec fn clean_title(s: Seq<char>) -> Seq<char> {
    without_stars(normalized(s))
}

pub fn is_white_space_char(c: char) -> (r: bool)
    ensures
        r == is_white_space(c),
{
    let u = c as u32;
    (0x09 <= u && u <= 0x0D) || u == 0x20 || u == 0x85 || u == 0xA0 || u == 0x1680 || (0x2000
        <= u && u <= 0x200A) || u == 0x2028 || u == 0x2029 || u == 0x202F || u == 0x205F || u
        == 0x3000
}

pub fn is_printable_char(c: char) -> (r: bool)
    ensures
        r == is_printable(c),
{
    let u = c as u32;
    0x20 <= u && u <= 0x7E
}

/// Bounds `[lo, hi)` of `s` once leading and trailing white space is cut off.
fn trim_bounds(s: &Vec<char>) -> (r: (usize, usize))
    ensures
        r.0 <= r.1 <= s.len(),
        s@.subrange(r.0 as int, r.1 as int) == trim(s@),
{
    let n = s.len();
    let mut lo: usize = 0;
    assert(s@.subrange(0, n as int) =~= s@);
    while lo < n && is_white_space_char(s[lo])
        invariant
            lo <= n == s.len(),
            trim_start(s@) == trim_start(s@.subrange(lo as int, n as int)),
        decreases n - lo,
    {
        assert(s@.subrange(lo as int, n as int).drop_first() =~= s@.subrange(
            lo + 1,
            n as int,
        ));
        lo = lo + 1;
    }
    let mut hi: usize = n;
    while hi > lo && is_white_space_char(s[hi - 1])
        invariant
            lo <= hi <= n == s.len(),
            trim(s@) == trim_end(s@.subrange(lo as int, hi as int)),
        decreases hi - lo,
    {
        assert(s@.subrange(lo as int, hi as int).drop_last() =~= s@.subrange(
            lo as int,
            hi - 1,
        ));
        hi = hi - 1;
    }
    (lo, hi)
}

/// Collapses every run of spaces in `s[lo..hi]` to one space and appends the result.
fn push_collapsed(out: &mut String, s: &Vec<char>, lo: usize, hi: usize)
    requires
        lo <= hi <= s.len(),
    ensures
        final(out)@ == old(out)@ + collapse_spaces(s@.subrange(lo as int, hi as int)),
{
    let ghost start = out@;
    let mut i: usize = lo;
    while i < hi
        invariant
            lo <= i <= hi <= s.len(),
            out@ == start + collapse_spaces(s@.subrange(lo as int, i as int)),
        decreases hi - i,
    {
        let c = s[i];
        let ghost part = s@.subrange(lo as int, i + 1);
        assert(part.drop_last() =~= s@.subrange(lo as int, i as int));
        if !(c == ' ' && i > lo && s[i - 1] == ' ') {
            push_char(out, c);
            assert(out@ =~= start + collapse_spaces(part));
        }
        i = i + 1;
    }
}

/// Trims `string` and collapses every run of spaces in it to a single space.
pub fn tidy_up_string(string: String) -> (r: String)
    ensures
        r@ == tidy(string@),
{
    let chars = chars_of(string.as_str());
    let (lo, hi) = trim_bounds(&chars);
    let mut out = String::new();
    push_collapsed(&mut out, &chars, lo, hi);
    assert(out@ =~= tidy(string@));
    out
}

/// Keeps the printable ASCII characters of `s`, in order.
fn printable_chars(s: &Vec<char>) -> (r: Vec<char>)
    ensures
        r@ == printable_part(s@),
{
    let mut r: Vec<char> = Vec::new();
    let mut i: usize = 0;
    while i < s.len()
        invariant
            i <= s.len(),
            r@ == printable_part(s@.take(i as int)),
        decreases s.len() - i,
    {
        assert(s@.take(i + 1).drop_last() =~= s@.take(i as int));
        if is_printable_char(s[i]) {
            r.push(s[i]);
        }
        i = i + 1;
    }
    assert(s@.take(s.len() as int) =~= s@);
    r
}

/// Normalises extracted text: drops every character that is not printable ASCII,
/// trims, and collapses runs of spaces.
pub fn normalize(text: &str) -> (r: String)
    ensures
        r@ == normalized(text@),
{
    let chars = printable_chars(&chars_of(text));
    let (lo, hi) = trim_bounds(&chars);
    let mut out = String::new();
    push_collapsed(&mut out, &chars, lo, hi);
    assert(out@ =~= normalized(text@));
    out
}

/// Normalises a generated title and removes the `*` of markdown emphasis.
pub fn tidy_title(title: String) -> (r: String)
    ensures
        r@ == clean_title(title@),
{
    let tidied = chars_of(normalize(title.as_str()).as_str());
    let mut out = String::new();
    let mut i: usize = 0;
    while i < tidied.len()
        invariant
            i <= tidied.len(),
            out@ == without_stars(tidied@.take(i as int)),
        decreases tidied.len() - i,
    {
        assert(tidied@.take(i + 1).drop_last() =~= tidied@.take(i as int));
        if tidied[i] != '*' {
            push_char(&mut out, tidied[i]);
        }
        i = i + 1;
    }
    assert(tidied@.take(tidied.len() as int) =~= tidied@);
    out
}

pub open spec fn all_printable(s: Seq<char>) -> bool {
    forall|i: int| 0 <= i < s.len() ==> is_printable(#[trigger] s[i])
}

pub open spec fn no_double_space(s: Seq<char>) -> bool {
    forall|i: int| 0 <= i < s.len() - 1 ==> !(#[trigger] s[i] == ' ' && s[i + 1] == ' ')
}

proof fn lemma_printable_part(s: Seq<char>)
    ensures
        all_printable(printable_part(s)),
        all_printable(s) ==> printable_part(s) == s,
    decreases s.len(),
{
    if s.len() > 0 {
        lemma_printable_part(s.drop_last());
        if all_printable(s) {
            assert(all_printable(s.drop_last()));
            assert(s.drop_last().push(s.last()) =~= s);
        }
    }
}

proof fn lemma_trim_start_suffix(s: Seq<char>)
    ensures
        trim_start(s).len() <= s.len(),
        trim_start(s) == s.subrange(s.len() - trim_start(s).len(), s.len() as int),
        trim_start(s).len() > 0 ==> !is_white_space(trim_start(s)[0]),
    decreases s.len(),
{
    if s.len() > 0 && is_white_space(s[0]) {
        lemma_trim_start_suffix(s.drop_first());
        let t = trim_start(s);
        assert(t =~= s.subrange(s.len() - t.len(), s.len() as int));
    } else {
        assert(s =~= s.subrange(0, s.len() as int));
    }
}

proof fn lemma_trim_end_prefix(s: Seq<char>)
    ensures
        trim_end(s).len() <= s.len(),
        trim_end(s) == s.subrange(0, trim_end(s).len() as int),
        trim_end(s).len() > 0 ==> !is_white_space(trim_end(s).last()),
    decreases s.len(),
{
    if s.len() > 0 && is_white_space(s.last()) {
        lemma_trim_end_prefix(s.drop_last());
        assert(trim_end(s) =~= s.subrange(0, trim_end(s).len() as int));
    } else {
        assert(s =~= s.subrange(0, s.len() as int));
    }
}

/// What `trim` leaves: a part of `s` with no white space at either end.
proof fn lemma_trim(s: Seq<char>)
    ensures
        all_printable(s) ==> all_printable(trim(s)),
        trim(s).len() > 0 ==> !is_white_space(trim(s)[0]) && !is_white_space(trim(s).last()),
{
    let a = trim_start(s);
    lemma_trim_start_suffix(s);
    lemma_trim_end_prefix(a);
    let t = trim(s);
    if t.len() > 0 {
        assert(t[0] == a[0]);
    }
    if all_printable(s) {
        assert forall|i: int| 0 <= i < t.len() implies is_printable(#[trigger] t[i]) by {
            assert(t[i] == a[i]);
            assert(a[i] == s[s.len() - a.len() + i]);
        }
    }
}

/// A sequence with nothing to trim is its own trim.
proof fn lemma_trim_fixed(s: Seq<char>)
    requires
        s.len() > 0 ==> !is_white_space(s[0]) && !is_white_space(s.last()),
    ensures
        trim(s) == s,
{
}

/// What `collapse_spaces` leaves: the same ends, no two adjacent spaces, and
/// only characters of `s`.
proof fn lemma_collapse(s: Seq<char>)
    ensures
        s.len() > 0 ==> collapse_spaces(s).len() > 0 && collapse_spaces(s)[0] == s[0]
            && collapse_spaces(s).last() == s.last(),
        no_double_space(collapse_spaces(s)),
        all_printable(s) ==> all_printable(collapse_spaces(s)),
        no_double_space(s) ==> collapse_spaces(s) == s,
    decreases s.len(),
{
    if s.len() > 0 {
        let d = s.drop_last();
        lemma_collapse(d);
        let c = collapse_spaces(s);
        if all_printable(s) {
            assert(all_printable(d));
        }
        if no_double_space(s) {
            assert(no_double_space(d));
            assert(d.push(s.last()) =~= s);
        }
        if !(s.len() >= 2 && s.last() == ' ' && s[s.len() - 2] == ' ') {
            let cd = collapse_spaces(d);
            assert forall|i: int| 0 <= i < c.len() - 1 implies !(#[trigger] c[i] == ' ' && c[i
                + 1] == ' ') by {
                if i + 1 == c.len() - 1 && s.len() >= 2 {
                    assert(c[i] == cd.last());
                }
                if i + 1 < c.len() - 1 {
                    assert(c[i] == cd[i] && c[i + 1] == cd[i + 1]);
                }
            }
        }
    }
}

/// Normalising already normalised text changes nothing.
pub proof fn lemma_normalize_idempotent(s: Seq<char>)
    ensures
        normalized(normalized(s)) == normalized(s),
{
    let p = printable_part(s);
    lemma_printable_part(s);
    lemma_trim(p);
    let t = trim(p);
    lemma_collapse(t);
    let y = collapse_spaces(t);
    lemma_printable_part(y);
    lemma_trim_fixed(y);
    lemma_collapse(y);
}

} // verus!
