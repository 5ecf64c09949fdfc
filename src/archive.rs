//! Naming in the intake and storage directories: which intake entries are documents,
//! which are scratch page images, and the content-addressed name a document is
//! archived under.
use vstd::prelude::*;
use vstd::string::*;
use crate::text::{chars_of, push_char};

verus! {

/// The index of the last `.` in `s`, if any.
pub open spec fn last_dot(s: Seq<char>) -> Option<int>
    decreases s.len(),
{
    if s.len() == 0 {
        None
    } else if s.last() == '.' {
        Some(s.len() - 1)
    } else {
        last_dot(s.drop_last())
    }
}

/// The extension of a file name: what follows its last `.`, where that dot is not
/// the first character (so `.profile` has none).
pub open spec fn extension_of(name: Seq<char>) -> Option<Seq<char>> {
    match last_dot(name) {
        Some(i) if i > 0 => Some(name.subrange(i + 1, name.len() as int)),
        _ => None,
    }
}

/// The name a file called `name` is archived under, given a fresh identifier: the
/// identifier, then the original extension when there is a nonempty one.
pub open spec fn archived_name(name: Seq<char>, id: Seq<char>) -> Seq<char> {
    match extension_of(name) {
        Some(e) if e.len() > 0 => id + seq!['.'] + e,
        _ => id,
    }
}

pub open spec fn is_lower_hex_digit(c: char) -> bool {
    ('0' <= c && c <= '9') || ('a' <= c && c <= 'f')
}

/// An archive identifier: 64 lowercase hexadecimal digits.
pub open spec fn is_archive_id(id: Seq<char>) -> bool {
    &&& id.len() == 64
    &&& forall|i: int| 0 <= i < id.len() ==> is_lower_hex_digit(#[trigger] id[i])
}

/// Whether `id` is an archive identifier: 64 lowercase hexadecimal digits.
pub fn is_archive_identifier(id: &str) -> (r: bool)
    ensures
        r == is_archive_id(id@),
{
    let c = chars_of(id);
    if c.len() != 64 {
        return false;
    }
    let mut k: usize = 0;
    while k < c.len()
        invariant
            k <= c.len() == 64,
            c@ == id@,
            forall|i: int| 0 <= i < k ==> is_lower_hex_digit(#[trigger] c@[i]),
        decreases c.len() - k,
    {
        let d = c[k];
        if !(('0' <= d && d <= '9') || ('a' <= d && d <= 'f')) {
            return false;
        }
        k = k + 1;
    }
    true
}

/// Where the last `.` of `s` stands, if there is one.
fn find_last_dot(s: &Vec<char>) -> (r: Option<usize>)
    ensures
        r matches Some(i) ==> i < s.len() && last_dot(s@) == Some(i as int),
        r is None ==> last_dot(s@) is None,
{
    let mut k: usize = s.len();
    assert(s@.take(k as int) =~= s@);
    while k > 0
        invariant
            k <= s.len(),
            last_dot(s@) == last_dot(s@.take(k as int)),
        decreases k,
    {
        assert(s@.take(k as int).drop_last() =~= s@.take(k - 1));
        if s[k - 1] == '.' {
            return Some(k - 1);
        }
        k = k - 1;
    }
    None
}

/// The extension of the file name `name`, if it has one.
pub fn file_extension(name: &str) -> (r: Option<String>)
    ensures
        r matches Some(e) ==> extension_of(name@) == Some(e@),
        r is None ==> extension_of(name@) is None,
{
    let chars = chars_of(name);
    assert(chars@.take(chars.len() as int) =~= chars@);
    match find_last_dot(&chars) {
        Some(i) if i > 0 => {
            let mut e = String::new();
            let mut k: usize = i + 1;
            while k < chars.len()
                invariant
                    i + 1 <= k <= chars.len(),
                    e@ == chars@.subrange(i + 1, k as int),
                decreases chars.len() - k,
            {
                push_char(&mut e, chars[k]);
                assert(e@ =~= chars@.subrange(i + 1, k + 1));
                k = k + 1;
            }
            Some(e)
        },
        _ => None,
    }
}

/// The archive name of the intake file `name` under the identifier `id`.
pub fn archive_file_name(name: &str, id: &str) -> (r: String)
    ensures
        r@ == archived_name(name@, id@),
{
    let mut out = String::from_str(id);
    match file_extension(name) {
        Some(e) => {
            if e.as_str().unicode_len() > 0 {
                push_char(&mut out, '.');
                out.append(e.as_str());
            }
        },
        None => {},
    }
    out
}

/// The place in `storage_dir` for the intake file `name` under the identifier `id`:
/// the directory, then the identifier carrying the file's extension.
pub fn archive_target(storage_dir: &str, name: &str, id: &str) -> (r: String)
    ensures
        r@ == storage_dir@ + archived_name(name@, id@),
{
    let file = archive_file_name(name, id);
    let mut out = String::from_str(storage_dir);
    out.append(file.as_str());
    out
}

/// A name that ends in `.pdf`.
pub open spec fn is_pdf_name(name: Seq<char>) -> bool {
    name.len() >= 4 && name.subrange(name.len() - 4, name.len() as int) == seq!['.', 'p', 'd', 'f']
}

/// Whether an intake entry is a document to ingest: its name ends in `.pdf`.
pub fn is_intake_document(name: &str) -> (r: bool)
    ensures
        r == is_pdf_name(name@),
{
    let chars = chars_of(name);
    let n = chars.len();
    if n < 4 {
        return false;
    }
    let r = chars[n - 4] == '.' && chars[n - 3] == 'p' && chars[n - 2] == 'd' && chars[n - 1]
        == 'f';
    assert(r == (chars@.subrange(n - 4, n as int) =~= seq!['.', 'p', 'd', 'f']));
    r
}

/// Whether an intake entry is a page image left behind by text extraction: its
/// extension is `jpg`.
pub fn is_page_image(name: &str) -> (r: bool)
    ensures
        r == (extension_of(name@) == Some(seq!['j', 'p', 'g'])),
{
    match file_extension(name) {
        Some(e) => {
            let c = chars_of(e.as_str());
            let r = c.len() == 3 && c[0] == 'j' && c[1] == 'p' && c[2] == 'g';
            assert(r == (c@ =~= seq!['j', 'p', 'g']));
            r
        },
        None => false,
    }
}

/// The name of the first page image that rasterising the intake file `name` leaves:
/// `name` followed by `-1.jpg`.
pub fn page_image_name(name: &str) -> (r: String)
    ensures
        r@ == name@ + seq!['-', '1', '.', 'j', 'p', 'g'],
{
    let mut out = String::from_str(name);
    let suffix = ['-', '1', '.', 'j', 'p', 'g'];
    let mut j: usize = 0;
    while j < 6
        invariant
            j <= 6,
            suffix@ == seq!['-', '1', '.', 'j', 'p', 'g'],
            out@ == name@ + suffix@.take(j as int),
        decreases 6 - j,
    {
        push_char(&mut out, suffix[j]);
        assert(suffix@.take(j + 1) =~= suffix@.take(j as int).push(suffix@[j as int]));
        j = j + 1;
    }
    assert(suffix@.take(6) =~= suffix@);
    out
}

proof fn lemma_last_dot(s: Seq<char>)
    ensures
        last_dot(s) matches Some(i) ==> 0 <= i < s.len() && s[i] == '.' && forall|j: int|
            i < j < s.len() ==> #[trigger] s[j] != '.',
        last_dot(s) is None ==> forall|j: int| 0 <= j < s.len() ==> #[trigger] s[j] != '.',
    decreases s.len(),
{
    if s.len() > 0 {
        let d = s.drop_last();
        lemma_last_dot(d);
        assert forall|j: int| 0 <= j < d.len() implies #[trigger] s[j] == d[j] by {}
        if s.last() != '.' {
            if let Some(i) = last_dot(d) {
                assert forall|j: int| i < j < s.len() implies #[trigger] s[j] != '.' by {
                    if j < d.len() {
                        assert(s[j] == d[j]);
                    }
                }
            } else {
                assert forall|j: int| 0 <= j < s.len() implies #[trigger] s[j] != '.' by {
                    if j < d.len() {
                        assert(s[j] == d[j]);
                    }
                }
            }
        }
    }
}

proof fn lemma_last_dot_of_dotless_tail(a: Seq<char>, e: Seq<char>)
    requires
        forall|j: int| 0 <= j < e.len() ==> #[trigger] e[j] != '.',
    ensures
        last_dot(a + seq!['.'] + e) == Some(a.len() as int),
    decreases e.len(),
{
    let s = a + seq!['.'] + e;
    if e.len() == 0 {
        assert(s.last() == '.');
    } else {
        assert(s.drop_last() =~= a + seq!['.'] + e.drop_last());
        assert(s.last() == e.last());
        lemma_last_dot_of_dotless_tail(a, e.drop_last());
    }
}

/// Archiving keeps the extension: the archive name of a file with a nonempty
/// extension is a fresh identifier, a dot, and that same extension.
pub proof fn lemma_archive_keeps_extension(name: Seq<char>, id: Seq<char>)
    requires
        is_archive_id(id),
        extension_of(name) matches Some(e) && e.len() > 0,
    ensures
        extension_of(archived_name(name, id)) == extension_of(name),
        archived_name(name, id) == id + seq!['.'] + extension_of(name)->0,
{
    let e = extension_of(name)->0;
    lemma_last_dot(name);
    let i = last_dot(name)->0;
    assert forall|j: int| 0 <= j < e.len() implies #[trigger] e[j] != '.' by {
        assert(e[j] == name[i + 1 + j]);
    }
    lemma_last_dot_of_dotless_tail(id, e);
    let s = id + seq!['.'] + e;
    assert(s.subrange(id.len() + 1int, s.len() as int) =~= e);
}

/// An intake document `<stem>.pdf` with a nonempty stem is archived as
/// `<identifier>.pdf`.
pub proof fn lemma_pdf_archived_as_pdf(name: Seq<char>, id: Seq<char>)
    requires
        is_archive_id(id),
        is_pdf_name(name),
        name.len() > 4,
    ensures
        archived_name(name, id) == id + seq!['.', 'p', 'd', 'f'],
{
    let n = name.len() as int;
    let stem = name.subrange(0, n - 4);
    let e = seq!['p', 'd', 'f'];
    assert(name.subrange(n - 4, n)[0] == name[n - 4]);
    assert(name =~= stem + seq!['.'] + e) by {
        assert(name.subrange(n - 4, n) == seq!['.', 'p', 'd', 'f']);
        assert forall|j: int| n - 4 <= j < n implies name[j] == name.subrange(n - 4, n)[j - (n
            - 4)] by {}
    }
    lemma_last_dot_of_dotless_tail(stem, e);
    assert(name.subrange(n - 3, n) =~= e);
    assert(id + seq!['.'] + e =~= id + seq!['.', 'p', 'd', 'f']);
}

} // verus!
