//! Which paths a file prompt offers: Markdown files and the directories that
//! may lead to them.
use vstd::prelude::*;
use vstd::string::*;

verus! {

#[verifier::external_type_specification]
#[verifier::external_body]
pub struct ExPathBuf(std::path::PathBuf);

/// What `std::path::Path::extension` gives for the path `path`, as a string.
pub uninterp spec fn extension_of(path: Seq<char>) -> Option<Seq<char>>;

/// The extension of the path `path` (the part of its file name after the last dot, when
/// the name has a dot that does not start it): calls `std::path::Path::extension`, whose
/// result depends on the path alone (under the path syntax of the platform built for), and
/// converts it to a string.
#[verifier::external_body]
fn path_extension(path: &str) -> (r: Option<String>)
    ensures
        match r {
            Some(e) => extension_of(path@) == Some(e@),
            None => extension_of(path@) is None,
        },
{
    match std::path::Path::new(path).extension() {
        Some(e) => Some(e.to_string_lossy().into_owned()),
        None => None,
    }
}

/// Whether `path` names a directory on disk: calls `std::path::Path::is_dir`. What it
/// returns depends on the file system at the time of the call, so nothing is stated of it.
#[verifier::external_body]
pub(crate) fn path_is_dir(path: &str) -> (r: bool) {
    std::path::Path::new(path).is_dir()
}

/// `c` with an ASCII upper-case letter turned into lower case.
pub open spec fn ascii_lower(c: char) -> char {
    if 'A' <= c && c <= 'Z' {
        ((c as u32) + 32) as char
    } else {
        c
    }
}

/// `c` with an ASCII lower-case letter turned into upper case.
pub open spec fn ascii_upper(c: char) -> char {
    if 'a' <= c && c <= 'z' {
        ((c as u32) - 32) as char
    } else {
        c
    }
}

proof fn lemma_ascii_lower_absorbs(c: char)
    ensures
        ascii_lower(ascii_lower(c)) == ascii_lower(c),
        ascii_lower(ascii_upper(c)) == ascii_lower(c),
{
}

/// Whether an extension names Markdown does not change when its ASCII letters are all
/// turned to lower case or all turned to upper case.
pub proof fn markdown_extension_ignores_ascii_case(e: Seq<char>)
    ensures
        eq_ignore_ascii_case_spec(e.map_values(|c: char| ascii_lower(c)), "md"@) == eq_ignore_ascii_case_spec(e, "md"@),
        eq_ignore_ascii_case_spec(e.map_values(|c: char| ascii_upper(c)), "md"@) == eq_ignore_ascii_case_spec(e, "md"@),
{
    let lo = e.map_values(|c: char| ascii_lower(c));
    let up = e.map_values(|c: char| ascii_upper(c));
    let md = "md"@;
    assert forall|i: int| 0 <= i < e.len() implies ascii_lower(#[trigger] lo[i]) == ascii_lower(e[i])
        && ascii_lower(up[i]) == ascii_lower(e[i]) by {
        lemma_ascii_lower_absorbs(e[i]);
    }
    if eq_ignore_ascii_case_spec(e, md) {
        assert forall|i: int| 0 <= i < lo.len() implies ascii_lower(#[trigger] lo[i]) == ascii_lower(md[i]) by {
            assert(ascii_lower(e[i]) == ascii_lower(md[i]));
        }
        assert forall|i: int| 0 <= i < up.len() implies ascii_lower(#[trigger] up[i]) == ascii_lower(md[i]) by {
            assert(ascii_lower(e[i]) == ascii_lower(md[i]));
            assert(ascii_lower(lo[i]) == ascii_lower(e[i]));
        }
    }
    if eq_ignore_ascii_case_spec(lo, md) {
        assert forall|i: int| 0 <= i < e.len() implies ascii_lower(#[trigger] e[i]) == ascii_lower(md[i]) by {
            assert(ascii_lower(lo[i]) == ascii_lower(md[i]));
        }
    }
    if eq_ignore_ascii_case_spec(up, md) {
        assert forall|i: int| 0 <= i < e.len() implies ascii_lower(#[trigger] e[i]) == ascii_lower(md[i]) by {
            assert(ascii_lower(up[i]) == ascii_lower(md[i]));
            assert(ascii_lower(lo[i]) == ascii_lower(e[i]));
        }
    }
}

/// Whether `a` and `b` are equal when ASCII letters are compared regardless of case.
pub open spec fn eq_ignore_ascii_case_spec(a: Seq<char>, b: Seq<char>) -> bool {
    &&& a.len() == b.len()
    &&& forall|i: int| 0 <= i < a.len() ==> ascii_lower(#[trigger] a[i]) == ascii_lower(b[i])
}

fn lower_char(c: char) -> (r: char)
    ensures
        r == ascii_lower(c),
{
    if 'A' <= c && c <= 'Z' {
        let code: u32 = (c as u32) + 32;
        assert(0x61 <= code <= 0x7a);
        char_from_ascii(code)
    } else {
        c
    }
}

fn char_from_ascii(code: u32) -> (r: char)
    requires
        0x61 <= code <= 0x7a,
    ensures
        r == code as char,
{
    let b: u8 = code as u8;
    b as char
}

/// Whether `a` and `b` are equal when ASCII letters are compared regardless of case.
pub fn eq_ignore_ascii_case(a: &str, b: &str) -> (r: bool)
    ensures
        r == eq_ignore_ascii_case_spec(a@, b@),
{
    let n = a.unicode_len();
    if n != b.unicode_len() {
        return false;
    }
    let mut i: usize = 0;
    while i < n
        invariant
            i <= n,
            n == a@.len(),
            n == b@.len(),
            forall|j: int| 0 <= j < i ==> ascii_lower(#[trigger] a@[j]) == ascii_lower(b@[j]),
        decreases n - i,
    {
        if lower_char(a.get_char(i)) != lower_char(b.get_char(i)) {
            return false;
        }
        i = i + 1;
    }
    true
}

/// Whether the path names a Markdown file: its extension is `md` in any case.
pub open spec fn is_markdown_spec(path: Seq<char>) -> bool {
    match extension_of(path) {
        Some(e) => eq_ignore_ascii_case_spec(e, "md"@),
        None => false,
    }
}

/// Whether the path names a Markdown file: its extension is `md` in any case.
pub fn is_markdown(path: &str) -> (r: bool)
    ensures
        r == is_markdown_spec(path@),
{
    match path_extension(path) {
        Some(e) => eq_ignore_ascii_case(e.as_str(), "md"),
        None => false,
    }
}

/// Whether a prompt for a file offers the path, given whether it names a directory.
pub fn visitable_given(is_dir: bool, path: &str) -> (r: bool)
    ensures
        r == (is_dir || is_markdown_spec(path@)),
{
    is_dir || is_markdown(path)
}

/// Whether a prompt for a file offers the path: a directory, or a Markdown file. Whether
/// the path is a directory is asked of the file system; a Markdown file is always offered.
pub fn is_visitable(path: &str) -> (r: bool)
    ensures
        is_markdown_spec(path@) ==> r,
{
    let is_dir = path_is_dir(path);
    visitable_given(is_dir, path)
}

} // verus!
