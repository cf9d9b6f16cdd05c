//! A value enum whose names a question offers, and a path prompt that offers
//! Markdown files.
use vstd::prelude::*;
use vstd::string::*;
use crate::naming::{heck_kebab_case, kebab_case};
use crate::paths::{is_markdown_spec, path_is_dir, visitable_given};
use crate::text::owned;

pub use crate::paths::is_markdown;

verus! {

/// The base image of a container.
#[derive(Clone, Copy, PartialEq, Eq, Debug)]
pub enum Base {
    Debian,
    Alpine,
    Arch,
}

impl Base {
    /// The variants, in the order they are declared.
    pub fn value_variants() -> (r: Vec<Base>)
        ensures
            r@ == seq![Base::Debian, Base::Alpine, Base::Arch],
    {
        let mut r: Vec<Base> = Vec::new();
        r.push(Base::Debian);
        r.push(Base::Alpine);
        r.push(Base::Arch);
        r
    }

    /// The variant's identifier.
    pub open spec fn ident(self) -> Seq<char> {
        match self {
            Base::Debian => "Debian"@,
            Base::Alpine => "Alpine"@,
            Base::Arch => "Arch"@,
        }
    }

    /// The name of the variant on the command line: its identifier in kebab case.
    pub fn possible_value_name(&self) -> (r: String)
        ensures
            r@ == heck_kebab_case(self.ident()),
    {
        match self {
            Base::Debian => kebab_case("Debian"),
            Base::Alpine => kebab_case("Alpine"),
            Base::Arch => kebab_case("Arch"),
        }
    }
}

/// A path prompt that offers directories and Markdown files.
pub struct MarkdownPathCompleter;

/// The paths a prompt would list for the input before they are filtered.
pub open spec fn listed_paths(input: Seq<char>) -> Seq<Seq<char>> {
    if input == "src"@ {
        seq!["src/main.rs"@, "src/utils.md"@]
    } else {
        Seq::empty()
    }
}

/// The paths among `paths` that a file prompt offers, in order: those that name a
/// directory, by the answer at the same index of `dirs` (none counts as no), and the
/// Markdown files.
pub open spec fn offered_paths(paths: Seq<Seq<char>>, dirs: Seq<bool>) -> Seq<Seq<char>>
    decreases paths.len(),
{
    if paths.len() == 0 {
        Seq::empty()
    } else {
        let i = paths.len() - 1;
        let rest = offered_paths(paths.drop_last(), dirs);
        if (i < dirs.len() && dirs[i]) || is_markdown_spec(paths[i]) {
            rest.push(paths[i])
        } else {
            rest
        }
    }
}

proof fn lemma_offered_within(paths: Seq<Seq<char>>, dirs: Seq<bool>)
    ensures
        forall|k: int| 0 <= k < offered_paths(paths, dirs).len() ==> paths.contains(#[trigger] offered_paths(paths, dirs)[k]),
        paths.no_duplicates() ==> offered_paths(paths, dirs).no_duplicates(),
        forall|i: int| 0 <= i < paths.len() && is_markdown_spec(#[trigger] paths[i]) ==> offered_paths(paths, dirs).contains(paths[i]),
    decreases paths.len(),
{
    if paths.len() > 0 {
        let init = paths.drop_last();
        let i = paths.len() - 1;
        let rest = offered_paths(init, dirs);
        lemma_offered_within(init, dirs);
        let out = offered_paths(paths, dirs);
        assert forall|k: int| 0 <= k < out.len() implies paths.contains(#[trigger] out[k]) by {
            if k < rest.len() {
                assert(out[k] == rest[k]);
                let j = choose|j: int| 0 <= j < init.len() && init[j] == rest[k];
                assert(paths[j] == init[j]);
            } else {
                assert(out[k] == paths[i]);
            }
        }
        if paths.no_duplicates() {
            assert(init.no_duplicates()) by {
                assert forall|a: int, b: int| 0 <= a < init.len() && 0 <= b < init.len() && a != b implies init[a] != init[b] by {
                    assert(init[a] == paths[a] && init[b] == paths[b]);
                }
            }
            if out.len() > rest.len() {
                assert(!rest.contains(paths[i])) by {
                    if rest.contains(paths[i]) {
                        let k = choose|k: int| 0 <= k < rest.len() && rest[k] == paths[i];
                        let j = choose|j: int| 0 <= j < init.len() && init[j] == rest[k];
                        assert(paths[j] == paths[i]);
                    }
                }
                assert forall|a: int, b: int| 0 <= a < out.len() && 0 <= b < out.len() && a != b implies out[a] != out[b] by {
                    if a < rest.len() && b < rest.len() {
                        assert(out[a] == rest[a] && out[b] == rest[b]);
                    } else if a < rest.len() {
                        assert(out[a] == rest[a]);
                    } else if b < rest.len() {
                        assert(out[b] == rest[b]);
                    }
                }
            }
        }
        assert forall|m: int| 0 <= m < paths.len() && is_markdown_spec(#[trigger] paths[m]) implies out.contains(paths[m]) by {
            if m < i {
                assert(init[m] == paths[m]);
                assert(rest.contains(init[m]));
                let k = choose|k: int| 0 <= k < rest.len() && rest[k] == init[m];
                assert(out[k] == rest[k]);
            } else {
                assert(out[out.len() - 1] == paths[i]);
            }
        }
    }
}

/// The paths listed for the input.
fn listed(input: &str) -> (r: Vec<String>)
    ensures
        r@.map_values(|s: String| s@) == listed_paths(input@),
{
    let mut results: Vec<String> = Vec::new();
    proof {
        reveal_strlit("src");
        reveal_strlit("src/main.rs");
        reveal_strlit("src/utils.md");
    }
    if crate::text::str_eq(input, "src") {
        results.push(owned("src/main.rs"));
        results.push(owned("src/utils.md"));
    }
    assert(results@.map_values(|s: String| s@) =~= listed_paths(input@));
    results
}

/// The suggestions for the input, given for each listed path whether it names a directory:
/// the listed paths that name a directory or a Markdown file, in order.
pub fn suggestions_given(input: &str, dirs: &Vec<bool>) -> (r: Vec<String>)
    ensures
        r@.map_values(|s: String| s@) == offered_paths(listed_paths(input@), dirs@),
{
    let results = listed(input);
    let ghost paths = listed_paths(input@);
    let mut filtered: Vec<String> = Vec::new();
    let mut i: usize = 0;
    assert(filtered@.map_values(|s: String| s@) =~= offered_paths(paths.take(0), dirs@));
    while i < results.len()
        invariant
            i <= results.len(),
            paths == results@.map_values(|s: String| s@),
            filtered@.map_values(|s: String| s@) == offered_paths(paths.take(i as int), dirs@),
        decreases results.len() - i,
    {
        let p = &results[i];
        assert(paths.take(i + 1).drop_last() =~= paths.take(i as int));
        assert(paths.take(i + 1)[i as int] == p@);
        let is_dir = i < dirs.len() && dirs[i];
        if visitable_given(is_dir, p.as_str()) {
            let ghost before = filtered@;
            filtered.push(p.clone());
            assert(filtered@.map_values(|s: String| s@) =~= before.map_values(|s: String| s@).push(p@));
        }
        i = i + 1;
    }
    assert(paths.take(results.len() as int) =~= paths);
    filtered
}

impl MarkdownPathCompleter {
    /// The suggestions for the input: of the paths listed for it, those that name a
    /// directory on disk or a Markdown file, in the listed order and without repeats;
    /// every Markdown one is kept.
    pub fn get_suggestions(&mut self, input: &str) -> (r: Vec<String>)
        ensures
            exists|dirs: Seq<bool>| dirs.len() == listed_paths(input@).len()
                && r@.map_values(|s: String| s@) == offered_paths(listed_paths(input@), dirs),
            r@.map_values(|s: String| s@).no_duplicates(),
            forall|i: int| 0 <= i < listed_paths(input@).len() && is_markdown_spec(#[trigger] listed_paths(input@)[i])
                ==> r@.map_values(|s: String| s@).contains(listed_paths(input@)[i]),
    {
        let results = listed(input);
        let ghost paths = listed_paths(input@);
        let mut dirs: Vec<bool> = Vec::new();
        let mut i: usize = 0;
        while i < results.len()
            invariant
                i <= results.len(),
                dirs@.len() == i,
            decreases results.len() - i,
        {
            dirs.push(path_is_dir(results[i].as_str()));
            i = i + 1;
        }
        let r = suggestions_given(input, &dirs);
        proof {
            reveal_strlit("src/main.rs");
            reveal_strlit("src/utils.md");
            assert("src/main.rs"@[4] != "src/utils.md"@[4]);
            assert(paths.no_duplicates());
            lemma_offered_within(paths, dirs@);
        }
        r
    }

    /// What completing gives: the highlighted suggestion, if any.
    pub fn get_completion(&mut self, input: &str, highlighted_suggestion: Option<String>) -> (r: Option<String>)
        ensures
            r == highlighted_suggestion,
    {
        highlighted_suggestion
    }
}

} // verus!
