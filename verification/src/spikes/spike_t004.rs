//! A path prompt that lists the entries of the directory typed so far.
use vstd::prelude::*;
use vstd::string::*;
use crate::completion::{common_prefix_spec, completion, suggestions, suggestions_spec, DirEntry};
use crate::naming::{heck_kebab_case, kebab_case};

pub use crate::paths::is_markdown;

verus! {

/// The base image of a container.
#[derive(Clone, Copy, PartialEq, Eq, Debug)]
pub enum Base {
    Debian,
    Alpine,
    Arch,
}

impl Base {
    /// The variants, in the order they are declared.
    pub fn value_variants() -> (r: Vec<Base>)
        ensures
            r@ == seq![Base::Debian, Base::Alpine, Base::Arch],
    {
        let mut r: Vec<Base> = Vec::new();
        r.push(Base::Debian);
        r.push(Base::Alpine);
        r.push(Base::Arch);
        r
    }

    /// The variant's identifier.
    pub open spec fn ident(self) -> Seq<char> {
        match self {
            Base::Debian => "Debian"@,
            Base::Alpine => "Alpine"@,
            Base::Arch => "Arch"@,
        }
    }

    /// The name of the variant on the command line: its identifier in kebab case.
    pub fn possible_value_name(&self) -> (r: String)
        ensures
            r@ == heck_kebab_case(self.ident()),
    {
        match self {
            Base::Debian => kebab_case("Debian"),
            Base::Alpine => kebab_case("Alpine"),
            Base::Arch => kebab_case("Arch"),
        }
    }
}

/// A path prompt that offers the directories and Markdown files of the directory typed.
pub struct MarkdownPathCompleter;

impl MarkdownPathCompleter {
    /// The suggestions for the input, given the entries of the directory it names.
    pub fn get_suggestions(&mut self, input: &str, entries: Vec<DirEntry>) -> (r: Vec<String>)
        ensures
            r@.map_values(|v: String| v@) == suggestions_spec(input@, entries@),
    {
        suggestions(input, entries)
    }

    /// What completing gives: the highlighted suggestion, otherwise the common start of the
    /// suggestions for the input, if there are any.
    pub fn get_completion(&mut self, input: &str, highlighted_suggestion: Option<String>, entries: Vec<DirEntry>) -> (r: Option<String>)
        ensures
            match highlighted_suggestion {
                Some(h) => r == Some(h),
                None => match r {
                    Some(c) => common_prefix_spec(suggestions_spec(input@, entries@)) == Some(c@),
                    None => common_prefix_spec(suggestions_spec(input@, entries@)) is None,
                },
            },
    {
        match highlighted_suggestion {
            Some(h) => Some(h),
            None => completion(None, suggestions(input, entries)),
        }
    }
}

} // verus!
