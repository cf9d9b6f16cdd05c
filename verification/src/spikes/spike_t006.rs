//! A restart command whose arguments are filled by `fill`, with a group of
//! mutually exclusive prompt flags.
use vstd::prelude::*;
use std::path::PathBuf;
use crate::runtime::{InteractionError, Resolve};

pub use crate::paths::{is_markdown, is_visitable};

verus! {

/// The base image of a container.
#[derive(Clone, Copy, PartialEq, Eq, Debug)]
pub enum Base {
    Debian,
    Alpine,
    Arch,
}

/// The context of the restart command.
pub struct Ctx;

/// The prompt given to the container.
pub enum Prompt {
    File(PathBuf),
    Text(String),
    NoPrompt,
}

/// The restart action.
pub struct Restart {
    pub container: String,
    pub base: Option<Base>,
    pub prompt: Option<Prompt>,
    pub save: bool,
}

pub enum Action {
    Restart(Restart),
}

/// The arguments of the restart command.
pub struct RestartArgs {
    pub container: String,
    pub base: Option<Base>,
    pub prompt: PromptGroup,
    pub save: bool,
    pub no_save: bool,
}

/// The mutually exclusive prompt flags.
pub struct PromptGroup {
    pub file: Option<PathBuf>,
    pub text: Option<String>,
    pub no_prompt: bool,
}

/// The prompt the flags give: none asked for first, then a text, then a file.
pub open spec fn group_prompt(g: PromptGroup) -> Option<Prompt> {
    if g.no_prompt {
        Some(Prompt::NoPrompt)
    } else {
        match g.text {
            Some(t) => Some(Prompt::Text(t)),
            None => match g.file {
                Some(f) => Some(Prompt::File(f)),
                None => None,
            },
        }
    }
}

impl Resolve<Option<Prompt>> for PromptGroup {
    open spec fn resolves_to(self, r: Result<Option<Prompt>, InteractionError>) -> bool {
        r == Ok::<Option<Prompt>, InteractionError>(group_prompt(self))
    }

    fn resolve(self) -> (r: Result<Option<Prompt>, InteractionError>) {
        if self.no_prompt {
            return Ok(Some(Prompt::NoPrompt));
        }
        if let Some(t) = self.text {
            return Ok(Some(Prompt::Text(t)));
        }
        if let Some(f) = self.file {
            return Ok(Some(Prompt::File(f)));
        }
        Ok(None)
    }
}

/// The command line.
pub struct Cli {
    pub cmd: Cmd,
}

pub enum Cmd {
    Restart(RestartArgs),
}

} // verus!
