//! Prompt flags resolved into a prompt that is required, or into an optional one.
use vstd::prelude::*;
use std::path::PathBuf;
use crate::runtime::{InteractionError, Resolve};
use crate::text::owned;

verus! {

/// The prompt given to the container.
pub enum Prompt {
    File(PathBuf),
    Text(String),
    NoPrompt,
}

/// The mutually exclusive prompt flags.
pub struct PromptArgs {
    pub file: Option<PathBuf>,
    pub text: Option<String>,
    pub no_prompt: bool,
}

/// The prompt the flags give, if one of them is given: a file first, then a text, then
/// no prompt.
pub open spec fn given_prompt(a: PromptArgs) -> Option<Prompt> {
    match a.file {
        Some(f) => Some(Prompt::File(f)),
        None => match a.text {
            Some(t) => Some(Prompt::Text(t)),
            None => if a.no_prompt {
                Some(Prompt::NoPrompt)
            } else {
                None
            },
        },
    }
}

/// The message given when none of the prompt flags is.
pub open spec fn missing_prompt_message() -> Seq<char> {
    "Нужно указать --file, --text или --no-prompt"@
}

impl Resolve<Prompt> for PromptArgs {
    open spec fn resolves_to(self, r: Result<Prompt, InteractionError>) -> bool {
        match given_prompt(self) {
            Some(p) => r == Ok::<Prompt, InteractionError>(p),
            None => r matches Err(InteractionError::Custom(m)) && m@ == missing_prompt_message(),
        }
    }

    fn resolve(self) -> (r: Result<Prompt, InteractionError>) {
        if let Some(file) = self.file {
            return Ok(Prompt::File(file));
        }
        if let Some(text) = self.text {
            return Ok(Prompt::Text(text));
        }
        if self.no_prompt {
            return Ok(Prompt::NoPrompt);
        }
        Err(InteractionError::Custom(owned("Нужно указать --file, --text или --no-prompt")))
    }
}

impl Resolve<Option<Prompt>> for PromptArgs {
    open spec fn resolves_to(self, r: Result<Option<Prompt>, InteractionError>) -> bool {
        r == Ok::<Option<Prompt>, InteractionError>(given_prompt(self))
    }

    fn resolve(self) -> (r: Result<Option<Prompt>, InteractionError>) {
        if let Some(file) = self.file {
            return Ok(Some(Prompt::File(file)));
        }
        if let Some(text) = self.text {
            return Ok(Some(Prompt::Text(text)));
        }
        if self.no_prompt {
            return Ok(Some(Prompt::NoPrompt));
        }
        Ok(None)
    }
}

/// When one of the flags is given, the optional prompt holds exactly the prompt that is
/// required otherwise; when none is, the required one is refused and the optional one is
/// absent.
pub proof fn optional_prompt_agrees_with_required(a: PromptArgs, p: Prompt)
    ensures
        <PromptArgs as Resolve<Prompt>>::resolves_to(a, Ok(p))
            <==> <PromptArgs as Resolve<Option<Prompt>>>::resolves_to(a, Ok(Some(p))),
        <PromptArgs as Resolve<Option<Prompt>>>::resolves_to(a, Ok(None)) ==> !<PromptArgs as Resolve<Prompt>>::resolves_to(a, Ok(p)),
{
}

} // verus!
