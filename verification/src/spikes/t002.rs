//! A restart command written out by hand: arguments read by clap, resolved
//! into the action with a context.
use vstd::prelude::*;
use vstd::string::*;
use crate::syntax::duplicate_opt;
use crate::text::owned;

verus! {

/// The context that resolving may consult.
pub struct Context;

/// What the program does.
pub enum Action {
    Restart(RestartAction),
    Start(StartAction),
}

pub struct RestartAction {
    pub base: Option<String>,
    pub container: String,
    pub prompt: Prompt,
}

pub struct StartAction {
    pub container: String,
}

/// The prompt given to the container.
#[derive(PartialEq, Eq)]
pub enum Prompt {
    File(String),
    Text(String),
    NoPrompt,
}

/// The arguments that name the container.
pub struct TargetArgs {
    pub container_name: Option<String>,
}

impl TargetArgs {
    /// The container named, or `default`.
    pub fn resolve(&self, ctx: &Context) -> (r: String)
        ensures
            r@ == match self.container_name {
                Some(n) => n@,
                None => "default"@,
            },
    {
        match &self.container_name {
            Some(n) => n.clone(),
            None => owned("default"),
        }
    }
}

/// The mutually exclusive prompt flags.
pub struct PromptArgs {
    pub file: Option<String>,
    pub text: Option<String>,
    pub no_prompt: bool,
}

/// The prompt the flags give: a file first, then a text, otherwise none.
pub open spec fn prompt_of(file: Option<String>, text: Option<String>) -> Prompt {
    match file {
        Some(f) => Prompt::File(f),
        None => match text {
            Some(t) => Prompt::Text(t),
            None => Prompt::NoPrompt,
        },
    }
}

impl PromptArgs {
    /// The prompt the flags give: a file first, then a text, otherwise none.
    pub fn resolve(&self) -> (r: Prompt)
        ensures
            r == prompt_of(self.file, self.text),
    {
        match &self.file {
            Some(f) => Prompt::File(f.clone()),
            None => match &self.text {
                Some(t) => Prompt::Text(t.clone()),
                None => Prompt::NoPrompt,
            },
        }
    }
}

/// The arguments of the restart command.
pub struct RestartCommandArgs {
    pub base: Option<String>,
    pub no_save: bool,
    pub connect: bool,
    pub target: TargetArgs,
    pub prompt_args: PromptArgs,
}

impl RestartCommandArgs {
    /// The restart action: the base as given, the container from the target arguments,
    /// the prompt from the prompt flags; `no_save` and `connect` are not part of it.
    pub fn resolve(&self, ctx: &Context) -> (r: RestartAction)
        ensures
            r.base == self.base,
            r.container@ == match self.target.container_name {
                Some(n) => n@,
                None => "default"@,
            },
            r.prompt == prompt_of(self.prompt_args.file, self.prompt_args.text),
    {
        RestartAction {
            base: duplicate_opt(&self.base),
            container: self.target.resolve(ctx),
            prompt: self.prompt_args.resolve(),
        }
    }
}

} // verus!
