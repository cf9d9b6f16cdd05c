//! Start and restart commands whose arguments resolve themselves: value
//! enums asked for when missing, prompt flags and save flags.
use vstd::prelude::*;
use std::path::PathBuf;
use crate::naming::{heck_kebab_case, kebab_case};
use crate::runtime::InteractionError;

verus! {

/// A value read from the command line that becomes a `Target`.
pub trait Resolve<Target>: Sized {
    /// What resolving `self` gives.
    spec fn resolution(self) -> Result<Target, InteractionError>;

    fn resolve(self) -> (r: Result<Target, InteractionError>)
        ensures
            r == self.resolution(),
    ;
}

/// The context: the Docker daemon.
pub struct Docker;

/// The base image of a container.
#[derive(Clone, Copy, PartialEq, Eq, Debug)]
pub enum Base {
    Debian,
    Alpine,
    Arch,
}

impl Default for Base {
    fn default() -> (r: Self)
        ensures
            r == Base::Debian,
    {
        Base::Debian
    }
}

impl Base {
    /// The variant's identifier.
    pub open spec fn ident(self) -> Seq<char> {
        match self {
            Base::Debian => "Debian"@,
            Base::Alpine => "Alpine"@,
            Base::Arch => "Arch"@,
        }
    }

    /// How the variant is shown: its name on the command line.
    pub fn label(&self) -> (r: String)
        ensures
            r@ == heck_kebab_case(self.ident()),
    {
        match self {
            Base::Debian => kebab_case("Debian"),
            Base::Alpine => kebab_case("Alpine"),
            Base::Arch => kebab_case("Arch"),
        }
    }
}

/// The agent run in a container.
#[derive(Clone, Copy, PartialEq, Eq, Debug)]
pub enum Agent {
    ClaudeCode,
    Codex,
    Antigravity,
    Opencode,
}

impl Agent {
    /// The variant's identifier.
    pub open spec fn ident(self) -> Seq<char> {
        match self {
            Agent::ClaudeCode => "ClaudeCode"@,
            Agent::Codex => "Codex"@,
            Agent::Antigravity => "Antigravity"@,
            Agent::Opencode => "Opencode"@,
        }
    }

    /// How the variant is shown: its name on the command line.
    pub fn label(&self) -> (r: String)
        ensures
            r@ == heck_kebab_case(self.ident()),
    {
        match self {
            Agent::ClaudeCode => kebab_case("ClaudeCode"),
            Agent::Codex => kebab_case("Codex"),
            Agent::Antigravity => kebab_case("Antigravity"),
            Agent::Opencode => kebab_case("Opencode"),
        }
    }
}

/// The prompt given to the container.
pub enum Prompt {
    File(PathBuf),
    Text(String),
    NoPrompt,
}

impl Default for Prompt {
    fn default() -> (r: Self)
        ensures
            r is NoPrompt,
    {
        Prompt::NoPrompt
    }
}

/// The mutually exclusive prompt flags.
pub struct PromptArgs {
    pub file: Option<PathBuf>,
    pub text: Option<String>,
    pub no_prompt: bool,
}

/// The prompt the flags give: a file first, then a text, otherwise none.
pub open spec fn flags_prompt(a: PromptArgs) -> Prompt {
    match a.file {
        Some(p) => Prompt::File(p),
        None => match a.text {
            Some(t) => Prompt::Text(t),
            None => Prompt::NoPrompt,
        },
    }
}

impl Resolve<Prompt> for PromptArgs {
    open spec fn resolution(self) -> Result<Prompt, InteractionError> {
        Ok(flags_prompt(self))
    }

    fn resolve(self) -> (r: Result<Prompt, InteractionError>) {
        if let Some(path) = self.file {
            Ok(Prompt::File(path))
        } else if let Some(t) = self.text {
            Ok(Prompt::Text(t))
        } else if self.no_prompt {
            Ok(Prompt::NoPrompt)
        } else {
            Ok(Prompt::NoPrompt)
        }
    }
}

/// The mutually exclusive save flags.
pub struct SaveArgs {
    pub save: bool,
    pub no_save: bool,
}

impl Resolve<bool> for SaveArgs {
    open spec fn resolution(self) -> Result<bool, InteractionError> {
        Ok(self.save)
    }

    fn resolve(self) -> (r: Result<bool, InteractionError>) {
        Ok(self.save)
    }
}

/// What the program does.
#[allow(inconsistent_fields)]
pub enum Action {
    Start { base: Base, agent: Agent, prompt: Prompt },
    Restart { base: Option<Base>, save: bool },
}

/// The subcommands.
pub enum ActionArgs {
    Start(StartArgs),
    Restart(RestartArgs),
}

pub struct StartArgs {
    pub base: Option<Base>,
    pub agent: Option<Agent>,
    pub prompt: PromptArgs,
}

pub struct RestartArgs {
    pub base: Option<Base>,
    pub save: SaveArgs,
}

/// The command line.
pub struct Cli {
    pub cmd: ActionArgs,
}

/// Where filling an action stands: the answers known so far.
pub enum FillState {
    Start { base: Option<Base>, agent: Option<Agent>, prompt: PromptArgs },
    /// `asked` holds once the user was asked for the base, whether or not one was chosen.
    Restart { base: Option<Base>, asked: bool, save: SaveArgs },
}

/// A question that filling needs answered.
#[derive(PartialEq, Eq, Debug)]
pub enum FillQuestion {
    /// Which base image to start from.
    Base,
    /// Which agent to run.
    Agent,
    /// Which base image to recreate with, or to keep the current one.
    KeepBase,
}

/// What filling does next: ask a question, or give the action.
pub enum FillStep {
    Ask(FillState, FillQuestion),
    Done(Result<Action, InteractionError>),
}

/// Where filling starts for the subcommand: the values given on the command line.
pub fn fill_state(args: ActionArgs) -> (r: FillState)
    ensures
        match args {
            ActionArgs::Start(a) => r == FillState::Start { base: a.base, agent: a.agent, prompt: a.prompt },
            ActionArgs::Restart(a) => r == FillState::Restart { base: a.base, asked: false, save: a.save },
        },
{
    match args {
        ActionArgs::Start(a) => FillState::Start { base: a.base, agent: a.agent, prompt: a.prompt },
        ActionArgs::Restart(a) => FillState::Restart { base: a.base, asked: false, save: a.save },
    }
}

/// The next step of filling: a missing base is asked for first, then a missing agent;
/// restarting asks once for a base that may be kept; otherwise the action, with the
/// prompt and the save flag resolved from their flags.
pub fn fill_step(state: FillState) -> (r: FillStep)
    ensures
        match state {
            FillState::Start { base: None, .. } => r matches FillStep::Ask(s, FillQuestion::Base) && s == state,
            FillState::Start { base: Some(_), agent: None, .. } => r matches FillStep::Ask(s, FillQuestion::Agent) && s == state,
            FillState::Start { base: Some(b), agent: Some(a), prompt } => r matches FillStep::Done(Ok(Action::Start { base, agent, prompt: p }))
                && base == b && agent == a && p == flags_prompt(prompt),
            FillState::Restart { base: None, asked: false, .. } => r matches FillStep::Ask(s, FillQuestion::KeepBase) && s == state,
            FillState::Restart { base, save, .. } => r matches FillStep::Done(Ok(Action::Restart { base: b, save: s })) && b == base && s == save.save,
        },
{
    match state {
        FillState::Start { base: None, agent, prompt } => FillStep::Ask(FillState::Start { base: None, agent, prompt }, FillQuestion::Base),
        FillState::Start { base: Some(b), agent: None, prompt } => FillStep::Ask(
            FillState::Start { base: Some(b), agent: None, prompt },
            FillQuestion::Agent,
        ),
        FillState::Start { base: Some(base), agent: Some(agent), prompt } => {
            let prompt = match prompt.resolve() {
                Ok(p) => p,
                Err(e) => {
                    return FillStep::Done(Err(e));
                },
            };
            FillStep::Done(Ok(Action::Start { base, agent, prompt }))
        },
        FillState::Restart { base: None, asked: false, save } => FillStep::Ask(
            FillState::Restart { base: None, asked: false, save },
            FillQuestion::KeepBase,
        ),
        FillState::Restart { base, asked, save } => {
            let save = match save.resolve() {
                Ok(s) => s,
                Err(e) => {
                    return FillStep::Done(Err(e));
                },
            };
            FillStep::Done(Ok(Action::Restart { base, save }))
        },
    }
}

/// The user's answer to a question of filling.
pub enum FillAnswer {
    /// The base image chosen.
    Base(Base),
    /// The agent chosen.
    Agent(Agent),
    /// The base image chosen to recreate with, or none to keep the current one.
    KeptBase(Option<Base>),
}

/// The state once the user answered: a base or an agent fills the start action's missing
/// value, and a kept or chosen base marks the restart action as asked; an answer that does
/// not fit the action leaves the state as it is.
pub fn fill_answer(state: FillState, answer: FillAnswer) -> (r: FillState)
    ensures
        match (state, answer) {
            (FillState::Start { agent, prompt, .. }, FillAnswer::Base(b)) => r == FillState::Start { base: Some(b), agent, prompt },
            (FillState::Start { base, prompt, .. }, FillAnswer::Agent(a)) => r == FillState::Start { base, agent: Some(a), prompt },
            (FillState::Restart { save, .. }, FillAnswer::KeptBase(k)) => r == FillState::Restart { base: k, asked: true, save },
            _ => r == state,
        },
{
    match (state, answer) {
        (FillState::Start { base: _, agent, prompt }, FillAnswer::Base(b)) => FillState::Start { base: Some(b), agent, prompt },
        (FillState::Start { base, agent: _, prompt }, FillAnswer::Agent(a)) => FillState::Start { base, agent: Some(a), prompt },
        (FillState::Restart { base: _, asked: _, save }, FillAnswer::KeptBase(k)) => FillState::Restart { base: k, asked: true, save },
        (state, _) => state,
    }
}

/// Filling always ends: each answer fills one missing value, and a state without missing
/// values gives the action.
pub open spec fn questions_left(state: FillState) -> nat {
    match state {
        FillState::Start { base, agent, .. } => (if base is None { 1nat } else { 0nat }) + (if agent is None { 1nat } else { 0nat }),
        FillState::Restart { base, asked, .. } => if base is None && !asked { 1nat } else { 0nat },
    }
}

/// Answering the question asked fills the value it asks for, so fewer questions are left.
pub proof fn answering_leaves_fewer_questions(state: FillState, question: FillQuestion, base: Base, agent: Agent, kept: Option<Base>)
    requires
        match state {
            FillState::Start { base: None, .. } => question == FillQuestion::Base,
            FillState::Start { base: Some(_), agent: None, .. } => question == FillQuestion::Agent,
            FillState::Restart { base: None, asked: false, .. } => question == FillQuestion::KeepBase,
            _ => false,
        },
    ensures
        match state {
            FillState::Start { base: b, agent: a, prompt } => match question {
                FillQuestion::Base => questions_left(FillState::Start { base: Some(base), agent: a, prompt }) < questions_left(state),
                _ => questions_left(FillState::Start { base: b, agent: Some(agent), prompt }) < questions_left(state),
            },
            FillState::Restart { save, .. } => questions_left(FillState::Restart { base: kept, asked: true, save }) < questions_left(state),
        },
{
}

} // verus!
