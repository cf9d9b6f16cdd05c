//! Subcommands whose arguments `fill` turns into actions.
use vstd::prelude::*;
use crate::runtime::InteractionError;

verus! {

/// The context: the Docker daemon.
pub struct Docker;

#[derive(Clone)]
pub struct Base;

#[derive(Clone)]
pub struct Agent;

/// What the program does.
pub enum Action {
    Start { base: Base, agent: Agent },
    Stop { container: String },
}

/// The subcommands.
pub enum ActionArgs {
    Start(StartArgs),
    Stop(StopArgs),
}

pub struct StartArgs {
    pub base: Option<String>,
    pub agent: Option<String>,
}

pub struct StopArgs {
    pub container: Option<String>,
}

/// The action for the subcommand: starting takes the base and agent as they are, stopping
/// takes the container given, or the empty name.
pub fn fill(args: ActionArgs, ctx: &Docker) -> (r: Result<Action, InteractionError>)
    ensures
        match args {
            ActionArgs::Start(_) => r matches Ok(Action::Start { .. }),
            ActionArgs::Stop(s) => r matches Ok(Action::Stop { container }) && container@ == match s.container {
                Some(c) => c@,
                None => Seq::<char>::empty(),
            },
        },
{
    match args {
        ActionArgs::Start(_args) => Ok(Action::Start { base: Base, agent: Agent }),
        ActionArgs::Stop(args) => {
            let container = match args.container {
                Some(c) => c,
                None => String::new(),
            };
            Ok(Action::Stop { container })
        },
    }
}

/// The command line.
pub struct Cli {
    pub cmd: ActionArgs,
}

} // verus!
