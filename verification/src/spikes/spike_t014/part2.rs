//! A command whose action is chosen from a menu of subcommands when none is
//! given, and whose connection falls back to a default.
use vstd::prelude::*;
use crate::runtime::InteractionError;

verus! {

/// The connection to the Docker daemon.
#[derive(Clone, Debug)]
pub struct Docker;

impl std::str::FromStr for Docker {
    type Err = String;

    /// Any text names the default connection.
    fn from_str(s: &str) -> (r: Result<Self, Self::Err>)
        ensures
            r == Ok::<Docker, String>(Docker),
    {
        Ok(Docker)
    }
}

/// What the program does.
pub enum Action {
    Start,
}

#[derive(Clone, Debug)]
pub struct StartArgs {
    pub base: String,
}

/// The subcommands.
#[derive(Clone, Debug)]
pub enum ActionArgs {
    Start(StartArgs),
}

/// The action for the subcommand.
pub fn fill(args: ActionArgs, ctx: &Docker) -> (r: Result<Action, InteractionError>)
    ensures
        r matches Ok(Action::Start),
{
    Ok(Action::Start)
}

/// The connection to use: the one given, or the default one.
pub fn endpoint(given: Option<Docker>) -> (r: Docker)
    ensures
        r == Docker,
{
    Docker
}

/// The command line.
pub struct Cli {
    pub connect: Option<Docker>,
    pub action: Option<ActionArgs>,
}

/// The command: the connection and the action.
pub struct Command {
    pub connect: Docker,
    pub action: Action,
}

/// An entry of the menu of subcommands: the subcommand's name and the label shown.
pub struct ActionChoice {
    pub name: String,
    pub label: String,
}

/// The menu entry for a subcommand: labelled with its description, or with its name when
/// it has none.
pub fn action_choice(name: String, about: Option<String>) -> (r: ActionChoice)
    ensures
        r.name@ == name@,
        r.label@ == match about {
            Some(a) => a@,
            None => name@,
        },
{
    let label = match about {
        Some(a) => a,
        None => name.clone(),
    };
    ActionChoice { name, label }
}

impl ActionChoice {
    /// How the entry is shown: its label.
    pub fn label(&self) -> (r: String)
        ensures
            r@ == self.label@,
    {
        self.label.clone()
    }
}

} // verus!
