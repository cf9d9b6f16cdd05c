//! Two commands filled with different contexts.
use vstd::prelude::*;

verus! {

/// The context of a command that needs none.
pub struct NoCtx;

/// The context of the restart command.
pub struct Ctx;

pub struct Start {
    pub name: String,
}

pub struct Restart {
    pub name: String,
}

/// The arguments of the start command.
pub struct StartArgs {
    pub name: String,
}

/// The arguments of the restart command.
pub struct RestartArgs {
    pub name: String,
}

/// The command line.
pub struct Cli {
    pub connect: Option<String>,
    pub cmd: Cmd,
}

pub enum Cmd {
    Start(StartArgs),
    Restart(RestartArgs),
}

} // verus!
