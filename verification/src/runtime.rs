//! What the generated code calls at run time: resolving fields, and turning
//! the results of parsing into the library's errors.
use vstd::prelude::*;
use vstd::string::*;
use crate::text::owned;

verus! {

/// Why asking the user, or resolving a value, failed.
#[derive(Debug, PartialEq, Eq)]
pub enum InteractionError {
    /// The input device is not a terminal.
    NotTty,
    /// The question could not be asked as configured; the message says why.
    InvalidConfiguration(String),
    /// Reading or writing the terminal failed, with the message of the failure.
    Io(String),
    /// The user canceled the question.
    OperationCanceled,
    /// The user interrupted the program.
    OperationInterrupted,
    /// An error of the program's own, with its message.
    Custom(String),
}

/// A value read from the command line that becomes a `Target`, possibly by asking the user.
pub trait Resolve<Target>: Sized {
    /// Whether resolving `self` may give `r`.
    spec fn resolves_to(self, r: Result<Target, InteractionError>) -> bool;

    fn resolve(self) -> (r: Result<Target, InteractionError>)
        ensures
            self.resolves_to(r),
    ;
}

/// A value read from the command line that becomes a `Target` with the help of a context.
pub trait ResolveWithCtx<Ctx, Target>: Sized {
    /// Whether resolving `self` with `ctx` may give `r`.
    spec fn resolves_with_to(self, ctx: Ctx, r: Result<Target, InteractionError>) -> bool;

    fn resolve(self, ctx: &Ctx) -> (r: Result<Target, InteractionError>)
        ensures
            self.resolves_with_to(*ctx, r),
    ;
}

/// Resolves one field of an arguments structure.
pub fn resolve_field<Target, V: Resolve<Target>>(value: V) -> (r: Result<Target, InteractionError>)
    ensures
        value.resolves_to(r),
{
    value.resolve()
}

/// The result of parsing the command line again, with a parser error turned into a
/// `Custom` error that carries its message.
pub fn clap_result<T>(result: Result<T, String>) -> (r: Result<T, InteractionError>)
    ensures
        match result {
            Ok(v) => r == Ok::<T, InteractionError>(v),
            Err(m) => r == Err::<T, InteractionError>(InteractionError::Custom(m)),
        },
{
    match result {
        Ok(v) => Ok(v),
        Err(m) => Err(InteractionError::Custom(m)),
    }
}

/// The message of the error given when no subcommand was chosen.
pub open spec fn no_subcommand_message() -> Seq<char> {
    "подкоманда не выбрана"@
}

/// The subcommand that was chosen, or an `InvalidConfiguration` error when there is none.
pub fn required_subcommand<T>(value: Option<T>) -> (r: Result<T, InteractionError>)
    ensures
        match value {
            Some(v) => r == Ok::<T, InteractionError>(v),
            None => r matches Err(InteractionError::InvalidConfiguration(m)) && m@ == no_subcommand_message(),
        },
{
    match value {
        Some(v) => Ok(v),
        None => Err(InteractionError::InvalidConfiguration(owned("подкоманда не выбрана"))),
    }
}

} // verus!
