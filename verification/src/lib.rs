//! Command hills: declarative command-line commands that are filled in
//! from parsed arguments, from a context, or by asking the user.
#![allow(unused_imports)]

pub mod text;
pub mod syntax;
pub mod error;
pub mod model;
pub mod parser;
pub mod generate;
pub mod item;
pub mod clean;
pub mod commands;
pub mod root;
pub mod runtime;
pub mod naming;
pub mod question;
pub mod group;
pub mod paths;
pub mod completion;
pub mod spikes;

pub use runtime::{Resolve, ResolveWithCtx};
