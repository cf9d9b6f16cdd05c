//! Prompt flags that must be given or may be left out, and a command whose
//! action is chosen from a menu when it is not given.
use vstd::prelude::*;

pub mod part1;
pub mod part2;
