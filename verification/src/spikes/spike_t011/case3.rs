//! An action whose base image is kept, with a type that is not an option.
use vstd::prelude::*;
use super::Base;

verus! {

pub enum Action {
    Start { base: Base },
}

} // verus!
