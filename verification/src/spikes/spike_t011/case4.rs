//! An action whose base image is asked for.
use vstd::prelude::*;
use super::Base;

verus! {

pub enum Action {
    Start { base: Option<Base> },
}

} // verus!
