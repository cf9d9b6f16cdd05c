//! An action whose base image is kept, with its type named through an alias of `Option<Base>`.
use vstd::prelude::*;
use super::Base;

verus! {

pub enum Action {
    Start { base: Option<Base> },
}

} // verus!
