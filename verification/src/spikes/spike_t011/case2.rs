//! An action whose base image is kept, with its type written as `std::option::Option<Base>`.
use vstd::prelude::*;
use super::Base;

verus! {

pub enum Action {
    Start { base: Option<Base> },
}

} // verus!
