//! Actions whose fields ask for a base image or keep it, each written with a
//! different spelling of the field's type.
use vstd::prelude::*;

pub mod case1;
pub mod case2;
pub mod case3;
pub mod case4;

verus! {

/// The context: the Docker daemon.
pub struct Docker;

/// The base image of a container.
#[derive(Clone, Copy, PartialEq, Eq, Debug)]
pub enum Base {
    Debian,
    Alpine,
    Arch,
}

impl Default for Base {
    fn default() -> (r: Self)
        ensures
            r == Base::Debian,
    {
        Base::Debian
    }
}

} // verus!
