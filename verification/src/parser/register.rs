//! Register names.

use crate::instruction::{register_named, Register};
use vstd::prelude::*;

verus! {

/// The register that `name` names.
pub fn parse_register(name: &str) -> (r: Option<Register>)
    ensures
        r == register_named(name@),
{
    Register::parse(name)
}

} // verus!
