//! The revision string.

use vstd::prelude::*;

use crate::text::{chars_of, push_str, string_of};

verus! {

/// The revision this library was built from: `dev` outside a tagged build.
pub const REVISION: &'static str = "dev";

/// A one-line description including the revision, e.g.
/// `dotfiles manager (dev)`.
pub fn long_description() -> (r: String)
    ensures
        r@ == "dotfiles manager ("@ + REVISION@ + ")"@,
{
    let mut v = chars_of("dotfiles manager (");
    push_str(&mut v, REVISION);
    push_str(&mut v, ")");
    string_of(v.as_slice())
}

} // verus!
