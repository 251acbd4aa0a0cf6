//! Passes over the parsed tree.

use vstd::prelude::*;
use crate::parser::ast::BoxedASTNode;

pub mod scope_pass;

verus! {

/// A pass that works on the metadata of a parsed tree, in place.
pub trait Pass {
    /// Why the pass gave up.
    type Error;

    /// What the pass hands back when it is done.
    type AdditionalData;

    /// Runs the pass over the top-level nodes in order.
    fn process(&mut self, ast: &mut Vec<BoxedASTNode>) -> Result<Self::AdditionalData, Self::Error>;
}

} // verus!
