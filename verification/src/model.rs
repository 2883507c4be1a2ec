//! The kinds of identification model that a registry of writers can serve.

use vstd::prelude::*;

verus! {

/// Marks a kind of identification model.
pub trait ModelKind {

}

/// The model with a closed set of labels, the codes of [`crate::lang::LANG`].
pub struct Old;

/// The model whose labels are language tags met as the run goes.
pub struct New;

impl ModelKind for Old {

}

impl ModelKind for New {

}

} // verus!
