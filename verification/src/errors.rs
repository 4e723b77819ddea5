//! The error taxonomy of the library.

use vstd::prelude::*;

verus! {

/// A run cannot proceed: the configuration is structurally unusable
/// (genome alphabet smaller than the target, or a population too small to
/// yield a breeding pool). No retry is meaningful.
#[derive(Debug, Clone, Copy, PartialEq, Eq, Structural)]
pub enum EvolveError {
    InvalidConfiguration,
}

} // verus!
