//! Kinds of blocs nations form.

use vstd::prelude::*;

verus! {

/// Kinds of blocs nations form.
#[derive(Debug, Clone, Copy, PartialEq, Eq, Hash, Structural)]
pub enum BlocKind {
    ResearchPact,
    Sanction,
    DefenseTreaty,
}

} // verus!
