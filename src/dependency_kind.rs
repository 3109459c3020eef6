//! The kinds of dependency a published package may declare.
use vstd::prelude::*;

verus! {

/// The kind of a dependency; `Normal` unless stated.
#[derive(Debug, Clone, Copy, PartialEq, Eq, Structural)]
pub enum DependencyKind {
    Normal,
    Dev,
    Build,
}

impl Default for DependencyKind {
    fn default() -> (r: DependencyKind)
        ensures
            r == DependencyKind::Normal,
    {
        DependencyKind::Normal
    }
}

} // verus!
