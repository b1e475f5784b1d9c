use vstd::prelude::*;

use crate::region::Located;

verus! {

/// An issue found during canonicalization. Problems are collected and
/// reported once the module is done; none of them stops the pass.
#[derive(Clone, Debug, PartialEq, Eq)]
pub enum Problem {
    /// A name was defined a second time in the same scope.
    DuplicateDefinition(Located<Box<str>>),
    /// A name was used that nothing in scope defines.
    UnresolvedName(Located<Box<str>>),
    /// A variant name was used that is neither declared nor imported.
    UnresolvedVariant(Located<Box<str>>),
    /// A new binding hides one of the same name from an outer scope.
    Shadowing(Located<Box<str>>),
    /// An import that nothing in the module uses.
    UnusedImport(Located<Box<str>>),
}

} // verus!
