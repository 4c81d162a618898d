use vstd::prelude::*;

verus! {

/// The recoverable failures that declaration, resolution and interning
/// operations report to the caller.  None of these aborts the process.
#[derive(Clone, Copy, Debug, PartialEq, Eq, Structural)]
pub enum ContextError {
    /// A pool would exceed `TABLE_MAX_SIZE` entries.
    TableOverflow,
    /// A name handed to the identifier pool is not a well-formed
    /// identifier.
    InvalidIdentifier,
    /// A module name was used that no import has bound.
    UnboundAlias,
    /// A field or variant name was not found on its owning type.
    UnboundMember,
    /// A definition (type, function, constant) was not found.
    UnboundDefinition,
    /// A referenced module was never supplied as a dependency.
    DependencyMissing,
    /// A foreign handle index inside a dependency resolves to nothing.
    DependencyMalformed,
    /// A dependency for the same module identity was supplied twice.
    DuplicateDependency,
}

impl ContextError {
    /// A short description of the failure, for diagnostics.
    pub fn describe(&self) -> &'static str {
        match self {
            ContextError::TableOverflow => "max table size reached",
            ContextError::InvalidIdentifier => "invalid identifier",
            ContextError::UnboundAlias => "missing import for module",
            ContextError::UnboundMember => "unbound field or variant",
            ContextError::UnboundDefinition => "unbound definition",
            ContextError::DependencyMissing => "dependency not provided",
            ContextError::DependencyMalformed => "malformed dependency",
            ContextError::DuplicateDependency => "duplicate dependency module",
        }
    }
}

} // verus!
