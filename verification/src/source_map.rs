use vstd::prelude::*;
use crate::ast::ModuleIdent;

verus! {

/// A source location: a byte span in the compilation unit's source text.
#[derive(Clone, Copy, Debug, PartialEq, Eq, Structural)]
pub struct Loc {
    pub start: u32,
    pub end: u32,
}

/// The source map accumulated for one compilation unit: the unit's
/// declaration location and, for a module, its identity.  Downstream
/// diagnostics tools consume it alongside the materialized pools.
#[derive(Debug)]
pub struct SourceMap {
    pub definition_location: Loc,
    pub module_name: Option<ModuleIdent>,
}

impl SourceMap {
    pub fn new(decl_location: Loc, module_name: Option<ModuleIdent>) -> (r: Self)
        ensures
            r.definition_location == decl_location,
            r.module_name == module_name,
    {
        SourceMap { definition_location: decl_location, module_name }
    }
}

} // verus!
