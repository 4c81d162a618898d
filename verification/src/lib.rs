use vstd::prelude::*;

pub mod ast;
pub mod bridge;
pub mod context;
pub mod dependency;
pub mod errors;
pub mod pool;
pub mod source_map;
pub mod table;

verus! {

/// Upper bound on the number of entries a single pool may hold.
/// Indices into a pool are `u16` values, so a full pool uses every
/// index in `[0, 65535]`.
pub const TABLE_MAX_SIZE: usize = 65536;

} // verus!
