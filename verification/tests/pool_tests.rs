use move_ir_to_bytecode::ast::{Constant, SignatureToken};
use move_ir_to_bytecode::context::Context;
use move_ir_to_bytecode::errors::ContextError;
use move_ir_to_bytecode::source_map::Loc;
use move_ir_to_bytecode::table::Table;

fn empty_context() -> Context {
    Context::new(Loc { start: 0, end: 0 }, Table::empty(), None).unwrap()
}

#[test]
fn interning_is_idempotent() {
    let mut ctx = empty_context();
    let first = ctx.identifier_index("counter".to_owned()).unwrap();
    let second = ctx.identifier_index("counter".to_owned()).unwrap();
    let third = ctx.identifier_index("counter".to_owned()).unwrap();
    assert_eq!(first, 0);
    assert_eq!(second, first);
    assert_eq!(third, first);
    let other = ctx.identifier_index("other".to_owned()).unwrap();
    assert_eq!(other, 1);
    let (pools, _, _) = ctx.materialize_pools();
    assert_eq!(pools.identifiers.len(), 2);
    assert_eq!(pools.identifiers[0], "counter");
    assert_eq!(pools.identifiers[1], "other");
}

#[test]
fn materialized_pool_is_dense_in_insertion_order() {
    let mut ctx = empty_context();
    let addrs: Vec<Vec<u8>> = vec![vec![1u8; 32], vec![2u8; 32], vec![3u8; 32]];
    let mut indices = Vec::new();
    for a in &addrs {
        indices.push(ctx.address_index(a.clone()).unwrap());
    }
    // a repeat insertion changes nothing
    assert_eq!(ctx.address_index(vec![2u8; 32]).unwrap(), indices[1]);
    let (pools, _, _) = ctx.materialize_pools();
    assert_eq!(pools.address_identifiers.len(), 3);
    for (i, a) in addrs.iter().enumerate() {
        assert_eq!(indices[i] as usize, i);
        assert_eq!(&pools.address_identifiers[i], a);
    }
}

#[test]
fn pool_overflow_at_table_max_size() {
    let mut ctx = empty_context();
    for owner in 0u16..256 {
        for field in 0u16..256 {
            ctx.field_handle_index(owner, field).unwrap();
        }
    }
    // 65536 distinct pairs interned; an equal pair still succeeds
    assert_eq!(ctx.field_handle_index(0, 0).unwrap(), 0);
    // the 65537th distinct value is rejected and the pool is unchanged
    let err = ctx.field_handle_index(256, 0).unwrap_err();
    assert_eq!(err, ContextError::TableOverflow);
    let (pools, _, _) = ctx.materialize_pools();
    assert_eq!(pools.field_handles.len(), 65536);
}

#[test]
fn label_offsets_are_sequential_and_remapped() {
    let mut ctx = empty_context();
    assert_eq!(ctx.label_index("entry".to_owned()).unwrap(), 0);
    assert_eq!(ctx.label_index("exit".to_owned()).unwrap(), 1);
    assert_eq!(ctx.label_index("entry".to_owned()).unwrap(), 0);
    let mut resolved: Table<String, u16> = Table::empty();
    resolved.insert("entry".to_owned(), 10);
    resolved.insert("exit".to_owned(), 42);
    let remap = ctx.build_index_remapping(resolved);
    assert_eq!(remap.get(&0).copied(), Some(10));
    assert_eq!(remap.get(&1).copied(), Some(42));
    // the label table is cleared for the next function
    assert_eq!(ctx.label_index("entry".to_owned()).unwrap(), 0);
}

#[test]
fn constants_are_pooled_and_named() {
    let mut ctx = empty_context();
    let c = Constant { type_: SignatureToken::U8, data: vec![7] };
    ctx.declare_constant("SEVEN".to_owned(), c).unwrap();
    let named = ctx.named_constant_index(&"SEVEN".to_owned()).unwrap();
    let direct = ctx
        .constant_index(Constant { type_: SignatureToken::U8, data: vec![7] })
        .unwrap();
    assert_eq!(named, direct);
    let missing = ctx.named_constant_index(&"EIGHT".to_owned()).unwrap_err();
    assert_eq!(missing, ContextError::UnboundDefinition);
}

#[test]
fn take_and_restore_dependencies_round_trip() {
    let mut ctx = empty_context();
    let deps = ctx.take_dependencies();
    assert_eq!(deps.len(), 0);
    ctx.restore_dependencies(deps);
}
