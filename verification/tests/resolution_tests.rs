use move_ir_to_bytecode::ast::{
    token_eq, DataTypeHandle, FunctionHandle, ModuleHandle, ModuleIdent, QualifiedDataTypeIdent,
    Signature, SignatureToken,
};
use move_ir_to_bytecode::context::Context;
use move_ir_to_bytecode::dependency::{
    CompiledDependency, CompiledDependencyView, CompiledModule, StoredCompiledDependency,
};
use move_ir_to_bytecode::errors::ContextError;
use move_ir_to_bytecode::source_map::Loc;
use move_ir_to_bytecode::table::Table;

const COPY_DROP: u8 = 0b0011;

fn dep_address() -> Vec<u8> {
    let mut a = vec![0u8; 32];
    a[31] = 7;
    a
}

fn dep_ident() -> ModuleIdent {
    ModuleIdent { address: dep_address(), name: "D".to_owned() }
}

/// A compiled dependency exporting type `S` with abilities {copy, drop}
/// and a function `f: (Vector<Reference<D::S>>) -> ()`.
fn dep_module() -> CompiledModule {
    CompiledModule {
        self_module_handle_idx: 0,
        module_handles: vec![ModuleHandle { address: 0, name: 0 }],
        data_type_handles: vec![DataTypeHandle {
            module: 0,
            name: 1,
            abilities: COPY_DROP,
            type_parameters: vec![],
        }],
        function_handles: vec![FunctionHandle {
            module: 0,
            name: 2,
            parameters: 1,
            return_: 0,
            type_parameters: vec![],
        }],
        identifiers: vec!["D".to_owned(), "S".to_owned(), "f".to_owned()],
        address_identifiers: vec![dep_address()],
        signatures: vec![
            Signature(vec![]),
            Signature(vec![SignatureToken::Vector(Box::new(SignatureToken::Reference(
                Box::new(SignatureToken::DataType(0)),
            )))]),
        ],
    }
}

fn context_with_dep() -> Context {
    let module = dep_module();
    let mut deps: Table<ModuleIdent, CompiledDependency> = Table::empty();
    deps.insert(dep_ident(), CompiledDependency::borrowed(&module).unwrap());
    Context::new(Loc { start: 0, end: 0 }, deps, None).unwrap()
}

fn qualified(module: &str, name: &str) -> QualifiedDataTypeIdent {
    QualifiedDataTypeIdent { module: module.to_owned(), name: name.to_owned() }
}

#[test]
fn import_round_trip_keeps_index_and_shape() {
    let mut ctx = context_with_dep();
    ctx.declare_import(dep_ident(), "X".to_owned()).unwrap();
    let first = ctx.data_type_handle_index(qualified("X", "S")).unwrap();
    let second = ctx.data_type_handle_index(qualified("X", "S")).unwrap();
    assert_eq!(first, second);
    let (pools, _, _) = ctx.materialize_pools();
    assert_eq!(pools.data_type_handles.len(), 1);
    let handle = &pools.data_type_handles[first as usize];
    assert_eq!(handle.abilities, COPY_DROP);
    assert!(handle.type_parameters.is_empty());
    assert_eq!(pools.identifiers[handle.name as usize], "S");
}

#[test]
fn foreign_signature_reindexes_recursively() {
    let mut ctx = context_with_dep();
    ctx.declare_import(dep_ident(), "X".to_owned()).unwrap();
    let (handle, idx) = ctx.function_handle("X".to_owned(), "f".to_owned()).unwrap();
    assert_eq!(idx, 0);
    let local_s = ctx.data_type_handle_index(qualified("X", "S")).unwrap();
    let (pools, _, _) = ctx.materialize_pools();
    let params = &pools.signatures[handle.parameters as usize].0;
    assert_eq!(params.len(), 1);
    // structurally isomorphic to Vector<Reference<S>>, with the named-type
    // leaf replaced by the local index for S
    let expected = SignatureToken::Vector(Box::new(SignatureToken::Reference(Box::new(
        SignatureToken::DataType(local_s),
    ))));
    assert!(token_eq(&params[0], &expected));
    let returns = &pools.signatures[handle.return_ as usize].0;
    assert!(returns.is_empty());
}

#[test]
fn missing_dependency_is_reported_and_mutates_no_pool() {
    let mut ctx = Context::new(Loc { start: 0, end: 0 }, Table::empty(), None).unwrap();
    ctx.declare_import(dep_ident(), "X".to_owned()).unwrap();
    let err = ctx.data_type_handle_index(qualified("X", "S")).unwrap_err();
    assert_eq!(err, ContextError::DependencyMissing);
    let (pools, _, _) = ctx.materialize_pools();
    assert_eq!(pools.data_type_handles.len(), 0);
    assert_eq!(pools.signatures.len(), 0);
}

#[test]
fn unbound_alias_is_reported() {
    let mut ctx = context_with_dep();
    let err = ctx.data_type_handle_index(qualified("Y", "S")).unwrap_err();
    assert_eq!(err, ContextError::UnboundAlias);
}

#[test]
fn unexported_type_is_reported() {
    let mut ctx = context_with_dep();
    ctx.declare_import(dep_ident(), "X".to_owned()).unwrap();
    let err = ctx.data_type_handle_index(qualified("X", "T")).unwrap_err();
    assert_eq!(err, ContextError::UnboundDefinition);
}

#[test]
fn unbound_function_is_reported() {
    let mut ctx = context_with_dep();
    ctx.declare_import(dep_ident(), "X".to_owned()).unwrap();
    let err = ctx.function_handle("X".to_owned(), "g".to_owned()).unwrap_err();
    assert_eq!(err, ContextError::UnboundDefinition);
}

#[test]
fn duplicate_dependency_is_refused() {
    let mut ctx = context_with_dep();
    let module = dep_module();
    let err = ctx.add_compiled_dependency(&module).unwrap_err();
    assert_eq!(err, ContextError::DuplicateDependency);
}

#[test]
fn dependency_view_lookups_match_the_module() {
    let module = dep_module();
    let view = CompiledDependencyView::new(&module).unwrap();
    let (ident, name) = view.source_struct_info(0).unwrap();
    assert_eq!(ident.name, "D");
    assert_eq!(ident.address, dep_address());
    assert_eq!(name, "S");
    assert!(view.source_struct_info(5).is_none());
    let handle = view.data_type_handle(&"D".to_owned(), &"S".to_owned()).unwrap();
    assert_eq!(handle.abilities, COPY_DROP);
    assert!(view.data_type_handle(&"D".to_owned(), &"T".to_owned()).is_none());
    let sig = view.function_signature(&"f".to_owned()).unwrap();
    assert_eq!(sig.parameters.len(), 1);
    assert!(sig.return_.is_empty());
    assert!(view.function_signature(&"g".to_owned()).is_none());
}

#[test]
fn stored_dependency_resolves_like_a_borrowed_one() {
    let stored = StoredCompiledDependency::create(dep_module()).unwrap();
    let view = stored.borrow_view();
    assert!(view.data_type_handle(&"D".to_owned(), &"S".to_owned()).is_some());
    let mut deps: Table<ModuleIdent, CompiledDependency> = Table::empty();
    deps.insert(dep_ident(), CompiledDependency::stored(dep_module()).unwrap());
    let mut ctx = Context::new(Loc { start: 0, end: 0 }, deps, None).unwrap();
    ctx.declare_import(dep_ident(), "X".to_owned()).unwrap();
    let idx = ctx.data_type_handle_index(qualified("X", "S")).unwrap();
    assert_eq!(idx, 0);
}

#[test]
fn corrupt_foreign_handle_index_is_reported_as_malformed() {
    // a dependency whose exported signature points at a type handle
    // that does not exist in its own pool
    let mut module = dep_module();
    module.signatures[1] = Signature(vec![SignatureToken::DataType(7)]);
    let mut deps: Table<ModuleIdent, CompiledDependency> = Table::empty();
    deps.insert(dep_ident(), CompiledDependency::borrowed(&module).unwrap());
    let mut ctx = Context::new(Loc { start: 0, end: 0 }, deps, None).unwrap();
    ctx.declare_import(dep_ident(), "X".to_owned()).unwrap();
    let err = ctx.function_handle("X".to_owned(), "f".to_owned()).unwrap_err();
    assert_eq!(err, ContextError::DependencyMalformed);
}

#[test]
fn add_compiled_dependency_registers_the_module() {
    let mut ctx = Context::new(Loc { start: 0, end: 0 }, Table::empty(), None).unwrap();
    let module = dep_module();
    ctx.add_compiled_dependency(&module).unwrap();
    ctx.declare_import(dep_ident(), "X".to_owned()).unwrap();
    let idx = ctx.data_type_handle_index(qualified("X", "S")).unwrap();
    assert_eq!(idx, 0);
}
