use move_ir_to_bytecode::ast::{
    DataTypeTyParameter, FunctionSignature, ModuleIdent, QualifiedDataTypeIdent, SignatureToken,
};
use move_ir_to_bytecode::context::Context;
use move_ir_to_bytecode::errors::ContextError;
use move_ir_to_bytecode::source_map::Loc;
use move_ir_to_bytecode::table::Table;

fn self_address() -> Vec<u8> {
    vec![0u8; 32]
}

fn self_ident() -> ModuleIdent {
    ModuleIdent { address: self_address(), name: "M".to_owned() }
}

fn context_for_module() -> Context {
    let mut ctx =
        Context::new(Loc { start: 0, end: 0 }, Table::empty(), Some(self_ident())).unwrap();
    ctx.declare_import(self_ident(), "M".to_owned()).unwrap();
    ctx
}

fn unit_signature() -> FunctionSignature {
    FunctionSignature { parameters: vec![], return_: vec![], type_parameters: vec![] }
}

#[test]
fn duplicate_function_declaration_reuses_the_index() {
    let mut ctx = context_for_module();
    ctx.declare_function("M".to_owned(), "f".to_owned(), unit_signature()).unwrap();
    ctx.declare_function("M".to_owned(), "f".to_owned(), unit_signature()).unwrap();
    let (_, idx) = ctx.function_handle("M".to_owned(), "f".to_owned()).unwrap();
    assert_eq!(idx, 0);
    let (pools, _, _) = ctx.materialize_pools();
    assert_eq!(pools.function_handles.len(), 1);
}

#[test]
fn function_declarations_get_sequential_indices() {
    let mut ctx = context_for_module();
    ctx.declare_function("M".to_owned(), "f".to_owned(), unit_signature()).unwrap();
    let sig_g = FunctionSignature {
        parameters: vec![SignatureToken::U64],
        return_: vec![SignatureToken::Bool],
        type_parameters: vec![],
    };
    ctx.declare_function("M".to_owned(), "g".to_owned(), sig_g).unwrap();
    let (_, f_idx) = ctx.function_handle("M".to_owned(), "f".to_owned()).unwrap();
    let (g_handle, g_idx) = ctx.function_handle("M".to_owned(), "g".to_owned()).unwrap();
    assert_eq!(f_idx, 0);
    assert_eq!(g_idx, 1);
    let (pools, _, _) = ctx.materialize_pools();
    assert_eq!(pools.function_handles.len(), 2);
    assert_eq!(pools.signatures[g_handle.parameters as usize].0.len(), 1);
    assert!(matches!(
        pools.signatures[g_handle.parameters as usize].0[0],
        SignatureToken::U64
    ));
}

#[test]
fn declare_function_without_import_is_unbound_alias() {
    let mut ctx = Context::new(Loc { start: 0, end: 0 }, Table::empty(), None).unwrap();
    let err = ctx
        .declare_function("M".to_owned(), "f".to_owned(), unit_signature())
        .unwrap_err();
    assert_eq!(err, ContextError::UnboundAlias);
}

#[test]
fn struct_and_enum_definitions_are_dense_and_idempotent() {
    let mut ctx = context_for_module();
    assert_eq!(ctx.declare_struct_definition_index("A".to_owned()).unwrap(), 0);
    assert_eq!(ctx.declare_struct_definition_index("B".to_owned()).unwrap(), 1);
    assert_eq!(ctx.declare_struct_definition_index("A".to_owned()).unwrap(), 0);
    assert_eq!(ctx.current_struct_definition_index(), 2);
    assert_eq!(ctx.struct_definition_index(&"B".to_owned()).unwrap(), 1);
    assert_eq!(
        ctx.struct_definition_index(&"C".to_owned()).unwrap_err(),
        ContextError::UnboundDefinition
    );
    assert_eq!(ctx.declare_enum_definition_index("E".to_owned()).unwrap(), 0);
    assert_eq!(ctx.enum_definition_index(&"E".to_owned()).unwrap(), 0);
    assert_eq!(ctx.current_enum_definition_index(), 1);
}

#[test]
fn declared_type_handle_carries_shape() {
    let mut ctx = context_for_module();
    let sname = QualifiedDataTypeIdent { module: "M".to_owned(), name: "A".to_owned() };
    let ty_params = vec![DataTypeTyParameter { constraints: 0, is_phantom: false }];
    let idx = ctx.declare_data_type_handle_index(sname, 0b0100, ty_params).unwrap();
    let (pools, _, _) = ctx.materialize_pools();
    let handle = &pools.data_type_handles[idx as usize];
    assert_eq!(handle.abilities, 0b0100);
    assert_eq!(handle.type_parameters.len(), 1);
    assert_eq!(pools.identifiers[handle.name as usize], "A");
}

#[test]
fn first_field_registration_is_authoritative() {
    let mut ctx = context_for_module();
    ctx.declare_field(0, 0, "value".to_owned(), SignatureToken::U64, 0);
    ctx.declare_field(0, 0, "value".to_owned(), SignatureToken::U8, 5);
    let (def, token, order) = ctx.field(0, "value".to_owned()).unwrap();
    assert_eq!(def, 0);
    assert!(matches!(token, SignatureToken::U64));
    assert_eq!(order, 0);
    assert_eq!(
        ctx.field(0, "missing".to_owned()).unwrap_err(),
        ContextError::UnboundMember
    );
}

#[test]
fn first_variant_registration_is_authoritative() {
    let mut ctx = context_for_module();
    ctx.declare_variant(0, 0, "Some".to_owned(), 1, 0);
    ctx.declare_variant(0, 0, "Some".to_owned(), 9, 3);
    assert_eq!(ctx.variant(0, "Some".to_owned()).unwrap(), 0);
    assert_eq!(
        ctx.variant(0, "None".to_owned()).unwrap_err(),
        ContextError::UnboundMember
    );
}

#[test]
fn re_aliasing_a_module_is_allowed_and_last_wins() {
    let mut ctx = context_for_module();
    let other = ModuleIdent { address: self_address(), name: "N".to_owned() };
    ctx.declare_import(other.duplicate(), "P".to_owned()).unwrap();
    // re-bind the same identity under a second alias; no error
    ctx.declare_import(other, "Q".to_owned()).unwrap();
    let back = ctx.module_ident(&"Q".to_owned()).unwrap();
    assert_eq!(back.name, "N");
    assert_eq!(ctx.module_ident(&"R".to_owned()).unwrap_err(), ContextError::UnboundAlias);
}

#[test]
fn friend_declaration_interns_address_and_name() {
    let mut ctx = context_for_module();
    let friend = ModuleIdent { address: vec![9u8; 32], name: "F".to_owned() };
    let handle = ctx.declare_friend(friend).unwrap();
    let (pools, _, _) = ctx.materialize_pools();
    assert_eq!(pools.address_identifiers[handle.address as usize], vec![9u8; 32]);
    assert_eq!(pools.identifiers[handle.name as usize], "F");
}

#[test]
fn instantiation_pools_deduplicate() {
    let mut ctx = context_for_module();
    let a = ctx.struct_instantiation_index(0, 1).unwrap();
    let b = ctx.struct_instantiation_index(0, 1).unwrap();
    let c = ctx.struct_instantiation_index(1, 1).unwrap();
    assert_eq!(a, b);
    assert_ne!(a, c);
    let d = ctx.enum_instantiation_index(0, 0).unwrap();
    let e = ctx.function_instantiation_index(0, 0).unwrap();
    let f = ctx.field_instantiation_index(0, 0).unwrap();
    assert_eq!(d, 0);
    assert_eq!(e, 0);
    assert_eq!(f, 0);
    let (pools, _, _) = ctx.materialize_pools();
    assert_eq!(pools.struct_def_instantiations.len(), 2);
    assert_eq!(pools.struct_def_instantiations[a as usize].def, 0);
    assert_eq!(pools.enum_def_instantiations.len(), 1);
    assert_eq!(pools.function_instantiations.len(), 1);
    assert_eq!(pools.field_instantiations.len(), 1);
}

#[test]
fn invalid_identifiers_are_rejected_by_the_interning_path() {
    let mut ctx = context_for_module();
    assert_eq!(
        ctx.identifier_index("not valid".to_owned()).unwrap_err(),
        ContextError::InvalidIdentifier
    );
    assert_eq!(
        ctx.identifier_index("2fast".to_owned()).unwrap_err(),
        ContextError::InvalidIdentifier
    );
    assert!(ctx.identifier_index("fine_2".to_owned()).is_ok());
    let bad_ident = ModuleIdent { address: vec![3u8; 32], name: "no-dash".to_owned() };
    assert_eq!(
        ctx.declare_import(bad_ident, "Alias".to_owned()).unwrap_err(),
        ContextError::InvalidIdentifier
    );
    let bad_fn = ctx.declare_function(
        "M".to_owned(),
        "spaced out".to_owned(),
        unit_signature(),
    );
    assert_eq!(bad_fn.unwrap_err(), ContextError::InvalidIdentifier);
}

#[test]
fn context_errors_describe_themselves() {
    assert_eq!(ContextError::TableOverflow.describe(), "max table size reached");
    assert_eq!(ContextError::UnboundAlias.describe(), "missing import for module");
    assert_eq!(
        ContextError::DuplicateDependency.describe(),
        "duplicate dependency module"
    );
}

#[test]
fn current_function_index_is_recorded() {
    let mut ctx = context_for_module();
    assert_eq!(ctx.current_function_definition_index(), 0);
    ctx.set_function_index(4);
    assert_eq!(ctx.current_function_definition_index(), 4);
    assert_eq!(ctx.decl_location(), Loc { start: 0, end: 0 });
}
