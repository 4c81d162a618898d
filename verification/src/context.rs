use vstd::prelude::*;
use crate::ast::{
    dup_copy_vec, valid_identifier, views_of, AbilitySet, Constant, DataTypeHandle,
    DataTypeTyParameter,
    FunctionHandle, FunctionKey, FunctionSignature, MemberKey, ModuleHandle, ModuleIdent,
    ModuleIdentV, QualifiedDataTypeIdent, QualifiedDataTypeIdentV, Signature, SignatureToken,
};
use crate::ast::{
    tokens_view, EnumDefInstantiation, FieldHandle, FieldInstantiation, FunctionInstantiation,
    StructDefInstantiation, Token,
};
use crate::dependency::{dep_wf, CompiledDependency, CompiledModule, DepViewV};
use crate::errors::ContextError;
use crate::pool::{interned, IndexPair, Pool, PairPool};
use crate::source_map::{Loc, SourceMap};
use crate::table::Table;
use crate::TABLE_MAX_SIZE;

verus! {

broadcast use crate::ast::lemma_views_of;

/// The index pair under which a module handle is interned.
pub open spec fn pair_of_module_handle(h: ModuleHandle) -> IndexPair {
    IndexPair { fst: h.address, snd: h.name }
}

/// What an alias is bound to: the module's identity and its handle.
pub struct ModuleEntry {
    pub ident: ModuleIdent,
    pub handle: ModuleHandle,
}

/// The mathematical model of a `ModuleEntry`.
pub struct ModuleEntryV {
    pub ident: ModuleIdentV,
    pub handle: ModuleHandle,
}

impl View for ModuleEntry {
    type V = ModuleEntryV;

    open spec fn view(&self) -> ModuleEntryV {
        ModuleEntryV { ident: self.ident@, handle: self.handle }
    }
}

/// What is recorded for a declared field: the owning struct definition,
/// the field's type token and its declaration position.
pub struct FieldInfo {
    pub def: u16,
    pub token: SignatureToken,
    pub decl_order: usize,
}

/// The mathematical model of a `FieldInfo`.
pub struct FieldInfoV {
    pub def: u16,
    pub token: crate::ast::Token,
    pub decl_order: usize,
}

impl View for FieldInfo {
    type V = FieldInfoV;

    open spec fn view(&self) -> FieldInfoV {
        FieldInfoV { def: self.def, token: self.token@, decl_order: self.decl_order }
    }
}

/// What is recorded for a declared variant: the owning enum definition,
/// the variant's field count and its tag.
#[derive(Clone, Copy, Debug, PartialEq, Eq, Structural)]
pub struct VariantInfo {
    pub def: u16,
    pub field_count: usize,
    pub tag: usize,
}

impl View for VariantInfo {
    type V = VariantInfo;

    open spec fn view(&self) -> VariantInfo {
        *self
    }
}

/// The finished ordered pools, one vector per pool section of the binary
/// format; an entry's index is its vector position, so ordering is
/// load-bearing.
pub struct MaterializedPools {
    pub module_handles: Vec<ModuleHandle>,
    pub data_type_handles: Vec<DataTypeHandle>,
    pub function_handles: Vec<FunctionHandle>,
    pub field_handles: Vec<FieldHandle>,
    pub struct_def_instantiations: Vec<StructDefInstantiation>,
    pub enum_def_instantiations: Vec<EnumDefInstantiation>,
    pub function_instantiations: Vec<FunctionInstantiation>,
    pub field_instantiations: Vec<FieldInstantiation>,
    pub signatures: Vec<Signature>,
    pub identifiers: Vec<String>,
    pub address_identifiers: Vec<Vec<u8>>,
    pub constant_pool: Vec<Constant>,
}

/// Reads an interned index pair back as a module handle.
pub fn pairs_to_module_handles(v: Vec<IndexPair>) -> (r: Vec<ModuleHandle>)
    ensures
        r@.len() == v@.len(),
        forall|i: int|
            0 <= i < v@.len() ==> #[trigger] r@[i] == (ModuleHandle {
                address: v@[i].fst,
                name: v@[i].snd,
            }),
{
    let mut out: Vec<ModuleHandle> = Vec::new();
    let n = v.len();
    let mut i: usize = 0;
    while i < n
        invariant
            i <= n,
            n == v@.len(),
            out@.len() == i,
            forall|k: int|
                0 <= k < i ==> #[trigger] out@[k] == (ModuleHandle {
                    address: v@[k].fst,
                    name: v@[k].snd,
                }),
        decreases n - i,
    {
        out.push(ModuleHandle { address: v[i].fst, name: v[i].snd });
        i += 1;
    }
    out
}

/// Reads an interned index pair back as a field handle.
pub fn pairs_to_field_handles(v: Vec<IndexPair>) -> (r: Vec<FieldHandle>)
    ensures
        r@.len() == v@.len(),
        forall|i: int|
            0 <= i < v@.len() ==> #[trigger] r@[i] == (FieldHandle {
                owner: v@[i].fst,
                field: v@[i].snd,
            }),
{
    let mut out: Vec<FieldHandle> = Vec::new();
    let n = v.len();
    let mut i: usize = 0;
    while i < n
        invariant
            i <= n,
            n == v@.len(),
            out@.len() == i,
            forall|k: int|
                0 <= k < i ==> #[trigger] out@[k] == (FieldHandle {
                    owner: v@[k].fst,
                    field: v@[k].snd,
                }),
        decreases n - i,
    {
        out.push(FieldHandle { owner: v[i].fst, field: v[i].snd });
        i += 1;
    }
    out
}

/// Reads an interned index pair back as a struct instantiation.
pub fn pairs_to_struct_instantiations(v: Vec<IndexPair>) -> (r: Vec<StructDefInstantiation>)
    ensures
        r@.len() == v@.len(),
        forall|i: int|
            0 <= i < v@.len() ==> #[trigger] r@[i] == (StructDefInstantiation {
                def: v@[i].fst,
                type_parameters: v@[i].snd,
            }),
{
    let mut out: Vec<StructDefInstantiation> = Vec::new();
    let n = v.len();
    let mut i: usize = 0;
    while i < n
        invariant
            i <= n,
            n == v@.len(),
            out@.len() == i,
            forall|k: int|
                0 <= k < i ==> #[trigger] out@[k] == (StructDefInstantiation {
                    def: v@[k].fst,
                    type_parameters: v@[k].snd,
                }),
        decreases n - i,
    {
        out.push(StructDefInstantiation { def: v[i].fst, type_parameters: v[i].snd });
        i += 1;
    }
    out
}

/// Reads an interned index pair back as an enum instantiation.
pub fn pairs_to_enum_instantiations(v: Vec<IndexPair>) -> (r: Vec<EnumDefInstantiation>)
    ensures
        r@.len() == v@.len(),
        forall|i: int|
            0 <= i < v@.len() ==> #[trigger] r@[i] == (EnumDefInstantiation {
                def: v@[i].fst,
                type_parameters: v@[i].snd,
            }),
{
    let mut out: Vec<EnumDefInstantiation> = Vec::new();
    let n = v.len();
    let mut i: usize = 0;
    while i < n
        invariant
            i <= n,
            n == v@.len(),
            out@.len() == i,
            forall|k: int|
                0 <= k < i ==> #[trigger] out@[k] == (EnumDefInstantiation {
                    def: v@[k].fst,
                    type_parameters: v@[k].snd,
                }),
        decreases n - i,
    {
        out.push(EnumDefInstantiation { def: v[i].fst, type_parameters: v[i].snd });
        i += 1;
    }
    out
}

/// Reads an interned index pair back as a function instantiation.
pub fn pairs_to_function_instantiations(v: Vec<IndexPair>) -> (r: Vec<FunctionInstantiation>)
    ensures
        r@.len() == v@.len(),
        forall|i: int|
            0 <= i < v@.len() ==> #[trigger] r@[i] == (FunctionInstantiation {
                handle: v@[i].fst,
                type_parameters: v@[i].snd,
            }),
{
    let mut out: Vec<FunctionInstantiation> = Vec::new();
    let n = v.len();
    let mut i: usize = 0;
    while i < n
        invariant
            i <= n,
            n == v@.len(),
            out@.len() == i,
            forall|k: int|
                0 <= k < i ==> #[trigger] out@[k] == (FunctionInstantiation {
                    handle: v@[k].fst,
                    type_parameters: v@[k].snd,
                }),
        decreases n - i,
    {
        out.push(FunctionInstantiation { handle: v[i].fst, type_parameters: v[i].snd });
        i += 1;
    }
    out
}

/// Reads an interned index pair back as a field instantiation.
pub fn pairs_to_field_instantiations(v: Vec<IndexPair>) -> (r: Vec<FieldInstantiation>)
    ensures
        r@.len() == v@.len(),
        forall|i: int|
            0 <= i < v@.len() ==> #[trigger] r@[i] == (FieldInstantiation {
                handle: v@[i].fst,
                type_parameters: v@[i].snd,
            }),
{
    let mut out: Vec<FieldInstantiation> = Vec::new();
    let n = v.len();
    let mut i: usize = 0;
    while i < n
        invariant
            i <= n,
            n == v@.len(),
            out@.len() == i,
            forall|k: int|
                0 <= k < i ==> #[trigger] out@[k] == (FieldInstantiation {
                    handle: v@[k].fst,
                    type_parameters: v@[k].snd,
                }),
        decreases n - i,
    {
        out.push(FieldInstantiation { handle: v[i].fst, type_parameters: v[i].snd });
        i += 1;
    }
    out
}

/// Whether a pool that type resolution interns into has hit the table
/// bound; the only states in which resolution may report overflow.
pub open spec fn pools_at_limit(c: Context) -> bool {
    ||| c.identifiers@.len() >= TABLE_MAX_SIZE
    ||| c.data_type_handles@.len() >= TABLE_MAX_SIZE
}

/// What a successful first import of function (alias, name) records: the
/// alias leads to a supplied dependency defining the name; the pair is
/// bound to the next sequential handle index; the interned handle's
/// parameter and return signature entries hold the dependency's exported
/// signature re-indexed into local pool indices; and the signature table
/// gains the same re-indexed signature.
pub open spec fn first_import_ok(pre: Context, post: Context, m: Seq<char>, f: Seq<char>) -> bool {
    let k = crate::ast::FunctionKeyV { module: m, name: f };
    let ident = pre.modules@[m].ident;
    let d = pre.dependencies@[ident];
    let fh = d.function_pool[d.functions[f] as int];
    let hidx = post.function_handles@[k];
    let h = post.function_handle_vec@[hidx as int]@;
    &&& m != self_module_name()
    &&& pre.modules@.contains_key(m)
    &&& pre.dependencies@.contains_key(ident)
    &&& d.functions.contains_key(f)
    &&& post.function_handles@ == pre.function_handles@.insert(k, hidx)
    &&& hidx as int == pre.function_handle_vec@.len()
    &&& post.function_handle_vec@.len() == pre.function_handle_vec@.len() + 1
    &&& (h.parameters as int) < post.signatures@.len()
    &&& (h.return_ as int) < post.signatures@.len()
    &&& tokens_reindexed(
        d,
        post,
        d.signature_pool[fh.parameters as int],
        post.signatures@[h.parameters as int],
    )
    &&& tokens_reindexed(
        d,
        post,
        d.signature_pool[fh.return_ as int],
        post.signatures@[h.return_ as int],
    )
    &&& h.type_parameters == fh.type_parameters
    &&& (h.name as int) < post.identifiers@.len()
    &&& post.identifiers@[h.name as int] == f
    &&& (h.module as int) < post.module_handles@.len()
    &&& post.module_handles@[h.module as int] == pair_of_module_handle(pre.modules@[m].handle)
    &&& post.function_signatures@.contains_key(k)
    &&& post.function_signatures@[k].parameters == post.signatures@[h.parameters as int]
    &&& post.function_signatures@[k].return_ == post.signatures@[h.return_ as int]
    &&& post.function_signatures@[k].type_parameters == fh.type_parameters
}

/// The exact failure cases of a first function import: the current unit's
/// own name never resolves; an unbound alias, a missing dependency and an
/// undefined name each surface as their own error; a dependency defining
/// the name fails only on a full pool, a corrupt foreign handle index, or
/// an unresolvable token in its exported signature.
pub open spec fn function_import_err(
    pre: Context,
    post: Context,
    m: Seq<char>,
    f: Seq<char>,
    e: ContextError,
) -> bool {
    let ident = pre.modules@[m].ident;
    let d = pre.dependencies@[ident];
    let fh = d.function_pool[d.functions[f] as int];
    ||| (e == ContextError::UnboundDefinition && m == self_module_name())
    ||| (e == ContextError::UnboundAlias && m != self_module_name() && !pre.modules@.contains_key(
        m,
    ))
    ||| (m != self_module_name() && pre.modules@.contains_key(m) && ({
        ||| (e == ContextError::DependencyMissing && !pre.dependencies@.contains_key(ident))
        ||| (pre.dependencies@.contains_key(ident) && ({
            ||| (e == ContextError::UnboundDefinition && !d.functions.contains_key(f))
            ||| (d.functions.contains_key(f) && ({
                ||| (e == ContextError::TableOverflow && (pools_at_limit(post)
                    || post.signatures@.len() + 1 >= TABLE_MAX_SIZE
                    || pre.function_handle_vec@.len() >= TABLE_MAX_SIZE))
                ||| (e == ContextError::DependencyMalformed && ((exists|k: int|
                    0 <= k < d.signature_pool[fh.parameters as int].len()
                        && !token_leaves_in_range(
                        d,
                        #[trigger] d.signature_pool[fh.parameters as int][k],
                    )) || (exists|k: int|
                    0 <= k < d.signature_pool[fh.return_ as int].len() && !token_leaves_in_range(
                        d,
                        #[trigger] d.signature_pool[fh.return_ as int][k],
                    ))))
                ||| ((exists|k: int|
                    0 <= k < d.signature_pool[fh.parameters as int].len() && !token_resolvable(
                        pre,
                        d,
                        #[trigger] d.signature_pool[fh.parameters as int][k],
                    )) || (exists|k: int|
                    0 <= k < d.signature_pool[fh.return_ as int].len() && !token_resolvable(
                        pre,
                        d,
                        #[trigger] d.signature_pool[fh.return_ as int][k],
                    )))
            }))
        }))
    }))
}

/// Pointwise re-indexing survives the growth later steps perform.
pub proof fn lemma_tokens_reindexed_mono(
    d: DepViewV,
    c1: Context,
    c2: Context,
    origs: Seq<Token>,
    rs: Seq<Token>,
)
    requires
        tokens_reindexed(d, c1, origs, rs),
        grows_preserving(c1, c2),
    ensures
        tokens_reindexed(d, c2, origs, rs),
{
    assert forall|k: int| 0 <= k < origs.len() implies reindexed_token(
        d,
        c2,
        #[trigger] origs[k],
        rs[k],
    ) by {
        lemma_reindexed_token_mono(d, c1, c2, origs[k], rs[k]);
    }
}

/// A module handle's indices name the module's address and name in the
/// context's pools.
pub open spec fn module_handle_ok(c: Context, h: ModuleHandle, id: ModuleIdentV) -> bool {
    &&& (h.address as int) < c.address_identifiers@.len()
    &&& c.address_identifiers@[h.address as int] == id.address
    &&& (h.name as int) < c.identifiers@.len()
    &&& c.identifiers@[h.name as int] == id.name
}

/// What declaring a data type handle ensures: on success the qualified name
/// is bound to a handle carrying the given shape, whose name and module
/// indices point at the right pool entries, and the handle is interned at
/// the returned index; the name resolves to no handle only when the module
/// alias is unbound.
pub open spec fn declared_data_type_ensures(
    pre: Context,
    post: Context,
    r: Result<u16, ContextError>,
    sname: QualifiedDataTypeIdentV,
    abilities: AbilitySet,
    type_parameters: Seq<DataTypeTyParameter>,
) -> bool {
    match r {
        Ok(idx) => {
            let h = post.structs@[sname];
            &&& post.structs@.contains_key(sname)
            &&& post.structs@ == pre.structs@.insert(sname, h)
            &&& h.abilities == abilities
            &&& h.type_parameters == type_parameters
            &&& (h.name as int) < post.identifiers@.len()
            &&& post.identifiers@[h.name as int] == sname.name
            &&& valid_identifier(sname.name)
            &&& pre.modules@.contains_key(sname.module)
            &&& (h.module as int) < post.module_handles@.len()
            &&& post.module_handles@[h.module as int] == pair_of_module_handle(
                pre.modules@[sname.module].handle,
            )
            &&& (idx as int) < post.data_type_handles@.len()
            &&& post.data_type_handles@[idx as int] == h
            &&& (pre.data_type_handles@.contains(h) ==> post.data_type_handles@
                == pre.data_type_handles@ && idx as int == pre.data_type_handles@.index_of(h))
            &&& (!pre.data_type_handles@.contains(h) ==> post.data_type_handles@
                == pre.data_type_handles@.push(h) && idx as int == pre.data_type_handles@.len())
        },
        Err(e) => {
            &&& post.structs@ == pre.structs@
            &&& (e == ContextError::UnboundAlias <==> !pre.modules@.contains_key(sname.module))
            &&& (e == ContextError::InvalidIdentifier <==> pre.modules@.contains_key(sname.module)
                && !valid_identifier(sname.name))
            &&& (e != ContextError::UnboundAlias && e != ContextError::InvalidIdentifier ==> e
                == ContextError::TableOverflow && valid_identifier(sname.name) && (
                pre.identifiers@.len() >= TABLE_MAX_SIZE || pre.data_type_handles@.len()
                >= TABLE_MAX_SIZE))
        },
    }
}

/// The name under which the current unit refers to itself; it never names
/// a dependency.
pub open spec fn self_module_name() -> Seq<char> {
    "Self"@
}

/// The key under which a dependency's view exports a type of the current
/// unit's qualified name: the dependency's own module name plus the type
/// name.
pub open spec fn dep_type_lookup_key(ident: ModuleIdentV, s: QualifiedDataTypeIdentV)
    -> QualifiedDataTypeIdentV {
    QualifiedDataTypeIdentV { module: ident.name, name: s.name }
}

/// Whether a qualified type name can be resolved at all in this context:
/// either it is already interned, or its alias leads to a supplied
/// dependency that exports the type.
pub open spec fn qualified_resolvable(c: Context, s: QualifiedDataTypeIdentV) -> bool {
    ||| c.structs@.contains_key(s)
    ||| (s.module != self_module_name() && c.modules@.contains_key(s.module)
        && c.dependencies@.contains_key(c.modules@[s.module].ident)
        && c.dependencies@[c.modules@[s.module].ident].structs.contains_key(
        dep_type_lookup_key(c.modules@[s.module].ident, s),
    ))
}

/// How a first-time foreign type import gets its shape: the alias leads to
/// a supplied dependency exporting the type, and the interned handle copies
/// the abilities and type parameters the dependency declared.
pub open spec fn imported_shape_ok(pre: Context, post: Context, s: QualifiedDataTypeIdentV) -> bool {
    &&& s.module != self_module_name()
    &&& pre.modules@.contains_key(s.module)
    &&& ({
        let ident = pre.modules@[s.module].ident;
        &&& pre.dependencies@.contains_key(ident)
        &&& ({
            let dv = pre.dependencies@[ident];
            let key = dep_type_lookup_key(ident, s);
            &&& dv.structs.contains_key(key)
            &&& (dv.structs[key] as int) < dv.data_type_pool.len()
            &&& post.structs@[s].abilities == dv.data_type_pool[dv.structs[key] as int].abilities
            &&& post.structs@[s].type_parameters == dv.data_type_pool[dv.structs[key] as int].type_parameters
        })
    })
}

/// Whatever was interned stays interned, under the same name and with the
/// same handle.
pub open spec fn structs_preserved(pre: Context, post: Context) -> bool {
    forall|q: QualifiedDataTypeIdentV|
        #[trigger] pre.structs@.contains_key(q) ==> post.structs@.contains_key(q)
            && post.structs@[q] == pre.structs@[q]
}

/// The growth that resolution steps perform: the alias, module and
/// dependency tables stay put, interned types are preserved, and the
/// type-handle pool only grows.
pub open spec fn grows_preserving(pre: Context, post: Context) -> bool {
    &&& post.aliases@ == pre.aliases@
    &&& post.modules@ == pre.modules@
    &&& post.dependencies@ == pre.dependencies@
    &&& structs_preserved(pre, post)
    &&& pre.data_type_handles@.is_prefix_of(post.data_type_handles@)
}

/// How a re-indexed `DataType` leaf relates to the foreign index it came
/// from: the dependency's pools name the type's source module and name, the
/// source module's alias is bound, and the local index names the handle
/// interned for (alias, name).
pub open spec fn datatype_leaf_ok(d: DepViewV, post: Context, i: u16, j: u16) -> bool {
    &&& (i as int) < d.data_type_pool.len()
    &&& ({
        let info = crate::dependency::source_info(d, i as int);
        &&& post.aliases@.contains_key(info.0)
        &&& ({
            let q = QualifiedDataTypeIdentV { module: post.aliases@[info.0], name: info.1 };
            &&& post.structs@.contains_key(q)
            &&& (j as int) < post.data_type_handles@.len()
            &&& post.data_type_handles@[j as int] == post.structs@[q]
        })
    })
}

/// Structural isomorphism between a foreign token and its re-indexed
/// local form: primitives and type parameters pass through unchanged,
/// compound tokens correspond child by child, and every named-type leaf is
/// replaced by the local handle index of the type it refers to.
pub open spec fn reindexed_token(d: DepViewV, post: Context, orig: Token, r: Token) -> bool
    decreases orig,
{
    match orig {
        Token::Bool => r == Token::Bool,
        Token::U8 => r == Token::U8,
        Token::U16 => r == Token::U16,
        Token::U32 => r == Token::U32,
        Token::U64 => r == Token::U64,
        Token::U128 => r == Token::U128,
        Token::U256 => r == Token::U256,
        Token::Address => r == Token::Address,
        Token::Signer => r == Token::Signer,
        Token::TypeParameter(i) => r == Token::TypeParameter(i),
        Token::Vector(inner) => match r {
            Token::Vector(rin) => reindexed_token(d, post, *inner, *rin),
            _ => false,
        },
        Token::Reference(inner) => match r {
            Token::Reference(rin) => reindexed_token(d, post, *inner, *rin),
            _ => false,
        },
        Token::MutableReference(inner) => match r {
            Token::MutableReference(rin) => reindexed_token(d, post, *inner, *rin),
            _ => false,
        },
        Token::DataType(i) => match r {
            Token::DataType(j) => datatype_leaf_ok(d, post, i, j),
            _ => false,
        },
        Token::DataTypeInstantiation(i, args) => match r {
            Token::DataTypeInstantiation(j, rargs) => datatype_leaf_ok(d, post, i, j)
                && rargs.len() == args.len() && (forall|k: int|
                0 <= k < args.len() ==> reindexed_token(d, post, #[trigger] args[k], rargs[k])),
            _ => false,
        },
    }
}

/// Pointwise re-indexing of a token sequence.
pub open spec fn tokens_reindexed(d: DepViewV, post: Context, origs: Seq<Token>, rs: Seq<Token>)
    -> bool {
    &&& rs.len() == origs.len()
    &&& forall|k: int| 0 <= k < origs.len() ==> reindexed_token(d, post, #[trigger] origs[k], rs[k])
}

/// Whether a foreign token can be re-indexed in this context, pool limits
/// aside: every named-type leaf is in range of the dependency's pools, its
/// source module's alias is bound, and the type is either interned already
/// or exported by the supplied dependency its alias leads to.
pub open spec fn token_resolvable(c: Context, d: DepViewV, orig: Token) -> bool
    decreases orig,
{
    match orig {
        Token::Vector(inner) => token_resolvable(c, d, *inner),
        Token::Reference(inner) => token_resolvable(c, d, *inner),
        Token::MutableReference(inner) => token_resolvable(c, d, *inner),
        Token::DataType(i) => leaf_resolvable(c, d, i),
        Token::DataTypeInstantiation(i, args) => leaf_resolvable(c, d, i)
            && tokens_all_resolvable(c, d, args),
        _ => true,
    }
}

/// Resolvability of every token in a list.
pub open spec fn tokens_all_resolvable(c: Context, d: DepViewV, args: Seq<Token>) -> bool
    decreases args,
{
    args.len() == 0 || (token_resolvable(c, d, args.last()) && tokens_all_resolvable(
        c,
        d,
        args.drop_last(),
    ))
}

/// A resolvable list is resolvable member by member.
pub proof fn lemma_tokens_all_resolvable(c: Context, d: DepViewV, args: Seq<Token>)
    requires
        tokens_all_resolvable(c, d, args),
    ensures
        forall|k: int| 0 <= k < args.len() ==> token_resolvable(c, d, #[trigger] args[k]),
    decreases args.len(),
{
    if args.len() > 0 {
        lemma_tokens_all_resolvable(c, d, args.drop_last());
        assert forall|k: int| 0 <= k < args.len() implies token_resolvable(
            c,
            d,
            #[trigger] args[k],
        ) by {
            if k < args.len() - 1 {
                assert(args.drop_last()[k] == args[k]);
                assert(token_resolvable(c, d, args.drop_last()[k]));
            } else {
                assert(args[k] == args.last());
            }
        }
    }
}

/// And conversely.
pub proof fn lemma_tokens_all_resolvable_intro(c: Context, d: DepViewV, args: Seq<Token>)
    requires
        forall|k: int| 0 <= k < args.len() ==> token_resolvable(c, d, #[trigger] args[k]),
    ensures
        tokens_all_resolvable(c, d, args),
    decreases args.len(),
{
    if args.len() > 0 {
        assert(args[args.len() - 1] == args.last());
        assert forall|k: int| 0 <= k < args.drop_last().len() implies token_resolvable(
            c,
            d,
            #[trigger] args.drop_last()[k],
        ) by {
            assert(args.drop_last()[k] == args[k]);
        }
        lemma_tokens_all_resolvable_intro(c, d, args.drop_last());
    }
}

/// Resolvability of one named-type leaf.
pub open spec fn leaf_resolvable(c: Context, d: DepViewV, i: u16) -> bool {
    &&& (i as int) < d.data_type_pool.len()
    &&& ({
        let info = crate::dependency::source_info(d, i as int);
        &&& c.aliases@.contains_key(info.0)
        &&& qualified_resolvable(
            c,
            QualifiedDataTypeIdentV { module: c.aliases@[info.0], name: info.1 },
        )
    })
}

/// Whether every named-type index inside a token is in range of the
/// dependency's type-handle pool.  A leaf outside the range marks a
/// corrupt dependency.
pub open spec fn token_leaves_in_range(d: DepViewV, t: Token) -> bool
    decreases t,
{
    match t {
        Token::Vector(inner) => token_leaves_in_range(d, *inner),
        Token::Reference(inner) => token_leaves_in_range(d, *inner),
        Token::MutableReference(inner) => token_leaves_in_range(d, *inner),
        Token::DataType(i) => (i as int) < d.data_type_pool.len(),
        Token::DataTypeInstantiation(i, args) => (i as int) < d.data_type_pool.len()
            && tokens_all_in_range(d, args),
        _ => true,
    }
}

/// As `token_leaves_in_range`, over a token list.
pub open spec fn tokens_all_in_range(d: DepViewV, args: Seq<Token>) -> bool
    decreases args,
{
    args.len() == 0 || (token_leaves_in_range(d, args.last()) && tokens_all_in_range(
        d,
        args.drop_last(),
    ))
}

/// A list whose leaves are all in range is in range member by member.
pub proof fn lemma_tokens_all_in_range(d: DepViewV, args: Seq<Token>)
    requires
        tokens_all_in_range(d, args),
    ensures
        forall|k: int| 0 <= k < args.len() ==> token_leaves_in_range(d, #[trigger] args[k]),
    decreases args.len(),
{
    if args.len() > 0 {
        lemma_tokens_all_in_range(d, args.drop_last());
        assert forall|k: int| 0 <= k < args.len() implies token_leaves_in_range(
            d,
            #[trigger] args[k],
        ) by {
            if k < args.len() - 1 {
                assert(args.drop_last()[k] == args[k]);
                assert(token_leaves_in_range(d, args.drop_last()[k]));
            } else {
                assert(args[k] == args.last());
            }
        }
    }
}

/// Unpacks resolvability of an instantiated named type into its parts.
pub proof fn lemma_resolvable_args(c: Context, d: DepViewV, i: u16, args: Seq<Token>)
    requires
        token_resolvable(c, d, Token::DataTypeInstantiation(i, args)),
    ensures
        leaf_resolvable(c, d, i),
        forall|k: int| 0 <= k < args.len() ==> token_resolvable(c, d, #[trigger] args[k]),
{
    lemma_tokens_all_resolvable(c, d, args);
}

/// Re-indexing facts survive the growth that later resolution steps
/// perform.
pub proof fn lemma_reindexed_token_mono(d: DepViewV, c1: Context, c2: Context, orig: Token, r: Token)
    requires
        reindexed_token(d, c1, orig, r),
        grows_preserving(c1, c2),
    ensures
        reindexed_token(d, c2, orig, r),
    decreases orig,
{
    match orig {
        Token::Vector(inner) => match r {
            Token::Vector(rin) => lemma_reindexed_token_mono(d, c1, c2, *inner, *rin),
            _ => {},
        },
        Token::Reference(inner) => match r {
            Token::Reference(rin) => lemma_reindexed_token_mono(d, c1, c2, *inner, *rin),
            _ => {},
        },
        Token::MutableReference(inner) => match r {
            Token::MutableReference(rin) => lemma_reindexed_token_mono(d, c1, c2, *inner, *rin),
            _ => {},
        },
        Token::DataType(i) => match r {
            Token::DataType(j) => {
                lemma_leaf_ok_mono(d, c1, c2, i, j);
            },
            _ => {},
        },
        Token::DataTypeInstantiation(i, args) => match r {
            Token::DataTypeInstantiation(j, rargs) => {
                lemma_leaf_ok_mono(d, c1, c2, i, j);
                assert forall|k: int| 0 <= k < args.len() implies reindexed_token(
                    d,
                    c2,
                    #[trigger] args[k],
                    rargs[k],
                ) by {
                    lemma_reindexed_token_mono(d, c1, c2, args[k], rargs[k]);
                }
            },
            _ => {},
        },
        _ => {},
    }
}

/// As `lemma_reindexed_token_mono`, for one leaf.
pub proof fn lemma_leaf_ok_mono(d: DepViewV, c1: Context, c2: Context, i: u16, j: u16)
    requires
        datatype_leaf_ok(d, c1, i, j),
        grows_preserving(c1, c2),
    ensures
        datatype_leaf_ok(d, c2, i, j),
{
    let info = crate::dependency::source_info(d, i as int);
    let q = QualifiedDataTypeIdentV { module: c1.aliases@[info.0], name: info.1 };
    assert(c2.structs@.contains_key(q) && c2.structs@[q] == c1.structs@[q]);
    assert(c1.data_type_handles@ =~= c2.data_type_handles@.subrange(
        0,
        c1.data_type_handles@.len() as int,
    ));
    assert(c2.data_type_handles@[j as int] == c1.data_type_handles@[j as int]);
}

/// Resolvability survives the same growth.
pub proof fn lemma_token_resolvable_mono(d: DepViewV, c1: Context, c2: Context, orig: Token)
    requires
        token_resolvable(c1, d, orig),
        grows_preserving(c1, c2),
    ensures
        token_resolvable(c2, d, orig),
    decreases orig,
{
    match orig {
        Token::Vector(inner) => lemma_token_resolvable_mono(d, c1, c2, *inner),
        Token::Reference(inner) => lemma_token_resolvable_mono(d, c1, c2, *inner),
        Token::MutableReference(inner) => lemma_token_resolvable_mono(d, c1, c2, *inner),
        Token::DataType(i) => {
            lemma_leaf_resolvable_mono(d, c1, c2, i);
        },
        Token::DataTypeInstantiation(i, args) => {
            lemma_leaf_resolvable_mono(d, c1, c2, i);
            lemma_tokens_all_resolvable(c1, d, args);
            assert forall|k: int| 0 <= k < args.len() implies token_resolvable(
                c2,
                d,
                #[trigger] args[k],
            ) by {
                lemma_token_resolvable_mono(d, c1, c2, args[k]);
            }
            lemma_tokens_all_resolvable_intro(c2, d, args);
        },
        _ => {},
    }
}

/// As `lemma_token_resolvable_mono`, for one leaf.
pub proof fn lemma_leaf_resolvable_mono(d: DepViewV, c1: Context, c2: Context, i: u16)
    requires
        leaf_resolvable(c1, d, i),
        grows_preserving(c1, c2),
    ensures
        leaf_resolvable(c2, d, i),
{
    let info = crate::dependency::source_info(d, i as int);
    let q = QualifiedDataTypeIdentV { module: c1.aliases@[info.0], name: info.1 };
    if c1.structs@.contains_key(q) {
        let v = c1.structs@[q];
        assert(c2.structs@.contains_key(q) && c2.structs@[q] == v);
    }
}

/// Growth steps compose.
pub proof fn lemma_growth_trans(a: Context, b: Context, c: Context)
    requires
        b.extends(&a),
        c.extends(&b),
        grows_preserving(a, b),
        grows_preserving(b, c),
    ensures
        c.extends(&a),
        grows_preserving(a, c),
{
    assert forall|q: QualifiedDataTypeIdentV| #[trigger] a.structs@.contains_key(q) implies c
        .structs@
        .contains_key(q) && c.structs@[q] == a.structs@[q] by {
        assert(b.structs@.contains_key(q) && b.structs@[q] == a.structs@[q]);
        assert(c.structs@.contains_key(q) && c.structs@[q] == b.structs@[q]);
    }
    crate::pool::lemma_prefix_trans(a.module_handles@, b.module_handles@, c.module_handles@);
    crate::pool::lemma_prefix_trans(
        a.data_type_handles@,
        b.data_type_handles@,
        c.data_type_handles@,
    );
    crate::pool::lemma_prefix_trans(a.signatures@, b.signatures@, c.signatures@);
    crate::pool::lemma_prefix_trans(a.identifiers@, b.identifiers@, c.identifiers@);
    crate::pool::lemma_prefix_trans(
        a.address_identifiers@,
        b.address_identifiers@,
        c.address_identifiers@,
    );
    crate::pool::lemma_prefix_trans(a.constant_pool@, b.constant_pool@, c.constant_pool@);
    crate::pool::lemma_prefix_trans(a.field_handles@, b.field_handles@, c.field_handles@);
    crate::pool::lemma_prefix_trans(
        a.struct_instantiations@,
        b.struct_instantiations@,
        c.struct_instantiations@,
    );
    crate::pool::lemma_prefix_trans(
        a.enum_instantiations@,
        b.enum_instantiations@,
        c.enum_instantiations@,
    );
    crate::pool::lemma_prefix_trans(
        a.function_instantiations@,
        b.function_instantiations@,
        c.function_instantiations@,
    );
    crate::pool::lemma_prefix_trans(
        a.field_instantiations@,
        b.field_instantiations@,
        c.field_instantiations@,
    );
}

/// The compilation context for a single unit (module or script): the
/// dependency store, the per-unit lookup tables, and one interning pool per
/// pool kind of the binary format.
pub struct Context {
    pub dependencies: Table<ModuleIdent, CompiledDependency>,
    pub aliases: Table<ModuleIdent, String>,
    pub modules: Table<String, ModuleEntry>,
    pub structs: Table<QualifiedDataTypeIdent, DataTypeHandle>,
    pub struct_defs: Table<String, u16>,
    pub enum_defs: Table<String, u16>,
    pub named_constants: Table<String, u16>,
    pub labels: Table<String, u16>,
    pub fields: Table<MemberKey, FieldInfo>,
    pub variants: Table<MemberKey, VariantInfo>,
    pub function_handles: Table<FunctionKey, u16>,
    pub function_handle_vec: Vec<FunctionHandle>,
    pub function_signatures: Table<FunctionKey, FunctionSignature>,
    pub module_handles: PairPool,
    pub data_type_handles: Pool<DataTypeHandle>,
    pub signatures: Pool<Signature>,
    pub identifiers: Pool<String>,
    pub address_identifiers: Pool<Vec<u8>>,
    pub constant_pool: Pool<Constant>,
    pub field_handles: PairPool,
    pub struct_instantiations: PairPool,
    pub enum_instantiations: PairPool,
    pub function_instantiations: PairPool,
    pub field_instantiations: PairPool,
    pub current_function_index: u16,
    pub source_map: SourceMap,
}

impl Context {
    /// The context's invariant: tables bind each key once, every handle a
    /// table refers to is interned in its pool, definition indices are
    /// dense, and the function tables stay in step with each other.
    pub open spec fn wf(&self) -> bool {
        &&& self.dependencies.wf()
        &&& forall|k: ModuleIdentV|
            self.dependencies@.contains_key(k) ==> dep_wf(#[trigger] self.dependencies@[k])
        &&& self.aliases.wf()
        &&& self.modules.wf()
        &&& forall|k: Seq<char>|
            self.modules@.contains_key(k) ==> self.module_handles@.contains(
                pair_of_module_handle((#[trigger] self.modules@[k]).handle),
            )
        &&& self.structs.wf()
        &&& forall|k|
            self.structs@.contains_key(k) ==> self.data_type_handles@.contains(
                #[trigger] self.structs@[k],
            )
        &&& self.struct_defs.wf()
        &&& self.struct_defs.spec_len() <= TABLE_MAX_SIZE
        &&& forall|k: Seq<char>|
            self.struct_defs@.contains_key(k) ==> (#[trigger] self.struct_defs@[k] as nat)
                < self.struct_defs.spec_len()
        &&& forall|k1: Seq<char>, k2: Seq<char>|
            self.struct_defs@.contains_key(k1) && self.struct_defs@.contains_key(k2) && k1 != k2
                ==> #[trigger] self.struct_defs@[k1] != #[trigger] self.struct_defs@[k2]
        &&& self.enum_defs.wf()
        &&& self.enum_defs.spec_len() <= TABLE_MAX_SIZE
        &&& forall|k: Seq<char>|
            self.enum_defs@.contains_key(k) ==> (#[trigger] self.enum_defs@[k] as nat)
                < self.enum_defs.spec_len()
        &&& forall|k1: Seq<char>, k2: Seq<char>|
            self.enum_defs@.contains_key(k1) && self.enum_defs@.contains_key(k2) && k1 != k2
                ==> #[trigger] self.enum_defs@[k1] != #[trigger] self.enum_defs@[k2]
        &&& self.named_constants.wf()
        &&& forall|k: Seq<char>|
            self.named_constants@.contains_key(k) ==> (#[trigger] self.named_constants@[k] as int)
                < self.constant_pool@.len()
        &&& self.labels.wf()
        &&& self.labels.spec_len() <= TABLE_MAX_SIZE
        &&& forall|k: Seq<char>|
            self.labels@.contains_key(k) ==> (#[trigger] self.labels@[k] as nat)
                < self.labels.spec_len()
        &&& forall|k1: Seq<char>, k2: Seq<char>|
            self.labels@.contains_key(k1) && self.labels@.contains_key(k2) && k1 != k2
                ==> #[trigger] self.labels@[k1] != #[trigger] self.labels@[k2]
        &&& self.fields.wf()
        &&& self.variants.wf()
        &&& self.function_handles.wf()
        &&& self.function_signatures.wf()
        &&& self.function_handles.spec_len() == self.function_handle_vec@.len()
        &&& self.function_signatures.spec_len() == self.function_handle_vec@.len()
        &&& self.function_handle_vec@.len() <= TABLE_MAX_SIZE
        &&& forall|k|
            self.function_handles@.contains_key(k) ==> (#[trigger] self.function_handles@[k] as int)
                < self.function_handle_vec@.len()
        &&& forall|k1, k2|
            self.function_handles@.contains_key(k1) && self.function_handles@.contains_key(k2) && k1
                != k2 ==> #[trigger] self.function_handles@[k1]
                != #[trigger] self.function_handles@[k2]
        &&& forall|k|
            #[trigger] self.function_handles@.contains_key(k)
                == self.function_signatures@.contains_key(k)
        &&& self.module_handles.wf()
        &&& self.data_type_handles.wf()
        &&& self.signatures.wf()
        &&& self.identifiers.wf()
        &&& self.address_identifiers.wf()
        &&& self.constant_pool.wf()
        &&& self.field_handles.wf()
        &&& self.struct_instantiations.wf()
        &&& self.enum_instantiations.wf()
        &&& self.function_instantiations.wf()
        &&& self.field_instantiations.wf()
    }

    /// Every pool only ever grows, and an index once assigned keeps naming
    /// the same value.
    pub open spec fn extends(&self, pre: &Context) -> bool {
        &&& pre.module_handles@.is_prefix_of(self.module_handles@)
        &&& pre.data_type_handles@.is_prefix_of(self.data_type_handles@)
        &&& pre.signatures@.is_prefix_of(self.signatures@)
        &&& pre.identifiers@.is_prefix_of(self.identifiers@)
        &&& pre.address_identifiers@.is_prefix_of(self.address_identifiers@)
        &&& pre.constant_pool@.is_prefix_of(self.constant_pool@)
        &&& pre.field_handles@.is_prefix_of(self.field_handles@)
        &&& pre.struct_instantiations@.is_prefix_of(self.struct_instantiations@)
        &&& pre.enum_instantiations@.is_prefix_of(self.enum_instantiations@)
        &&& pre.function_instantiations@.is_prefix_of(self.function_instantiations@)
        &&& pre.field_instantiations@.is_prefix_of(self.field_instantiations@)
    }

    /// Given the dependencies, create an empty context for one compilation
    /// unit.  The unit's identity is absent for a script.
    pub fn new(
        decl_location: Loc,
        dependencies: Table<ModuleIdent, CompiledDependency>,
        current_module_opt: Option<ModuleIdent>,
    ) -> (r: Result<Context, ContextError>)
        requires
            dependencies.wf(),
            forall|k: ModuleIdentV|
                dependencies@.contains_key(k) ==> dep_wf(#[trigger] dependencies@[k]),
        ensures
            match r {
                Ok(c) => {
                    &&& c.wf()
                    &&& c.dependencies@ == dependencies@
                    &&& c.aliases@ == Map::<ModuleIdentV, Seq<char>>::empty()
                    &&& c.modules.spec_len() == 0
                    &&& c.structs.spec_len() == 0
                    &&& c.struct_defs.spec_len() == 0
                    &&& c.enum_defs.spec_len() == 0
                    &&& c.named_constants.spec_len() == 0
                    &&& c.labels.spec_len() == 0
                    &&& c.fields.spec_len() == 0
                    &&& c.variants.spec_len() == 0
                    &&& c.function_handles.spec_len() == 0
                    &&& c.function_handle_vec@.len() == 0
                    &&& c.module_handles@.len() == 0
                    &&& c.data_type_handles@.len() == 0
                    &&& c.signatures@.len() == 0
                    &&& c.identifiers@.len() == 0
                    &&& c.address_identifiers@.len() == 0
                    &&& c.constant_pool@.len() == 0
                    &&& c.field_handles@.len() == 0
                    &&& c.struct_instantiations@.len() == 0
                    &&& c.enum_instantiations@.len() == 0
                    &&& c.function_instantiations@.len() == 0
                    &&& c.field_instantiations@.len() == 0
                    &&& c.current_function_index == 0
                    &&& c.source_map.definition_location == decl_location
                    &&& c.source_map.module_name == current_module_opt
                },
                Err(_) => false,
            },
    {
        let context = Context {
            dependencies,
            aliases: Table::empty(),
            modules: Table::empty(),
            structs: Table::empty(),
            struct_defs: Table::empty(),
            enum_defs: Table::empty(),
            named_constants: Table::empty(),
            labels: Table::empty(),
            fields: Table::empty(),
            variants: Table::empty(),
            function_handles: Table::empty(),
            function_handle_vec: Vec::new(),
            function_signatures: Table::empty(),
            module_handles: PairPool::empty(),
            data_type_handles: Pool::empty(),
            signatures: Pool::empty(),
            identifiers: Pool::empty(),
            address_identifiers: Pool::empty(),
            constant_pool: Pool::empty(),
            field_handles: PairPool::empty(),
            struct_instantiations: PairPool::empty(),
            enum_instantiations: PairPool::empty(),
            function_instantiations: PairPool::empty(),
            field_instantiations: PairPool::empty(),
            current_function_index: 0,
            source_map: SourceMap::new(decl_location, current_module_opt),
        };
        Ok(context)
    }

    /// Hand the dependency store out, for reuse by the next unit.
    pub fn take_dependencies(&mut self) -> (r: Table<ModuleIdent, CompiledDependency>)
        requires
            old(self).wf(),
        ensures
            final(self).wf(),
            r == old(self).dependencies,
            final(self).dependencies.spec_len() == 0,
            *final(self) == (Context { dependencies: final(self).dependencies, ..*old(self) }),
    {
        let mut taken: Table<ModuleIdent, CompiledDependency> = Table::empty();
        core::mem::swap(&mut taken, &mut self.dependencies);
        taken
    }

    /// Put a dependency store back after `take_dependencies`.
    pub fn restore_dependencies(&mut self, dependencies: Table<ModuleIdent, CompiledDependency>)
        requires
            old(self).wf(),
            old(self).dependencies.spec_len() == 0,
            dependencies.wf(),
            forall|k: ModuleIdentV|
                dependencies@.contains_key(k) ==> dep_wf(#[trigger] dependencies@[k]),
        ensures
            final(self).wf(),
            final(self).dependencies == dependencies,
            *final(self) == (Context { dependencies: final(self).dependencies, ..*old(self) }),
    {
        self.dependencies = dependencies;
    }

    /// Register one more compiled dependency, keyed by its own identity;
    /// a second dependency for the same identity is refused.
    pub fn add_compiled_dependency(&mut self, compiled_dep: &CompiledModule) -> (r: Result<
        (),
        ContextError,
    >)
        requires
            old(self).wf(),
            crate::dependency::module_wf(compiled_dep@),
        ensures
            final(self).wf(),
            *final(self) == (Context { dependencies: final(self).dependencies, ..*old(self) }),
            ({
                let ident = crate::dependency::module_self_ident(compiled_dep@);
                match r {
                    Ok(_) => !old(self).dependencies@.contains_key(ident) && final(self).dependencies@.contains_key(ident) && crate::dependency::view_of_module(
                        final(self).dependencies@[ident],
                        compiled_dep@,
                    ) && forall|k: ModuleIdentV|
                        k != ident ==> final(self).dependencies@.contains_key(k) == old(self).dependencies@.contains_key(k) && (old(self).dependencies@.contains_key(k)
                            ==> final(self).dependencies@[k] == old(self).dependencies@[k]),
                    Err(e) => final(self).dependencies@ == old(self).dependencies@ && e
                        == ContextError::DuplicateDependency && old(self).dependencies@.contains_key(ident),
                }
            }),
    {
        let ident = compiled_dep.self_ident();
        if self.dependencies.contains(&ident) {
            return Err(ContextError::DuplicateDependency);
        }
        let dep = match CompiledDependency::borrowed(compiled_dep) {
            Ok(d) => d,
            Err(e) => {
                return Err(e);
            },
        };
        let ghost prev = self.dependencies@;
        self.dependencies.insert(ident, dep);
        proof {
            assert forall|k: ModuleIdentV| self.dependencies@.contains_key(k) implies dep_wf(
                #[trigger] self.dependencies@[k],
            ) by {
                if k != crate::dependency::module_self_ident(compiled_dep@) {
                    assert(prev.contains_key(k));
                }
            }
        }
        Ok(())
    }

    /// The identity bound to a module alias.
    pub fn module_ident(&self, module_name: &String) -> (r: Result<ModuleIdent, ContextError>)
        requires
            self.wf(),
        ensures
            match r {
                Ok(id) => self.modules@.contains_key(module_name@) && id@
                    == self.modules@[module_name@].ident,
                Err(e) => e == ContextError::UnboundAlias && !self.modules@.contains_key(
                    module_name@,
                ),
            },
    {
        match self.modules.get(module_name) {
            None => Err(ContextError::UnboundAlias),
            Some(entry) => Ok(entry.ident.duplicate()),
        }
    }

    /// The module-handle pool index bound to a module alias.
    pub fn module_handle_index(&self, module_name: &String) -> (r: Result<u16, ContextError>)
        requires
            self.wf(),
        ensures
            match r {
                Ok(idx) => self.modules@.contains_key(module_name@) && (idx as int)
                    < self.module_handles@.len() && self.module_handles@[idx as int]
                    == pair_of_module_handle(self.modules@[module_name@].handle),
                Err(e) => e == ContextError::UnboundAlias && !self.modules@.contains_key(
                    module_name@,
                ),
            },
    {
        let handle = match self.modules.get(module_name) {
            None => {
                return Err(ContextError::UnboundAlias);
            },
            Some(entry) => entry.handle,
        };
        let pair = IndexPair { fst: handle.address, snd: handle.name };
        match self.module_handles.index_of(pair) {
            Some(idx) => Ok(idx),
            None => {
                proof {
                    assert(self.module_handles@.contains(pair_of_module_handle(
                        self.modules@[module_name@].handle,
                    )));
                    assert(false);
                }
                Err(ContextError::UnboundAlias)
            },
        }
    }

    /// The field-handle pool index for (owner, field), interning it first
    /// if this is its first use.
    pub fn field_handle_index(&mut self, owner: u16, field: u16) -> (r: Result<u16, ContextError>)
        requires
            old(self).wf(),
        ensures
            final(self).wf(),
            final(self).extends(old(self)),
            *final(self) == (Context { field_handles: final(self).field_handles, ..*old(self) }),
            ({
                let p = IndexPair { fst: owner, snd: field };
                match r {
                    Ok(idx) => {
                        &&& (idx as int) < final(self).field_handles@.len()
                        &&& final(self).field_handles@[idx as int] == p
                        &&& (old(self).field_handles@.contains(p) ==> final(self).field_handles@
                            == old(self).field_handles@)
                        &&& (!old(self).field_handles@.contains(p) ==> final(self).field_handles@
                            == old(self).field_handles@.push(p) && idx as int == old(self).field_handles@.len())
                    },
                    Err(e) => e == ContextError::TableOverflow && final(self).field_handles@ == old(self).field_handles@ && !old(self).field_handles@.contains(p) && old(self).field_handles@.len() >= TABLE_MAX_SIZE,
                }
            }),
    {
        self.field_handles.get_or_add(IndexPair { fst: owner, snd: field })
    }

    /// The struct-instantiation pool index for (def, type arguments).
    pub fn struct_instantiation_index(&mut self, def: u16, type_parameters: u16) -> (r: Result<
        u16,
        ContextError,
    >)
        requires
            old(self).wf(),
        ensures
            final(self).wf(),
            final(self).extends(old(self)),
            *final(self) == (Context {
                struct_instantiations: final(self).struct_instantiations,
                ..*old(self)
            }),
            ({
                let p = IndexPair { fst: def, snd: type_parameters };
                match r {
                    Ok(idx) => (idx as int) < final(self).struct_instantiations@.len() && final(self).struct_instantiations@[idx as int] == p && (old(self).struct_instantiations@.contains(p) ==> final(self).struct_instantiations@
                        == old(self).struct_instantiations@) && (!old(self).struct_instantiations@.contains(p) ==> final(self).struct_instantiations@
                        == old(self).struct_instantiations@.push(p) && idx as int == old(self).struct_instantiations@.len()),
                    Err(e) => e == ContextError::TableOverflow && final(self).struct_instantiations@ == old(self).struct_instantiations@ && !old(self).struct_instantiations@.contains(p) && old(self).struct_instantiations@.len()
                        >= TABLE_MAX_SIZE,
                }
            }),
    {
        self.struct_instantiations.get_or_add(IndexPair { fst: def, snd: type_parameters })
    }

    /// The enum-instantiation pool index for (def, type arguments).
    pub fn enum_instantiation_index(&mut self, def: u16, type_parameters: u16) -> (r: Result<
        u16,
        ContextError,
    >)
        requires
            old(self).wf(),
        ensures
            final(self).wf(),
            final(self).extends(old(self)),
            *final(self) == (Context {
                enum_instantiations: final(self).enum_instantiations,
                ..*old(self)
            }),
            ({
                let p = IndexPair { fst: def, snd: type_parameters };
                match r {
                    Ok(idx) => (idx as int) < final(self).enum_instantiations@.len() && final(self).enum_instantiations@[idx as int] == p && (old(self).enum_instantiations@.contains(p) ==> final(self).enum_instantiations@ == old(self).enum_instantiations@) && (!old(self).enum_instantiations@.contains(p)
                        ==> final(self).enum_instantiations@ == old(self).enum_instantiations@.push(p) && idx as int == old(self).enum_instantiations@.len()),
                    Err(e) => e == ContextError::TableOverflow && final(self).enum_instantiations@
                        == old(self).enum_instantiations@ && !old(self).enum_instantiations@.contains(p) && old(self).enum_instantiations@.len()
                        >= TABLE_MAX_SIZE,
                }
            }),
    {
        self.enum_instantiations.get_or_add(IndexPair { fst: def, snd: type_parameters })
    }

    /// The function-instantiation pool index for (handle, type arguments).
    pub fn function_instantiation_index(&mut self, handle: u16, type_parameters: u16) -> (r: Result<
        u16,
        ContextError,
    >)
        requires
            old(self).wf(),
        ensures
            final(self).wf(),
            final(self).extends(old(self)),
            *final(self) == (Context {
                function_instantiations: final(self).function_instantiations,
                ..*old(self)
            }),
            ({
                let p = IndexPair { fst: handle, snd: type_parameters };
                match r {
                    Ok(idx) => (idx as int) < final(self).function_instantiations@.len() && final(self).function_instantiations@[idx as int] == p && (old(self).function_instantiations@.contains(p) ==> final(self).function_instantiations@
                        == old(self).function_instantiations@) && (!old(self).function_instantiations@.contains(p) ==> final(self).function_instantiations@
                        == old(self).function_instantiations@.push(p) && idx as int == old(self).function_instantiations@.len()),
                    Err(e) => e == ContextError::TableOverflow && final(self).function_instantiations@ == old(self).function_instantiations@ && !old(self).function_instantiations@.contains(p) && old(self).function_instantiations@.len() >= TABLE_MAX_SIZE,
                }
            }),
    {
        self.function_instantiations.get_or_add(IndexPair { fst: handle, snd: type_parameters })
    }

    /// The field-instantiation pool index for (field handle, type
    /// arguments).
    pub fn field_instantiation_index(&mut self, handle: u16, type_parameters: u16) -> (r: Result<
        u16,
        ContextError,
    >)
        requires
            old(self).wf(),
        ensures
            final(self).wf(),
            final(self).extends(old(self)),
            *final(self) == (Context {
                field_instantiations: final(self).field_instantiations,
                ..*old(self)
            }),
            ({
                let p = IndexPair { fst: handle, snd: type_parameters };
                match r {
                    Ok(idx) => (idx as int) < final(self).field_instantiations@.len() && final(self).field_instantiations@[idx as int] == p && (old(self).field_instantiations@.contains(p) ==> final(self).field_instantiations@
                        == old(self).field_instantiations@) && (!old(self).field_instantiations@.contains(p) ==> final(self).field_instantiations@
                        == old(self).field_instantiations@.push(p) && idx as int == old(self).field_instantiations@.len()),
                    Err(e) => e == ContextError::TableOverflow && final(self).field_instantiations@
                        == old(self).field_instantiations@ && !old(self).field_instantiations@.contains(p) && old(self).field_instantiations@.len()
                        >= TABLE_MAX_SIZE,
                }
            }),
    {
        self.field_instantiations.get_or_add(IndexPair { fst: handle, snd: type_parameters })
    }

    /// The temporary code offset for a block label within the function
    /// being compiled: a fresh sequential offset at the label's first use.
    pub fn label_index(&mut self, label: String) -> (r: Result<u16, ContextError>)
        requires
            old(self).wf(),
        ensures
            final(self).wf(),
            final(self).extends(old(self)),
            *final(self) == (Context { labels: final(self).labels, ..*old(self) }),
            match r {
                Ok(idx) => {
                    &&& (old(self).labels@.contains_key(label@) ==> final(self).labels == old(self).labels && idx == old(self).labels@[label@])
                    &&& (!old(self).labels@.contains_key(label@) ==> final(self).labels@ == old(self).labels@.insert(label@, idx) && idx as nat == old(self).labels.spec_len()
                        && final(self).labels.spec_len() == old(self).labels.spec_len() + 1)
                },
                Err(e) => e == ContextError::TableOverflow && final(self).labels == old(self).labels
                    && !old(self).labels@.contains_key(label@) && old(self).labels.spec_len()
                    >= TABLE_MAX_SIZE,
            },
    {
        match self.labels.get(&label) {
            Some(idx) => Ok(*idx),
            None => {
                let n = self.labels.len();
                if n >= TABLE_MAX_SIZE {
                    return Err(ContextError::TableOverflow);
                }
                self.labels.insert(label, n as u16);
                Ok(n as u16)
            },
        }
    }

    /// The identifier pool index for a name, interning it at first use; a
    /// name that is not a well-formed identifier is rejected.
    pub fn identifier_index(&mut self, s: String) -> (r: Result<u16, ContextError>)
        requires
            old(self).wf(),
        ensures
            final(self).wf(),
            final(self).extends(old(self)),
            *final(self) == (Context { identifiers: final(self).identifiers, ..*old(self) }),
            match r {
                Ok(idx) => {
                    &&& valid_identifier(s@)
                    &&& (idx as int) < final(self).identifiers@.len()
                    &&& final(self).identifiers@[idx as int] == s@
                    &&& (old(self).identifiers@.contains(s@) ==> final(self).identifiers@ == old(self).identifiers@)
                    &&& (!old(self).identifiers@.contains(s@) ==> final(self).identifiers@ == old(self).identifiers@.push(s@) && idx as int == old(self).identifiers@.len())
                },
                Err(e) => {
                    &&& final(self).identifiers@ == old(self).identifiers@
                    &&& (e == ContextError::InvalidIdentifier <==> !valid_identifier(s@))
                    &&& (e != ContextError::InvalidIdentifier ==> e == ContextError::TableOverflow
                        && !old(self).identifiers@.contains(s@) && old(self).identifiers@.len()
                        >= TABLE_MAX_SIZE)
                },
            },
    {
        if crate::ast::ident_str(s.as_str()).is_none() {
            return Err(ContextError::InvalidIdentifier);
        }
        self.identifiers.get_or_add(s)
    }

    /// The address pool index for an account address, interning it at
    /// first use.
    pub fn address_index(&mut self, addr: Vec<u8>) -> (r: Result<u16, ContextError>)
        requires
            old(self).wf(),
        ensures
            final(self).wf(),
            final(self).extends(old(self)),
            *final(self) == (Context {
                address_identifiers: final(self).address_identifiers,
                ..*old(self)
            }),
            match r {
                Ok(idx) => {
                    &&& (idx as int) < final(self).address_identifiers@.len()
                    &&& final(self).address_identifiers@[idx as int] == addr@
                    &&& (old(self).address_identifiers@.contains(addr@) ==> final(self).address_identifiers@ == old(self).address_identifiers@)
                    &&& (!old(self).address_identifiers@.contains(addr@) ==> final(self).address_identifiers@ == old(self).address_identifiers@.push(addr@)
                        && idx as int == old(self).address_identifiers@.len())
                },
                Err(e) => e == ContextError::TableOverflow && final(self).address_identifiers@
                    == old(self).address_identifiers@ && !old(self).address_identifiers@.contains(
                    addr@,
                ) && old(self).address_identifiers@.len() >= TABLE_MAX_SIZE,
            },
    {
        self.address_identifiers.get_or_add(addr)
    }

    /// The constant pool index for a constant value, interning it at first
    /// use.
    pub fn constant_index(&mut self, constant: Constant) -> (r: Result<u16, ContextError>)
        requires
            old(self).wf(),
        ensures
            final(self).wf(),
            final(self).extends(old(self)),
            *final(self) == (Context { constant_pool: final(self).constant_pool, ..*old(self) }),
            match r {
                Ok(idx) => {
                    &&& (idx as int) < final(self).constant_pool@.len()
                    &&& final(self).constant_pool@[idx as int] == constant@
                    &&& (old(self).constant_pool@.contains(constant@) ==> final(self).constant_pool@
                        == old(self).constant_pool@)
                    &&& (!old(self).constant_pool@.contains(constant@) ==> final(self).constant_pool@ == old(self).constant_pool@.push(constant@) && idx as int
                        == old(self).constant_pool@.len())
                },
                Err(e) => e == ContextError::TableOverflow && final(self).constant_pool@ == old(self).constant_pool@ && !old(self).constant_pool@.contains(constant@) && old(self).constant_pool@.len() >= TABLE_MAX_SIZE,
            },
    {
        self.constant_pool.get_or_add(constant)
    }

    /// The constant pool index that a named constant was declared with.
    pub fn named_constant_index(&mut self, constant: &String) -> (r: Result<u16, ContextError>)
        requires
            old(self).wf(),
        ensures
            final(self).wf(),
            *final(self) == *old(self),
            match r {
                Ok(idx) => old(self).named_constants@.contains_key(constant@) && idx == old(self).named_constants@[constant@],
                Err(e) => e == ContextError::UnboundDefinition && !old(self).named_constants@.contains_key(constant@),
            },
    {
        match self.named_constants.get(constant) {
            None => Err(ContextError::UnboundDefinition),
            Some(idx) => Ok(*idx),
        }
    }

    /// The signature pool index for a token list, interning it at first
    /// use.
    pub fn signature_index(&mut self, sig: Signature) -> (r: Result<u16, ContextError>)
        requires
            old(self).wf(),
        ensures
            final(self).wf(),
            final(self).extends(old(self)),
            *final(self) == (Context { signatures: final(self).signatures, ..*old(self) }),
            match r {
                Ok(idx) => {
                    &&& (idx as int) < final(self).signatures@.len()
                    &&& final(self).signatures@[idx as int] == sig@
                    &&& (old(self).signatures@.contains(sig@) ==> final(self).signatures@ == old(self).signatures@)
                    &&& (!old(self).signatures@.contains(sig@) ==> final(self).signatures@ == old(self).signatures@.push(sig@) && idx as int == old(self).signatures@.len())
                },
                Err(e) => e == ContextError::TableOverflow && final(self).signatures@ == old(self).signatures@ && !old(self).signatures@.contains(sig@) && old(self).signatures@.len() >= TABLE_MAX_SIZE,
            },
    {
        self.signatures.get_or_add(sig)
    }

    /// Record which function definition is being compiled.
    pub fn set_function_index(&mut self, index: u16)
        requires
            old(self).wf(),
        ensures
            final(self).wf(),
            final(self).current_function_index == index,
            *final(self) == (Context { current_function_index: index, ..*old(self) }),
    {
        self.current_function_index = index;
    }

    /// The function definition currently being compiled.
    pub fn current_function_definition_index(&self) -> (r: u16)
        ensures
            r == self.current_function_index,
    {
        self.current_function_index
    }

    /// The definition index the next struct declaration will receive.
    pub fn current_struct_definition_index(&self) -> (r: u16)
        requires
            self.wf(),
            self.struct_defs.spec_len() < TABLE_MAX_SIZE,
        ensures
            r as nat == self.struct_defs.spec_len(),
    {
        self.struct_defs.len() as u16
    }

    /// The definition index the next enum declaration will receive.
    pub fn current_enum_definition_index(&self) -> (r: u16)
        requires
            self.wf(),
            self.enum_defs.spec_len() < TABLE_MAX_SIZE,
        ensures
            r as nat == self.enum_defs.spec_len(),
    {
        self.enum_defs.len() as u16
    }

    /// Add a friend declaration: intern the friended module's address and
    /// name, and hand back its handle (friend handles are not pooled).
    pub fn declare_friend(&mut self, id: ModuleIdent) -> (r: Result<ModuleHandle, ContextError>)
        requires
            old(self).wf(),
        ensures
            final(self).wf(),
            final(self).extends(old(self)),
            *final(self) == (Context {
                address_identifiers: final(self).address_identifiers,
                identifiers: final(self).identifiers,
                ..*old(self)
            }),
            match r {
                Ok(h) => module_handle_ok(*final(self), h, id@) && valid_identifier(id@.name),
                Err(e) => {
                    ||| (e == ContextError::InvalidIdentifier && !valid_identifier(id@.name))
                    ||| (e == ContextError::TableOverflow && (old(
                        self,
                    ).address_identifiers@.len() >= TABLE_MAX_SIZE || old(self).identifiers@.len()
                        >= TABLE_MAX_SIZE))
                },
            },
    {
        let address = match self.address_index(id.address) {
            Ok(i) => i,
            Err(e) => {
                return Err(e);
            },
        };
        let name = match self.identifier_index(id.name) {
            Ok(i) => i,
            Err(e) => {
                return Err(e);
            },
        };
        Ok(ModuleHandle { address, name })
    }

    /// Register a module import: bind the alias, intern the module's
    /// address, name and handle, and hand back the handle's pool index.
    /// A later import may re-bind an alias; the last binding wins, and the
    /// alias binding survives even a pool overflow on the handle.
    pub fn declare_import(&mut self, id: ModuleIdent, alias: String) -> (r: Result<
        u16,
        ContextError,
    >)
        requires
            old(self).wf(),
        ensures
            final(self).wf(),
            final(self).extends(old(self)),
            *final(self) == (Context {
                aliases: final(self).aliases,
                modules: final(self).modules,
                module_handles: final(self).module_handles,
                address_identifiers: final(self).address_identifiers,
                identifiers: final(self).identifiers,
                ..*old(self)
            }),
            final(self).aliases@ == old(self).aliases@.insert(id@, alias@),
            match r {
                Ok(idx) => {
                    let entry = final(self).modules@[alias@];
                    &&& final(self).modules@.contains_key(alias@)
                    &&& final(self).modules@ == old(self).modules@.insert(alias@, entry)
                    &&& entry.ident == id@
                    &&& module_handle_ok(*final(self), entry.handle, id@)
                    &&& (idx as int) < final(self).module_handles@.len()
                    &&& final(self).module_handles@[idx as int] == pair_of_module_handle(
                        entry.handle,
                    )
                },
                Err(e) => final(self).modules@ == old(self).modules@ && ({
                    ||| (e == ContextError::InvalidIdentifier && !valid_identifier(id@.name))
                    ||| (e == ContextError::TableOverflow && (old(
                        self,
                    ).address_identifiers@.len() >= TABLE_MAX_SIZE || old(self).identifiers@.len()
                        >= TABLE_MAX_SIZE || old(self).module_handles@.len() >= TABLE_MAX_SIZE))
                }),
            },
    {
        self.aliases.insert(id.duplicate(), alias.clone());
        let address = match self.address_index(dup_copy_vec(&id.address)) {
            Ok(i) => i,
            Err(e) => {
                return Err(e);
            },
        };
        let name = match self.identifier_index(id.name.clone()) {
            Ok(i) => i,
            Err(e) => {
                return Err(e);
            },
        };
        let handle = ModuleHandle { address, name };
        let pair = IndexPair { fst: address, snd: name };
        let idx = match self.module_handles.get_or_add(pair) {
            Ok(i) => i,
            Err(e) => {
                return Err(e);
            },
        };
        let ghost pre_modules = self.modules@;
        self.modules.insert(alias, ModuleEntry { ident: id, handle });
        proof {
            assert(self.module_handles@.contains(pair_of_module_handle(handle)));
            assert forall|k: Seq<char>| self.modules@.contains_key(k) implies self
                .module_handles@
                .contains(pair_of_module_handle((#[trigger] self.modules@[k]).handle)) by {
                if k != alias@ {
                    assert(pre_modules.contains_key(k));
                    assert(self.modules@[k] == pre_modules[k]);
                    crate::pool::lemma_prefix_contains(
                        old(self).module_handles@,
                        self.module_handles@,
                        pair_of_module_handle(pre_modules[k].handle),
                    );
                }
            }
        }
        Ok(idx)
    }

    /// Declare a local data type: create its handle from the alias and
    /// name, intern the handle, and record it under its qualified name.
    pub fn declare_data_type_handle_index(
        &mut self,
        sname: QualifiedDataTypeIdent,
        abilities: AbilitySet,
        type_parameters: Vec<DataTypeTyParameter>,
    ) -> (r: Result<u16, ContextError>)
        requires
            old(self).wf(),
        ensures
            final(self).wf(),
            final(self).extends(old(self)),
            *final(self) == (Context {
                structs: final(self).structs,
                data_type_handles: final(self).data_type_handles,
                identifiers: final(self).identifiers,
                ..*old(self)
            }),
            declared_data_type_ensures(*old(self), *final(self), r, sname@, abilities, type_parameters@),
    {
        self.declare_data_type_handle_index_with_abilities(sname, abilities, type_parameters)
    }

    /// As `declare_data_type_handle_index`; also the path a first foreign
    /// type import takes, with the abilities the dependency declared.
    fn declare_data_type_handle_index_with_abilities(
        &mut self,
        sname: QualifiedDataTypeIdent,
        abilities: AbilitySet,
        type_parameters: Vec<DataTypeTyParameter>,
    ) -> (r: Result<u16, ContextError>)
        requires
            old(self).wf(),
        ensures
            final(self).wf(),
            final(self).extends(old(self)),
            *final(self) == (Context {
                structs: final(self).structs,
                data_type_handles: final(self).data_type_handles,
                identifiers: final(self).identifiers,
                ..*old(self)
            }),
            declared_data_type_ensures(*old(self), *final(self), r, sname@, abilities, type_parameters@),
    {
        let ghost snamev = sname@;
        let module = match self.module_handle_index(&sname.module) {
            Ok(i) => i,
            Err(e) => {
                return Err(e);
            },
        };
        let name = match self.identifier_index(sname.name.clone()) {
            Ok(i) => i,
            Err(e) => {
                return Err(e);
            },
        };
        let handle = DataTypeHandle { module, name, abilities, type_parameters };
        let idx = match self.data_type_handles.get_or_add(handle.duplicate()) {
            Ok(i) => i,
            Err(e) => {
                return Err(e);
            },
        };
        let ghost pre_structs = self.structs@;
        self.structs.insert(sname, handle);
        proof {
            assert(self.data_type_handles@.contains(self.structs@[snamev]));
            assert forall|k| self.structs@.contains_key(k) implies self
                .data_type_handles@
                .contains(#[trigger] self.structs@[k]) by {
                if k != snamev {
                    assert(pre_structs.contains_key(k));
                    assert(self.structs@[k] == pre_structs[k]);
                    crate::pool::lemma_prefix_contains(
                        old(self).data_type_handles@,
                        self.data_type_handles@,
                        pre_structs[k],
                    );
                }
            }
        }
        Ok(idx)
    }

    /// Declare a struct definition: the first declaration of a name gets
    /// the next dense index; declaring the same name again returns the
    /// index already assigned.
    pub fn declare_struct_definition_index(&mut self, s: String) -> (r: Result<u16, ContextError>)
        requires
            old(self).wf(),
        ensures
            final(self).wf(),
            final(self).extends(old(self)),
            *final(self) == (Context { struct_defs: final(self).struct_defs, ..*old(self) }),
            match r {
                Ok(idx) => {
                    &&& (old(self).struct_defs@.contains_key(s@) ==> final(self).struct_defs
                        == old(self).struct_defs && idx == old(self).struct_defs@[s@])
                    &&& (!old(self).struct_defs@.contains_key(s@) ==> final(self).struct_defs@
                        == old(self).struct_defs@.insert(s@, idx) && idx as nat == old(self).struct_defs.spec_len() && final(self).struct_defs.spec_len() == old(self).struct_defs.spec_len() + 1)
                },
                Err(e) => e == ContextError::TableOverflow && final(self).struct_defs == old(self).struct_defs && !old(self).struct_defs@.contains_key(s@) && old(self).struct_defs.spec_len() >= TABLE_MAX_SIZE,
            },
    {
        match self.struct_defs.get(&s) {
            Some(idx) => Ok(*idx),
            None => {
                let n = self.struct_defs.len();
                if n >= TABLE_MAX_SIZE {
                    return Err(ContextError::TableOverflow);
                }
                self.struct_defs.insert(s, n as u16);
                Ok(n as u16)
            },
        }
    }

    /// Declare an enum definition, as for structs.
    pub fn declare_enum_definition_index(&mut self, s: String) -> (r: Result<u16, ContextError>)
        requires
            old(self).wf(),
        ensures
            final(self).wf(),
            final(self).extends(old(self)),
            *final(self) == (Context { enum_defs: final(self).enum_defs, ..*old(self) }),
            match r {
                Ok(idx) => {
                    &&& (old(self).enum_defs@.contains_key(s@) ==> final(self).enum_defs == old(self).enum_defs && idx == old(self).enum_defs@[s@])
                    &&& (!old(self).enum_defs@.contains_key(s@) ==> final(self).enum_defs@ == old(self).enum_defs@.insert(s@, idx) && idx as nat == old(self).enum_defs.spec_len()
                        && final(self).enum_defs.spec_len() == old(self).enum_defs.spec_len() + 1)
                },
                Err(e) => e == ContextError::TableOverflow && final(self).enum_defs == old(self).enum_defs && !old(self).enum_defs@.contains_key(s@) && old(self).enum_defs.spec_len() >= TABLE_MAX_SIZE,
            },
    {
        match self.enum_defs.get(&s) {
            Some(idx) => Ok(*idx),
            None => {
                let n = self.enum_defs.len();
                if n >= TABLE_MAX_SIZE {
                    return Err(ContextError::TableOverflow);
                }
                self.enum_defs.insert(s, n as u16);
                Ok(n as u16)
            },
        }
    }

    /// Bind a constant name to the pool index of its value.
    pub fn declare_constant(&mut self, name: String, constant: Constant) -> (r: Result<
        (),
        ContextError,
    >)
        requires
            old(self).wf(),
        ensures
            final(self).wf(),
            final(self).extends(old(self)),
            *final(self) == (Context {
                named_constants: final(self).named_constants,
                constant_pool: final(self).constant_pool,
                ..*old(self)
            }),
            match r {
                Ok(_) => {
                    &&& final(self).named_constants@.contains_key(name@)
                    &&& final(self).named_constants@ == old(self).named_constants@.insert(
                        name@,
                        final(self).named_constants@[name@],
                    )
                    &&& final(self).constant_pool@[final(self).named_constants@[name@] as int]
                        == constant@
                },
                Err(e) => e == ContextError::TableOverflow && final(self).named_constants == old(self).named_constants && old(self).constant_pool@.len() >= TABLE_MAX_SIZE,
            },
    {
        let idx = match self.constant_pool.get_or_add(constant) {
            Ok(i) => i,
            Err(e) => {
                return Err(e);
            },
        };
        let ghost pre = self.named_constants@;
        self.named_constants.insert(name, idx);
        proof {
            assert forall|k: Seq<char>| self.named_constants@.contains_key(k) implies (
            #[trigger] self.named_constants@[k] as int) < self.constant_pool@.len() by {
                if k != name@ {
                    assert(pre.contains_key(k));
                    assert(self.named_constants@[k] == pre[k]);
                }
            }
        }
        Ok(())
    }

    /// Record a field of a declared struct; the first registration of a
    /// member is authoritative and later ones are ignored.
    pub fn declare_field(
        &mut self,
        s: u16,
        sd_idx: u16,
        f: String,
        token: SignatureToken,
        decl_order: usize,
    )
        requires
            old(self).wf(),
        ensures
            final(self).wf(),
            *final(self) == (Context { fields: final(self).fields, ..*old(self) }),
            ({
                let k = crate::ast::MemberKeyV { owner: s, member: f@ };
                &&& (old(self).fields@.contains_key(k) ==> final(self).fields == old(self).fields)
                &&& (!old(self).fields@.contains_key(k) ==> final(self).fields@ == old(self).fields@.insert(
                    k,
                    FieldInfoV { def: sd_idx, token: token@, decl_order },
                ))
            }),
    {
        let key = MemberKey { owner: s, member: f };
        if !self.fields.contains(&key) {
            self.fields.insert(key, FieldInfo { def: sd_idx, token, decl_order });
        }
    }

    /// Record a variant of a declared enum; the first registration of a
    /// member is authoritative and later ones are ignored.
    pub fn declare_variant(&mut self, s: u16, ed_idx: u16, f: String, field_count: usize, tag: usize)
        requires
            old(self).wf(),
        ensures
            final(self).wf(),
            *final(self) == (Context { variants: final(self).variants, ..*old(self) }),
            ({
                let k = crate::ast::MemberKeyV { owner: s, member: f@ };
                &&& (old(self).variants@.contains_key(k) ==> final(self).variants == old(self).variants)
                &&& (!old(self).variants@.contains_key(k) ==> final(self).variants@ == old(self).variants@.insert(k, VariantInfo { def: ed_idx, field_count, tag }))
            }),
    {
        let key = MemberKey { owner: s, member: f };
        if !self.variants.contains(&key) {
            self.variants.insert(key, VariantInfo { def: ed_idx, field_count, tag });
        }
    }

    /// The recorded shape of a field of a local data type.
    pub fn field(&self, s: u16, f: String) -> (r: Result<(u16, SignatureToken, usize), ContextError>)
        requires
            self.wf(),
        ensures
            ({
                let k = crate::ast::MemberKeyV { owner: s, member: f@ };
                match r {
                    Ok(p) => self.fields@.contains_key(k) && p.0 == self.fields@[k].def && p.1@
                        == self.fields@[k].token && p.2 == self.fields@[k].decl_order,
                    Err(e) => e == ContextError::UnboundMember && !self.fields@.contains_key(k),
                }
            }),
    {
        let key = MemberKey { owner: s, member: f };
        match self.fields.get(&key) {
            None => Err(ContextError::UnboundMember),
            Some(info) => Ok((info.def, info.token.duplicate(), info.decl_order)),
        }
    }

    /// The tag of a variant of a local enum.
    pub fn variant(&self, s: u16, f: String) -> (r: Result<usize, ContextError>)
        requires
            self.wf(),
        ensures
            ({
                let k = crate::ast::MemberKeyV { owner: s, member: f@ };
                match r {
                    Ok(tag) => self.variants@.contains_key(k) && tag == self.variants@[k].tag,
                    Err(e) => e == ContextError::UnboundMember && !self.variants@.contains_key(k),
                }
            }),
    {
        let key = MemberKey { owner: s, member: f };
        match self.variants.get(&key) {
            None => Err(ContextError::UnboundMember),
            Some(info) => Ok(info.tag),
        }
    }

    /// The definition index a struct name was declared with.
    pub fn struct_definition_index(&self, s: &String) -> (r: Result<u16, ContextError>)
        requires
            self.wf(),
        ensures
            match r {
                Ok(idx) => self.struct_defs@.contains_key(s@) && idx == self.struct_defs@[s@],
                Err(e) => e == ContextError::UnboundDefinition && !self.struct_defs@.contains_key(
                    s@,
                ),
            },
    {
        match self.struct_defs.get(s) {
            None => Err(ContextError::UnboundDefinition),
            Some(idx) => Ok(*idx),
        }
    }

    /// The definition index an enum name was declared with.
    pub fn enum_definition_index(&self, s: &String) -> (r: Result<u16, ContextError>)
        requires
            self.wf(),
        ensures
            match r {
                Ok(idx) => self.enum_defs@.contains_key(s@) && idx == self.enum_defs@[s@],
                Err(e) => e == ContextError::UnboundDefinition && !self.enum_defs@.contains_key(s@),
            },
    {
        match self.enum_defs.get(s) {
            None => Err(ContextError::UnboundDefinition),
            Some(idx) => Ok(*idx),
        }
    }

    /// Translate the temporary label offsets handed out while compiling
    /// one function into the real code offsets the caller resolved, and
    /// clear the label table for the next function.  Every label that the
    /// caller resolved must have been handed an offset here first.
    pub fn build_index_remapping(&mut self, label_to_index: Table<String, u16>) -> (r: Table<
        u16,
        u16,
    >)
        requires
            old(self).wf(),
            label_to_index.wf(),
            forall|k: Seq<char>|
                #[trigger] label_to_index@.contains_key(k) ==> old(self).labels@.contains_key(k),
        ensures
            final(self).wf(),
            final(self).labels.spec_len() == 0,
            *final(self) == (Context { labels: final(self).labels, ..*old(self) }),
            r.wf(),
            forall|k: Seq<char>|
                #[trigger] label_to_index@.contains_key(k) ==> r@.contains_key(
                    old(self).labels@[k],
                ) && r@[old(self).labels@[k]] == label_to_index@[k],
            forall|j: u16|
                #[trigger] r@.contains_key(j) ==> exists|k: Seq<char>|
                    #[trigger] label_to_index@.contains_key(k) && old(self).labels@[k] == j,
    {
        let mut taken: Table<String, u16> = Table::empty();
        core::mem::swap(&mut taken, &mut self.labels);
        let ghost labels0 = taken@;
        let entries = label_to_index.into_entries();
        let ghost entriesv = entries@;
        let mut out: Table<u16, u16> = Table::empty();
        let n = entries.len();
        let mut i: usize = 0;
        while i < n
            invariant
                taken.wf(),
                taken@ == labels0,
                out.wf(),
                i <= n,
                n == entriesv.len(),
                entries@ == entriesv,
                forall|j: int|
                    0 <= j < n ==> label_to_index@.contains_key((#[trigger] entriesv[j]).0@)
                        && label_to_index@[entriesv[j].0@] == entriesv[j].1@,
                forall|j1: int, j2: int| 0 <= j1 < j2 < n ==> entriesv[j1].0@ != entriesv[j2].0@,
                forall|k: Seq<char>|
                    #[trigger] label_to_index@.contains_key(k) ==> labels0.contains_key(k),
                forall|k1: Seq<char>, k2: Seq<char>|
                    labels0.contains_key(k1) && labels0.contains_key(k2) && k1 != k2
                        ==> #[trigger] labels0[k1] != #[trigger] labels0[k2],
                forall|j: int|
                    0 <= j < i ==> out@.contains_key(labels0[(#[trigger] entriesv[j]).0@])
                        && out@[labels0[entriesv[j].0@]] == entriesv[j].1@,
                forall|x: u16|
                    #[trigger] out@.contains_key(x) ==> exists|j: int|
                        0 <= j < i && labels0[(#[trigger] entriesv[j]).0@] == x,
            decreases n - i,
        {
            let (lbl, actual) = &entries[i];
            let tmp = match taken.get(lbl) {
                Some(t) => *t,
                None => {
                    proof {
                        assert(label_to_index@.contains_key(entriesv[i as int].0@));
                        assert(false);
                    }
                    0
                },
            };
            let ghost pre_out = out@;
            out.insert(tmp, *actual);
            proof {
                assert forall|j: int| 0 <= j < i + 1 implies out@.contains_key(
                    labels0[(#[trigger] entriesv[j]).0@],
                ) && out@[labels0[entriesv[j].0@]] == entriesv[j].1@ by {
                    if j < i {
                        if labels0[entriesv[j].0@] == tmp {
                            assert(label_to_index@.contains_key(entriesv[j].0@));
                            assert(label_to_index@.contains_key(entriesv[i as int].0@));
                            assert(entriesv[j].0@ != entriesv[i as int].0@);
                            assert(labels0[entriesv[j].0@] != labels0[entriesv[i as int].0@]);
                            assert(false);
                        }
                    }
                }
            }
            i += 1;
        }
        out
    }

    /// The alias under which an identity was imported.
    fn module_alias(&self, ident: &ModuleIdent) -> (r: Result<String, ContextError>)
        requires
            self.wf(),
        ensures
            match r {
                Ok(a) => self.aliases@.contains_key(ident@) && a@ == self.aliases@[ident@],
                Err(e) => e == ContextError::UnboundAlias && !self.aliases@.contains_key(ident@),
            },
    {
        match self.aliases.get(ident) {
            None => Err(ContextError::UnboundAlias),
            Some(a) => Ok(a.clone()),
        }
    }

    /// The view of the dependency supplied for an identity.
    fn dependency(&self, m: &ModuleIdent) -> (r: Result<
        &crate::dependency::CompiledDependencyView,
        ContextError,
    >)
        requires
            self.wf(),
        ensures
            match r {
                Ok(v) => self.dependencies@.contains_key(m@) && v@ == self.dependencies@[m@]
                    && dep_wf(v@),
                Err(e) => e == ContextError::DependencyMissing && !self.dependencies@.contains_key(
                    m@,
                ),
            },
    {
        match self.dependencies.get(m) {
            None => Err(ContextError::DependencyMissing),
            Some(dep) => Ok(dep.as_view()),
        }
    }

    /// The shape (abilities and type parameters) that the dependency named
    /// by the qualified name's alias exports for the type.
    fn dep_data_type_handle(&self, s: &QualifiedDataTypeIdent) -> (r: Result<
        (AbilitySet, Vec<DataTypeTyParameter>),
        ContextError,
    >)
        requires
            self.wf(),
        ensures
            match r {
                Ok(p) => {
                    &&& s@.module != self_module_name()
                    &&& self.modules@.contains_key(s@.module)
                    &&& ({
                        let ident = self.modules@[s@.module].ident;
                        let dv = self.dependencies@[ident];
                        let key = dep_type_lookup_key(ident, s@);
                        &&& self.dependencies@.contains_key(ident)
                        &&& dv.structs.contains_key(key)
                        &&& (dv.structs[key] as int) < dv.data_type_pool.len()
                        &&& p.0 == dv.data_type_pool[dv.structs[key] as int].abilities
                        &&& p.1@ == dv.data_type_pool[dv.structs[key] as int].type_parameters
                    })
                },
                Err(e) => {
                    &&& !self.structs@.contains_key(s@) ==> !qualified_resolvable(*self, s@)
                    &&& (e == ContextError::UnboundDefinition <==> (s@.module == self_module_name()
                        || (s@.module != self_module_name() && self.modules@.contains_key(s@.module)
                        && self.dependencies@.contains_key(self.modules@[s@.module].ident)
                        && !self.dependencies@[self.modules@[s@.module].ident].structs.contains_key(
                        dep_type_lookup_key(self.modules@[s@.module].ident, s@),
                    ))))
                    &&& (e == ContextError::UnboundAlias <==> (s@.module != self_module_name()
                        && !self.modules@.contains_key(s@.module)))
                    &&& (e == ContextError::DependencyMissing <==> (s@.module != self_module_name()
                        && self.modules@.contains_key(s@.module)
                        && !self.dependencies@.contains_key(self.modules@[s@.module].ident)))
                },
            },
    {
        let self_name: String = "Self".to_owned();
        if s.module == self_name {
            return Err(ContextError::UnboundDefinition);
        }
        let mident = match self.module_ident(&s.module) {
            Ok(id) => id,
            Err(_) => {
                return Err(ContextError::UnboundAlias);
            },
        };
        let dep = match self.dependency(&mident) {
            Ok(d) => d,
            Err(e) => {
                return Err(e);
            },
        };
        match dep.data_type_handle(&mident.name, &s.name) {
            None => Err(ContextError::UnboundDefinition),
            Some(shandle) => {
                let p = (shandle.abilities, shandle.type_parameters.clone());
                proof {
                    assert(p.1@ =~= shandle.type_parameters@);
                }
                Ok(p)
            },
        }
    }

    /// The local handle index of a qualified type name: the index already
    /// interned for it, or — the first time a type of a dependency is
    /// looked up — the index of a freshly created local handle copying the
    /// shape the dependency exports.
    pub fn data_type_handle_index(&mut self, s: QualifiedDataTypeIdent) -> (r: Result<
        u16,
        ContextError,
    >)
        requires
            old(self).wf(),
        ensures
            final(self).wf(),
            final(self).extends(old(self)),
            *final(self) == (Context {
                structs: final(self).structs,
                data_type_handles: final(self).data_type_handles,
                identifiers: final(self).identifiers,
                ..*old(self)
            }),
            grows_preserving(*old(self), *final(self)),
            match r {
                Ok(idx) => {
                    &&& final(self).structs@.contains_key(s@)
                    &&& (idx as int) < final(self).data_type_handles@.len()
                    &&& final(self).data_type_handles@[idx as int] == final(self).structs@[s@]
                    &&& (old(self).structs@.contains_key(s@) ==> *final(self) == *old(self))
                    &&& (!old(self).structs@.contains_key(s@) ==> imported_shape_ok(
                        *old(self),
                        *final(self),
                        s@,
                    ) && ({
                        let h = final(self).structs@[s@];
                        &&& (h.name as int) < final(self).identifiers@.len()
                        &&& final(self).identifiers@[h.name as int] == s@.name
                        &&& (h.module as int) < final(self).module_handles@.len()
                        &&& final(self).module_handles@[h.module as int] == pair_of_module_handle(
                            old(self).modules@[s@.module].handle,
                        )
                    }))
                },
                Err(e) => {
                    &&& !old(self).structs@.contains_key(s@)
                    &&& ({
                        ||| (e == ContextError::TableOverflow && (old(self).identifiers@.len()
                            >= TABLE_MAX_SIZE || old(self).data_type_handles@.len()
                            >= TABLE_MAX_SIZE))
                        ||| (*final(self) == *old(self) && !qualified_resolvable(*old(self), s@)
                            && (e == ContextError::UnboundAlias <==> s@.module
                            != self_module_name() && !old(self).modules@.contains_key(s@.module))
                            && (e == ContextError::DependencyMissing <==> s@.module
                            != self_module_name() && old(self).modules@.contains_key(s@.module)
                            && !old(self).dependencies@.contains_key(
                            old(self).modules@[s@.module].ident,
                        )) && (e == ContextError::UnboundDefinition <==> s@.module
                            == self_module_name() || (s@.module != self_module_name() && old(
                            self,
                        ).modules@.contains_key(s@.module) && old(self).dependencies@.contains_key(
                            old(self).modules@[s@.module].ident,
                        ) && !old(self).dependencies@[old(self).modules@[s@.module].ident].structs.contains_key(
                            dep_type_lookup_key(old(self).modules@[s@.module].ident, s@),
                        ))))
                    })
                },
            },
    {
        let found = match self.structs.get(&s) {
            Some(sh) => Some(sh.duplicate()),
            None => None,
        };
        match found {
            Some(sh) => {
                match self.data_type_handles.index_of(&sh) {
                    Some(idx) => Ok(idx),
                    None => {
                        proof {
                            assert(self.data_type_handles@.contains(self.structs@[s@]));
                            assert(false);
                        }
                        Err(ContextError::UnboundDefinition)
                    },
                }
            },
            None => {
                let (abilities, type_parameters) = match self.dep_data_type_handle(&s) {
                    Ok(p) => p,
                    Err(e) => {
                        return Err(e);
                    },
                };
                self.declare_data_type_handle_index_with_abilities(s, abilities, type_parameters)
            },
        }
    }

    /// Translate one token of a signature exported by the dependency so
    /// that every named-type leaf points at a local handle, importing each
    /// such type on first sight.  Primitives and type parameters pass
    /// through; vectors and references recurse into their inner token.
    fn reindex_signature_token(&mut self, dep: &ModuleIdent, orig: &SignatureToken) -> (r: Result<
        SignatureToken,
        ContextError,
    >)
        requires
            old(self).wf(),
        ensures
            final(self).wf(),
            final(self).extends(old(self)),
            *final(self) == (Context {
                structs: final(self).structs,
                data_type_handles: final(self).data_type_handles,
                identifiers: final(self).identifiers,
                ..*old(self)
            }),
            grows_preserving(*old(self), *final(self)),
            match r {
                Ok(t) => reindexed_token(
                    old(self).dependencies@[dep@],
                    *final(self),
                    orig@,
                    t@,
                ),
                Err(e) => {
                    &&& ((e == ContextError::TableOverflow && pools_at_limit(*final(self))) || !old(
                        self,
                    ).dependencies@.contains_key(dep@) || !token_resolvable(
                        *old(self),
                        old(self).dependencies@[dep@],
                        orig@,
                    ))
                    &&& (e == ContextError::DependencyMalformed ==> old(
                        self,
                    ).dependencies@.contains_key(dep@) && !token_leaves_in_range(
                        old(self).dependencies@[dep@],
                        orig@,
                    ))
                },
            },
        decreases *orig,
    {
        match orig {
            SignatureToken::Bool => Ok(SignatureToken::Bool),
            SignatureToken::U8 => Ok(SignatureToken::U8),
            SignatureToken::U16 => Ok(SignatureToken::U16),
            SignatureToken::U32 => Ok(SignatureToken::U32),
            SignatureToken::U64 => Ok(SignatureToken::U64),
            SignatureToken::U128 => Ok(SignatureToken::U128),
            SignatureToken::U256 => Ok(SignatureToken::U256),
            SignatureToken::Address => Ok(SignatureToken::Address),
            SignatureToken::Signer => Ok(SignatureToken::Signer),
            SignatureToken::TypeParameter(i) => Ok(SignatureToken::TypeParameter(*i)),
            SignatureToken::Vector(inner) => {
                match self.reindex_signature_token(dep, &**inner) {
                    Ok(t) => Ok(SignatureToken::Vector(Box::new(t))),
                    Err(e) => Err(e),
                }
            },
            SignatureToken::Reference(inner) => {
                match self.reindex_signature_token(dep, &**inner) {
                    Ok(t) => Ok(SignatureToken::Reference(Box::new(t))),
                    Err(e) => Err(e),
                }
            },
            SignatureToken::MutableReference(inner) => {
                match self.reindex_signature_token(dep, &**inner) {
                    Ok(t) => Ok(SignatureToken::MutableReference(Box::new(t))),
                    Err(e) => Err(e),
                }
            },
            SignatureToken::DataType(orig_sh_idx) => {
                match self.reindex_datatype_leaf(dep, *orig_sh_idx) {
                    Ok(j) => Ok(SignatureToken::DataType(j)),
                    Err(e) => Err(e),
                }
            },
            SignatureToken::DataTypeInstantiation(orig_sh_idx, inners) => {
                let ghost pre = *self;
                proof {
                    assert(orig@ == Token::DataTypeInstantiation(
                        *orig_sh_idx,
                        tokens_view(inners@),
                    ));
                }
                let j = match self.reindex_datatype_leaf(dep, *orig_sh_idx) {
                    Ok(j) => j,
                    Err(e) => {
                        return Err(e);
                    },
                };
                let ghost mid = *self;
                let correct_inners = match self.reindex_tokens(dep, inners) {
                    Ok(ts) => ts,
                    Err(e) => {
                        proof {
                            if e == ContextError::DependencyMalformed
                                && pre.dependencies@.contains_key(dep@) {
                                let d = pre.dependencies@[dep@];
                                if tokens_all_in_range(d, tokens_view(inners@)) {
                                    lemma_tokens_all_in_range(d, tokens_view(inners@));
                                    assert(false);
                                }
                            }
                            if pre.dependencies@.contains_key(dep@) && token_resolvable(
                                pre,
                                pre.dependencies@[dep@],
                                orig@,
                            ) {
                                let d = pre.dependencies@[dep@];
                                lemma_resolvable_args(pre, d, *orig_sh_idx, tokens_view(inners@));
                                assert forall|k: int|
                                    0 <= k < tokens_view(inners@).len() implies token_resolvable(
                                    mid,
                                    d,
                                    #[trigger] tokens_view(inners@)[k],
                                ) by {
                                    crate::ast::lemma_tokens_view(inners@);
                                    assert(token_resolvable(pre, d, tokens_view(inners@)[k]));
                                    lemma_token_resolvable_mono(d, pre, mid, tokens_view(inners@)[k]);
                                }
                                assert(e == ContextError::TableOverflow && pools_at_limit(*self));
                            }
                        }
                        return Err(e);
                    },
                };
                proof {
                    let d = pre.dependencies@[dep@];
                    lemma_growth_trans(pre, mid, *self);
                    lemma_leaf_ok_mono(d, mid, *self, *orig_sh_idx, j);
                    crate::ast::lemma_tokens_view(inners@);
                    assert(mid.dependencies@ == pre.dependencies@);
                }
                Ok(SignatureToken::DataTypeInstantiation(j, correct_inners))
            },
        }
    }

    /// Resolve one foreign named-type index to the local handle index of
    /// the same type.
    fn reindex_datatype_leaf(&mut self, dep: &ModuleIdent, orig_sh_idx: u16) -> (r: Result<
        u16,
        ContextError,
    >)
        requires
            old(self).wf(),
        ensures
            final(self).wf(),
            final(self).extends(old(self)),
            *final(self) == (Context {
                structs: final(self).structs,
                data_type_handles: final(self).data_type_handles,
                identifiers: final(self).identifiers,
                ..*old(self)
            }),
            grows_preserving(*old(self), *final(self)),
            match r {
                Ok(j) => datatype_leaf_ok(
                    old(self).dependencies@[dep@],
                    *final(self),
                    orig_sh_idx,
                    j,
                ),
                Err(e) => {
                    &&& ((e == ContextError::TableOverflow && pools_at_limit(*final(self))) || !old(
                        self,
                    ).dependencies@.contains_key(dep@) || !leaf_resolvable(
                        *old(self),
                        old(self).dependencies@[dep@],
                        orig_sh_idx,
                    ))
                    &&& (e == ContextError::DependencyMalformed <==> old(
                        self,
                    ).dependencies@.contains_key(dep@) && (orig_sh_idx as int) >= old(
                        self,
                    ).dependencies@[dep@].data_type_pool.len())
                },
            },
    {
        let info = {
            let dep_info = match self.dependency(dep) {
                Ok(d) => d,
                Err(e) => {
                    return Err(e);
                },
            };
            dep_info.source_struct_info(orig_sh_idx)
        };
        let (mident, sname) = match info {
            Some(p) => p,
            None => {
                return Err(ContextError::DependencyMalformed);
            },
        };
        let ghost d = old(self).dependencies@[dep@];
        let ghost mi = mident@;
        let ghost sn = sname@;
        proof {
            assert(mi == crate::dependency::source_info(d, orig_sh_idx as int).0);
            assert(sn == crate::dependency::source_info(d, orig_sh_idx as int).1);
        }
        let module_name = match self.module_alias(&mident) {
            Ok(a) => a,
            Err(e) => {
                return Err(e);
            },
        };
        let sident = QualifiedDataTypeIdent { module: module_name, name: sname };
        let ghost sidentv = sident@;
        proof {
            assert(sidentv == QualifiedDataTypeIdentV {
                module: old(self).aliases@[mi],
                name: sn,
            });
        }
        match self.data_type_handle_index(sident) {
            Ok(j) => {
                proof {
                    assert(self.aliases@ == old(self).aliases@);
                    assert(self.aliases@.contains_key(mi));
                    assert(self.structs@.contains_key(sidentv));
                }
                Ok(j)
            },
            Err(e) => {
                proof {
                    if e != ContextError::TableOverflow {
                        assert(!qualified_resolvable(*old(self), sidentv));
                        assert(!leaf_resolvable(*old(self), d, orig_sh_idx));
                    }
                }
                Err(e)
            },
        }
    }

    /// Re-index each token of a list, left to right.
    fn reindex_tokens(&mut self, dep: &ModuleIdent, origs: &Vec<SignatureToken>) -> (r: Result<
        Vec<SignatureToken>,
        ContextError,
    >)
        requires
            old(self).wf(),
        ensures
            final(self).wf(),
            final(self).extends(old(self)),
            *final(self) == (Context {
                structs: final(self).structs,
                data_type_handles: final(self).data_type_handles,
                identifiers: final(self).identifiers,
                ..*old(self)
            }),
            grows_preserving(*old(self), *final(self)),
            match r {
                Ok(ts) => tokens_reindexed(
                    old(self).dependencies@[dep@],
                    *final(self),
                    tokens_view(origs@),
                    tokens_view(ts@),
                ),
                Err(e) => {
                    &&& ((e == ContextError::TableOverflow && pools_at_limit(*final(self)))
                        || !old(self).dependencies@.contains_key(dep@) || exists|k: int|
                        0 <= k < tokens_view(origs@).len() && !token_resolvable(
                            *old(self),
                            old(self).dependencies@[dep@],
                            #[trigger] tokens_view(origs@)[k],
                        ))
                    &&& (e == ContextError::DependencyMalformed ==> old(
                        self,
                    ).dependencies@.contains_key(dep@) && exists|k: int|
                        0 <= k < tokens_view(origs@).len() && !token_leaves_in_range(
                            old(self).dependencies@[dep@],
                            #[trigger] tokens_view(origs@)[k],
                        ))
                },
            },
        decreases origs@,
    {
        proof {
            crate::ast::lemma_tokens_view(origs@);
        }
        let ghost start = *self;
        let ghost d = start.dependencies@[dep@];
        let mut out: Vec<SignatureToken> = Vec::new();
        let n = origs.len();
        let mut i: usize = 0;
        while i < n
            invariant
                start == *old(self),
                self.wf(),
                i <= n,
                n == origs@.len(),
                out@.len() == i,
                self.extends(&start),
                *self == (Context {
                    structs: self.structs,
                    data_type_handles: self.data_type_handles,
                    identifiers: self.identifiers,
                    ..start
                }),
                grows_preserving(start, *self),
                d == start.dependencies@[dep@],
                tokens_view(origs@).len() == n,
                forall|k: int| 0 <= k < n ==> tokens_view(origs@)[k] == crate::ast::token_view(origs@[k]),
                forall|k: int|
                    0 <= k < i ==> reindexed_token(
                        d,
                        *self,
                        tokens_view(origs@)[k],
                        (#[trigger] out@[k])@,
                    ),
            decreases n - i,
        {
            let ghost pre_iter = *self;
            let t = match self.reindex_signature_token(dep, &origs[i]) {
                Ok(t) => t,
                Err(e) => {
                    proof {
                        lemma_growth_trans(start, pre_iter, *self);
                        if start.dependencies@.contains_key(dep@) && token_resolvable(
                            start,
                            d,
                            tokens_view(origs@)[i as int],
                        ) {
                            lemma_token_resolvable_mono(
                                d,
                                start,
                                pre_iter,
                                tokens_view(origs@)[i as int],
                            );
                            assert(e == ContextError::TableOverflow && pools_at_limit(*self));
                        }
                    }
                    return Err(e);
                },
            };
            proof {
                assert forall|k: int| 0 <= k < i implies reindexed_token(
                    d,
                    *self,
                    tokens_view(origs@)[k],
                    (#[trigger] out@[k])@,
                ) by {
                    lemma_reindexed_token_mono(
                        d,
                        pre_iter,
                        *self,
                        tokens_view(origs@)[k],
                        out@[k]@,
                    );
                }
            }
            proof {
                lemma_growth_trans(start, pre_iter, *self);
            }
            out.push(t);
            i += 1;
        }
        proof {
            crate::ast::lemma_tokens_view(out@);
        }
        Ok(out)
    }

    /// Declare a function under (module alias, name): intern its name and
    /// its parameter and return signatures, record the signature, and bind
    /// the pair to a handle index.  The first declaration of a pair gets
    /// the next sequential index; a repeated declaration keeps the index
    /// already assigned, while the stored handle and signature are
    /// overwritten with the new ones.
    pub fn declare_function(
        &mut self,
        mname: String,
        fname: String,
        signature: FunctionSignature,
    ) -> (r: Result<(), ContextError>)
        requires
            old(self).wf(),
        ensures
            final(self).wf(),
            final(self).extends(old(self)),
            *final(self) == (Context {
                identifiers: final(self).identifiers,
                signatures: final(self).signatures,
                function_handles: final(self).function_handles,
                function_handle_vec: final(self).function_handle_vec,
                function_signatures: final(self).function_signatures,
                ..*old(self)
            }),
            ({
                let k = crate::ast::FunctionKeyV { module: mname@, name: fname@ };
                match r {
                    Ok(_) => {
                        let hidx = final(self).function_handles@[k];
                        let h = final(self).function_handle_vec@[hidx as int]@;
                        &&& final(self).function_handles@.contains_key(k)
                        &&& final(self).function_handles@ == old(self).function_handles@.insert(
                            k,
                            hidx,
                        )
                        &&& (old(self).function_handles@.contains_key(k) ==> hidx == old(self).function_handles@[k] && final(self).function_handle_vec@.len() == old(self).function_handle_vec@.len())
                        &&& (!old(self).function_handles@.contains_key(k) ==> hidx as int == old(self).function_handle_vec@.len() && final(self).function_handle_vec@.len()
                            == old(self).function_handle_vec@.len() + 1)
                        &&& forall|x: int|
                            0 <= x < old(self).function_handle_vec@.len() && x != hidx as int
                                ==> final(self).function_handle_vec@[x] == old(self).function_handle_vec@[x]
                        &&& final(self).function_signatures@ == old(self).function_signatures@.insert(k, signature@)
                        &&& h.type_parameters == signature@.type_parameters
                        &&& (h.parameters as int) < final(self).signatures@.len()
                        &&& final(self).signatures@[h.parameters as int] == signature@.parameters
                        &&& (h.return_ as int) < final(self).signatures@.len()
                        &&& final(self).signatures@[h.return_ as int] == signature@.return_
                        &&& (h.name as int) < final(self).identifiers@.len()
                        &&& final(self).identifiers@[h.name as int] == fname@
                        &&& valid_identifier(fname@)
                        &&& old(self).modules@.contains_key(mname@)
                        &&& (h.module as int) < final(self).module_handles@.len()
                        &&& final(self).module_handles@[h.module as int] == pair_of_module_handle(
                            old(self).modules@[mname@].handle,
                        )
                    },
                    Err(e) => {
                        &&& final(self).function_handles@ == old(self).function_handles@
                        &&& final(self).function_signatures@ == old(self).function_signatures@
                        &&& final(self).function_handle_vec@ == old(self).function_handle_vec@
                        &&& (e == ContextError::UnboundAlias <==> !old(self).modules@.contains_key(mname@))
                        &&& (e == ContextError::InvalidIdentifier <==> old(
                            self,
                        ).modules@.contains_key(mname@) && !valid_identifier(fname@))
                        &&& (e != ContextError::UnboundAlias && e != ContextError::InvalidIdentifier
                            ==> e == ContextError::TableOverflow && ({
                            ||| (!old(self).identifiers@.contains(fname@) && old(
                                self,
                            ).identifiers@.len() >= TABLE_MAX_SIZE)
                            ||| (!old(self).signatures@.contains(signature@.parameters) && old(
                                self,
                            ).signatures@.len() >= TABLE_MAX_SIZE)
                            ||| (!interned(old(self).signatures@, signature@.parameters).contains(
                                signature@.return_,
                            ) && interned(old(self).signatures@, signature@.parameters).len()
                                >= TABLE_MAX_SIZE)
                            ||| (!old(self).function_handles@.contains_key(k) && old(
                                self,
                            ).function_handle_vec@.len() >= TABLE_MAX_SIZE)
                        }))
                    },
                }
            }),
    {
        let m_f = FunctionKey { module: mname.clone(), name: fname.clone() };
        let ghost k = m_f@;
        let module = match self.module_handle_index(&mname) {
            Ok(i) => i,
            Err(e) => {
                return Err(e);
            },
        };
        let name = match self.identifier_index(fname.clone()) {
            Ok(i) => i,
            Err(e) => {
                return Err(e);
            },
        };
        let sig_copy = signature.duplicate();
        let FunctionSignature { parameters, return_, type_parameters } = signature;
        let params_idx = match self.signature_index(Signature(parameters)) {
            Ok(i) => i,
            Err(e) => {
                return Err(e);
            },
        };
        let return_idx = match self.signature_index(Signature(return_)) {
            Ok(i) => i,
            Err(e) => {
                return Err(e);
            },
        };
        let existing = match self.function_handles.get(&m_f) {
            Some(i) => Some(*i),
            None => None,
        };
        let hidx: usize = match existing {
            Some(i) => i as usize,
            None => self.function_handle_vec.len(),
        };
        if hidx >= TABLE_MAX_SIZE {
            return Err(ContextError::TableOverflow);
        }
        let handle = FunctionHandle {
            module,
            name,
            parameters: params_idx,
            return_: return_idx,
            type_parameters,
        };
        self.function_signatures.insert(m_f, sig_copy);
        match existing {
            Some(_) => {
                self.function_handle_vec[hidx] = handle;
            },
            None => {
                self.function_handle_vec.push(handle);
            },
        }
        let m_f2 = FunctionKey { module: mname, name: fname };
        let ghost pre_fh = self.function_handles@;
        self.function_handles.insert(m_f2, hidx as u16);
        proof {
            assert forall|k1: crate::ast::FunctionKeyV, k2: crate::ast::FunctionKeyV|
                self.function_handles@.contains_key(k1) && self.function_handles@.contains_key(k2)
                    && k1 != k2 implies #[trigger] self.function_handles@[k1]
                != #[trigger] self.function_handles@[k2] by {
                if k1 != k && k2 != k {
                    assert(pre_fh.contains_key(k1) && pre_fh.contains_key(k2));
                }
            }
        }
        Ok(())
    }

    /// The re-indexed signature of a function the dependency defines:
    /// every token of its parameter and return lists translated into local
    /// pool indices; the type-parameter constraints pass through.
    fn reindex_function_signature(&mut self, dep: &ModuleIdent, orig: FunctionSignature) -> (r:
        Result<FunctionSignature, ContextError>)
        requires
            old(self).wf(),
        ensures
            final(self).wf(),
            final(self).extends(old(self)),
            *final(self) == (Context {
                structs: final(self).structs,
                data_type_handles: final(self).data_type_handles,
                identifiers: final(self).identifiers,
                ..*old(self)
            }),
            grows_preserving(*old(self), *final(self)),
            match r {
                Ok(sig) => {
                    let d = old(self).dependencies@[dep@];
                    &&& tokens_reindexed(d, *final(self), orig@.parameters, sig@.parameters)
                    &&& tokens_reindexed(d, *final(self), orig@.return_, sig@.return_)
                    &&& sig@.type_parameters == orig@.type_parameters
                },
                Err(e) => {
                    &&& ((e == ContextError::TableOverflow && pools_at_limit(*final(self)))
                        || !old(self).dependencies@.contains_key(dep@) || (exists|k: int|
                        0 <= k < orig@.parameters.len() && !token_resolvable(
                            *old(self),
                            old(self).dependencies@[dep@],
                            #[trigger] orig@.parameters[k],
                        )) || (exists|k: int|
                        0 <= k < orig@.return_.len() && !token_resolvable(
                            *old(self),
                            old(self).dependencies@[dep@],
                            #[trigger] orig@.return_[k],
                        )))
                    &&& (e == ContextError::DependencyMalformed ==> old(
                        self,
                    ).dependencies@.contains_key(dep@) && ((exists|k: int|
                        0 <= k < orig@.parameters.len() && !token_leaves_in_range(
                            old(self).dependencies@[dep@],
                            #[trigger] orig@.parameters[k],
                        )) || (exists|k: int|
                        0 <= k < orig@.return_.len() && !token_leaves_in_range(
                            old(self).dependencies@[dep@],
                            #[trigger] orig@.return_[k],
                        ))))
                },
            },
    {
        let ghost pre = *self;
        let return_ = match self.reindex_tokens(dep, &orig.return_) {
            Ok(ts) => ts,
            Err(e) => {
                return Err(e);
            },
        };
        let ghost mid = *self;
        let parameters = match self.reindex_tokens(dep, &orig.parameters) {
            Ok(ts) => ts,
            Err(e) => {
                proof {
                    lemma_growth_trans(pre, mid, *self);
                    if pre.dependencies@.contains_key(dep@) {
                        let d = pre.dependencies@[dep@];
                        if forall|k: int|
                            0 <= k < orig@.parameters.len() ==> token_resolvable(
                                pre,
                                d,
                                #[trigger] orig@.parameters[k],
                            ) {
                            assert forall|k: int|
                                0 <= k < orig@.parameters.len() implies token_resolvable(
                                mid,
                                d,
                                #[trigger] orig@.parameters[k],
                            ) by {
                                lemma_token_resolvable_mono(d, pre, mid, orig@.parameters[k]);
                            }
                            assert(e == ContextError::TableOverflow && pools_at_limit(*self));
                        }
                    }
                }
                return Err(e);
            },
        };
        let type_parameters = orig.type_parameters;
        let sig = FunctionSignature { return_, parameters, type_parameters };
        proof {
            lemma_growth_trans(pre, mid, *self);
            let d = pre.dependencies@[dep@];
            assert forall|k: int| 0 <= k < orig@.return_.len() implies reindexed_token(
                d,
                *self,
                orig@.return_[k],
                #[trigger] sig@.return_[k],
            ) by {
                lemma_reindexed_token_mono(d, mid, *self, orig@.return_[k], sig@.return_[k]);
            }
            assert(sig@.type_parameters =~= orig@.type_parameters);
        }
        Ok(sig)
    }

    /// The signature the dependency behind a module alias exports for a
    /// function name, re-indexed into local pool indices.
    fn dep_function_signature(&mut self, m: &String, f: &String) -> (r: Result<
        FunctionSignature,
        ContextError,
    >)
        requires
            old(self).wf(),
        ensures
            final(self).wf(),
            final(self).extends(old(self)),
            *final(self) == (Context {
                structs: final(self).structs,
                data_type_handles: final(self).data_type_handles,
                identifiers: final(self).identifiers,
                ..*old(self)
            }),
            grows_preserving(*old(self), *final(self)),
            match r {
                Ok(sig) => {
                    &&& m@ != self_module_name()
                    &&& old(self).modules@.contains_key(m@)
                    &&& ({
                        let ident = old(self).modules@[m@].ident;
                        let d = old(self).dependencies@[ident];
                        &&& old(self).dependencies@.contains_key(ident)
                        &&& d.functions.contains_key(f@)
                        &&& ({
                            let fh = d.function_pool[d.functions[f@] as int];
                            &&& tokens_reindexed(
                                d,
                                *final(self),
                                d.signature_pool[fh.parameters as int],
                                sig@.parameters,
                            )
                            &&& tokens_reindexed(
                                d,
                                *final(self),
                                d.signature_pool[fh.return_ as int],
                                sig@.return_,
                            )
                            &&& sig@.type_parameters == fh.type_parameters
                        })
                    })
                },
                Err(e) => {
                    ||| (e == ContextError::UnboundDefinition && m@ == self_module_name())
                    ||| (e == ContextError::UnboundAlias && m@ != self_module_name() && !old(self).modules@.contains_key(m@))
                    ||| (m@ != self_module_name() && old(self).modules@.contains_key(m@) && ({
                        let ident = old(self).modules@[m@].ident;
                        let d = old(self).dependencies@[ident];
                        ||| (e == ContextError::DependencyMissing && !old(self).dependencies@.contains_key(ident))
                        ||| (old(self).dependencies@.contains_key(ident) && ({
                            let fh = d.function_pool[d.functions[f@] as int];
                            ||| (e == ContextError::UnboundDefinition && !d.functions.contains_key(
                                f@,
                            ))
                            ||| (d.functions.contains_key(f@) && ((e
                                == ContextError::TableOverflow && pools_at_limit(*final(self)))
                                || (e == ContextError::DependencyMalformed && ((exists|k: int|
                                0 <= k < d.signature_pool[fh.parameters as int].len()
                                    && !token_leaves_in_range(
                                    d,
                                    #[trigger] d.signature_pool[fh.parameters as int][k],
                                )) || (exists|k: int|
                                0 <= k < d.signature_pool[fh.return_ as int].len()
                                    && !token_leaves_in_range(
                                    d,
                                    #[trigger] d.signature_pool[fh.return_ as int][k],
                                )))) || (exists|k: int|
                                0 <= k < d.signature_pool[fh.parameters as int].len()
                                    && !token_resolvable(
                                    *old(self),
                                    d,
                                    #[trigger] d.signature_pool[fh.parameters as int][k],
                                )) || (exists|k: int|
                                0 <= k < d.signature_pool[fh.return_ as int].len()
                                    && !token_resolvable(
                                    *old(self),
                                    d,
                                    #[trigger] d.signature_pool[fh.return_ as int][k],
                                ))))
                        }))
                    }))
                },
            },
    {
        let self_name: String = "Self".to_owned();
        if *m == self_name {
            return Err(ContextError::UnboundDefinition);
        }
        let mident = match self.module_ident(m) {
            Ok(id) => id,
            Err(e) => {
                return Err(e);
            },
        };
        let sig = {
            let dep = match self.dependency(&mident) {
                Ok(d) => d,
                Err(e) => {
                    return Err(e);
                },
            };
            match dep.function_signature(f) {
                None => {
                    return Err(ContextError::UnboundDefinition);
                },
                Some(sig) => sig,
            }
        };
        self.reindex_function_signature(&mident, sig)
    }

    /// Make sure (module alias, name) has a declared handle, importing the
    /// function's signature from the dependency at its first use.
    fn ensure_function_declared(&mut self, m: String, f: String) -> (r: Result<(), ContextError>)
        requires
            old(self).wf(),
        ensures
            final(self).wf(),
            final(self).extends(old(self)),
            *final(self) == (Context {
                structs: final(self).structs,
                data_type_handles: final(self).data_type_handles,
                identifiers: final(self).identifiers,
                signatures: final(self).signatures,
                function_handles: final(self).function_handles,
                function_handle_vec: final(self).function_handle_vec,
                function_signatures: final(self).function_signatures,
                ..*old(self)
            }),
            ({
                let k = crate::ast::FunctionKeyV { module: m@, name: f@ };
                match r {
                    Ok(_) => {
                        &&& final(self).function_handles@.contains_key(k)
                        &&& (old(self).function_handles@.contains_key(k) ==> *final(self) == *old(self) && final(self).function_handles@[k] == old(self).function_handles@[k])
                        &&& (!old(self).function_handles@.contains_key(k) ==> first_import_ok(
                            *old(self),
                            *final(self),
                            m@,
                            f@,
                        ))
                    },
                    Err(e) => final(self).function_handles@ == old(self).function_handles@
                        && final(self).function_signatures@ == old(self).function_signatures@
                        && final(self).function_handle_vec@ == old(self).function_handle_vec@
                        && !old(self).function_handles@.contains_key(k) && function_import_err(
                        *old(self),
                        *final(self),
                        m@,
                        f@,
                        e,
                    ),
                }
            }),
    {
        let m_f = FunctionKey { module: m.clone(), name: f.clone() };
        if self.function_handles.contains(&m_f) {
            return Ok(());
        }
        let sig = match self.dep_function_signature(&m, &f) {
            Ok(s) => s,
            Err(e) => {
                return Err(e);
            },
        };
        let ghost mid = *self;
        let ghost sigv = sig@;
        match self.declare_function(m, f, sig) {
            Ok(_) => {
                proof {
                    let k = crate::ast::FunctionKeyV { module: m@, name: f@ };
                    let ident = old(self).modules@[m@].ident;
                    let d = old(self).dependencies@[ident];
                    let fh = d.function_pool[d.functions[f@] as int];
                    assert(self.structs == mid.structs && self.aliases == mid.aliases
                        && self.modules == mid.modules && self.dependencies == mid.dependencies
                        && self.data_type_handles == mid.data_type_handles);
                    assert(mid.data_type_handles@ =~= self.data_type_handles@.subrange(
                        0,
                        mid.data_type_handles@.len() as int,
                    ));
                    assert(grows_preserving(mid, *self));
                    lemma_tokens_reindexed_mono(
                        d,
                        mid,
                        *self,
                        d.signature_pool[fh.parameters as int],
                        sigv.parameters,
                    );
                    lemma_tokens_reindexed_mono(
                        d,
                        mid,
                        *self,
                        d.signature_pool[fh.return_ as int],
                        sigv.return_,
                    );
                    let hidx = self.function_handles@[k];
                    let h = self.function_handle_vec@[hidx as int]@;
                    assert(self.signatures@[h.parameters as int] == sigv.parameters);
                    assert(self.signatures@[h.return_ as int] == sigv.return_);
                }
                Ok(())
            },
            Err(e) => {
                proof {
                    let ident = old(self).modules@[m@].ident;
                    let d = old(self).dependencies@[ident];
                    assert(dep_wf(d));
                    assert(d.functions.contains_key(f@));
                    assert(valid_identifier(f@));
                    assert(mid.identifiers@.len() <= self.identifiers@.len());
                    assert(mid.signatures@.len() <= self.signatures@.len());
                    assert(mid.function_handle_vec@ == old(self).function_handle_vec@);
                }
                Err(e)
            },
        }
    }

    /// The handle and handle index declared for (module alias, name),
    /// importing the function from the dependency at its first use.
    pub fn function_handle(&mut self, m: String, f: String) -> (r: Result<
        (FunctionHandle, u16),
        ContextError,
    >)
        requires
            old(self).wf(),
        ensures
            final(self).wf(),
            final(self).extends(old(self)),
            *final(self) == (Context {
                structs: final(self).structs,
                data_type_handles: final(self).data_type_handles,
                identifiers: final(self).identifiers,
                signatures: final(self).signatures,
                function_handles: final(self).function_handles,
                function_handle_vec: final(self).function_handle_vec,
                function_signatures: final(self).function_signatures,
                ..*old(self)
            }),
            ({
                let k = crate::ast::FunctionKeyV { module: m@, name: f@ };
                match r {
                    Ok(p) => {
                        &&& final(self).function_handles@.contains_key(k)
                        &&& p.1 == final(self).function_handles@[k]
                        &&& (p.1 as int) < final(self).function_handle_vec@.len()
                        &&& p.0@ == final(self).function_handle_vec@[p.1 as int]@
                        &&& (old(self).function_handles@.contains_key(k) ==> *final(self) == *old(self))
                        &&& (!old(self).function_handles@.contains_key(k) ==> first_import_ok(
                            *old(self),
                            *final(self),
                            m@,
                            f@,
                        ))
                    },
                    Err(e) => final(self).function_handles@ == old(self).function_handles@
                        && final(self).function_signatures@ == old(self).function_signatures@
                        && final(self).function_handle_vec@ == old(self).function_handle_vec@
                        && !old(self).function_handles@.contains_key(k) && function_import_err(
                        *old(self),
                        *final(self),
                        m@,
                        f@,
                        e,
                    ),
                }
            }),
    {
        let m_f = FunctionKey { module: m.clone(), name: f.clone() };
        match self.ensure_function_declared(m, f) {
            Ok(_) => {},
            Err(e) => {
                return Err(e);
            },
        }
        let idx = match self.function_handles.get(&m_f) {
            Some(i) => *i,
            None => {
                proof {
                    assert(false);
                }
                0
            },
        };
        let handle = self.function_handle_vec[idx as usize].duplicate();
        Ok((handle, idx))
    }

    /// Finish compilation: convert every pool into the fixed-order vector
    /// the binary format's pool sections expect, position implying index,
    /// and hand back the dependency store and the source map.  Density is
    /// a consequence of the interning discipline: each pool's vector holds
    /// exactly the distinct interned values, each at its assigned index.
    pub fn materialize_pools(self) -> (r: (
        MaterializedPools,
        Table<ModuleIdent, CompiledDependency>,
        SourceMap,
    ))
        requires
            self.wf(),
        ensures
            ({
                let p = r.0;
                &&& p.module_handles@.len() == self.module_handles@.len()
                &&& forall|i: int|
                    0 <= i < self.module_handles@.len() ==> #[trigger] p.module_handles@[i] == (
                    ModuleHandle {
                        address: self.module_handles@[i].fst,
                        name: self.module_handles@[i].snd,
                    })
                &&& views_of(p.data_type_handles@) == self.data_type_handles@
                &&& p.function_handles == self.function_handle_vec
                &&& p.field_handles@.len() == self.field_handles@.len()
                &&& forall|i: int|
                    0 <= i < self.field_handles@.len() ==> #[trigger] p.field_handles@[i] == (
                    FieldHandle {
                        owner: self.field_handles@[i].fst,
                        field: self.field_handles@[i].snd,
                    })
                &&& p.struct_def_instantiations@.len() == self.struct_instantiations@.len()
                &&& forall|i: int|
                    0 <= i < self.struct_instantiations@.len()
                        ==> #[trigger] p.struct_def_instantiations@[i] == (StructDefInstantiation {
                        def: self.struct_instantiations@[i].fst,
                        type_parameters: self.struct_instantiations@[i].snd,
                    })
                &&& p.enum_def_instantiations@.len() == self.enum_instantiations@.len()
                &&& forall|i: int|
                    0 <= i < self.enum_instantiations@.len()
                        ==> #[trigger] p.enum_def_instantiations@[i] == (EnumDefInstantiation {
                        def: self.enum_instantiations@[i].fst,
                        type_parameters: self.enum_instantiations@[i].snd,
                    })
                &&& p.function_instantiations@.len() == self.function_instantiations@.len()
                &&& forall|i: int|
                    0 <= i < self.function_instantiations@.len()
                        ==> #[trigger] p.function_instantiations@[i] == (FunctionInstantiation {
                        handle: self.function_instantiations@[i].fst,
                        type_parameters: self.function_instantiations@[i].snd,
                    })
                &&& p.field_instantiations@.len() == self.field_instantiations@.len()
                &&& forall|i: int|
                    0 <= i < self.field_instantiations@.len()
                        ==> #[trigger] p.field_instantiations@[i] == (FieldInstantiation {
                        handle: self.field_instantiations@[i].fst,
                        type_parameters: self.field_instantiations@[i].snd,
                    })
                &&& views_of(p.signatures@) == self.signatures@
                &&& views_of(p.identifiers@) == self.identifiers@
                &&& views_of(p.address_identifiers@) == self.address_identifiers@
                &&& views_of(p.constant_pool@) == self.constant_pool@
            }),
            r.1 == self.dependencies,
            r.2 == self.source_map,
    {
        let Context {
            dependencies,
            module_handles,
            data_type_handles,
            signatures,
            identifiers,
            address_identifiers,
            constant_pool,
            field_handles,
            struct_instantiations,
            enum_instantiations,
            function_instantiations,
            field_instantiations,
            function_handle_vec,
            source_map,
            ..
        } = self;
        let materialized = MaterializedPools {
            module_handles: pairs_to_module_handles(module_handles.materialize()),
            data_type_handles: data_type_handles.materialize(),
            function_handles: function_handle_vec,
            field_handles: pairs_to_field_handles(field_handles.materialize()),
            struct_def_instantiations: pairs_to_struct_instantiations(
                struct_instantiations.materialize(),
            ),
            enum_def_instantiations: pairs_to_enum_instantiations(
                enum_instantiations.materialize(),
            ),
            function_instantiations: pairs_to_function_instantiations(
                function_instantiations.materialize(),
            ),
            field_instantiations: pairs_to_field_instantiations(
                field_instantiations.materialize(),
            ),
            signatures: signatures.materialize(),
            identifiers: identifiers.materialize(),
            address_identifiers: address_identifiers.materialize(),
            constant_pool: constant_pool.materialize(),
        };
        proof {
            assert(views_of(materialized.data_type_handles@) =~= self.data_type_handles@);
            assert(views_of(materialized.signatures@) =~= self.signatures@);
            assert(views_of(materialized.identifiers@) =~= self.identifiers@);
            assert(views_of(materialized.address_identifiers@) =~= self.address_identifiers@);
            assert(views_of(materialized.constant_pool@) =~= self.constant_pool@);
        }
        (materialized, dependencies, source_map)
    }

    /// The declaration location of the unit being compiled.
    pub fn decl_location(&self) -> (r: Loc)
        ensures
            r == self.source_map.definition_location,
    {
        self.source_map.definition_location
    }
}


} // verus!
