use vstd::prelude::*;
use crate::ast::{
    dup_byte_vecs, dup_copy_vec, dup_data_type_handles, dup_function_handles, dup_signatures,
    dup_strings, valid_identifier, views_of, DataTypeHandle, DataTypeHandleV, FunctionHandle,
    FunctionHandleV,
    FunctionSignature, ModuleHandle, ModuleIdent, ModuleIdentV, QualifiedDataTypeIdent,
    QualifiedDataTypeIdentV, Signature, Token,
};
use crate::errors::ContextError;
use crate::table::Table;
use crate::TABLE_MAX_SIZE;

verus! {

broadcast use crate::ast::lemma_views_of;

/// An already-compiled dependency module, reduced to the pools that
/// cross-module resolution reads: handles, identifiers, addresses and
/// signatures, with the index of the module's own handle.
#[derive(Debug)]
pub struct CompiledModule {
    pub self_module_handle_idx: u16,
    pub module_handles: Vec<ModuleHandle>,
    pub data_type_handles: Vec<DataTypeHandle>,
    pub function_handles: Vec<FunctionHandle>,
    pub identifiers: Vec<String>,
    pub address_identifiers: Vec<Vec<u8>>,
    pub signatures: Vec<Signature>,
}

/// The mathematical model of a `CompiledModule`.
pub struct CompiledModuleV {
    pub self_module_handle_idx: u16,
    pub module_handles: Seq<ModuleHandle>,
    pub data_type_handles: Seq<DataTypeHandleV>,
    pub function_handles: Seq<FunctionHandleV>,
    pub identifiers: Seq<Seq<char>>,
    pub address_identifiers: Seq<Seq<u8>>,
    pub signatures: Seq<Seq<Token>>,
}

impl View for CompiledModule {
    type V = CompiledModuleV;

    open spec fn view(&self) -> CompiledModuleV {
        CompiledModuleV {
            self_module_handle_idx: self.self_module_handle_idx,
            module_handles: self.module_handles@,
            data_type_handles: views_of(self.data_type_handles@),
            function_handles: views_of(self.function_handles@),
            identifiers: views_of(self.identifiers@),
            address_identifiers: views_of(self.address_identifiers@),
            signatures: views_of(self.signatures@),
        }
    }
}

/// Internal consistency of a compiled module: every cross-pool index is in
/// range, every name is a well-formed identifier, and no pool exceeds the
/// table bound.  Dependencies are supplied already compiled and verified,
/// so this is assumed, not checked here.
pub open spec fn module_wf(m: CompiledModuleV) -> bool {
    &&& (m.self_module_handle_idx as int) < m.module_handles.len()
    &&& forall|i: int|
        0 <= i < m.identifiers.len() ==> valid_identifier(#[trigger] m.identifiers[i])
    &&& m.module_handles.len() <= TABLE_MAX_SIZE
    &&& m.data_type_handles.len() <= TABLE_MAX_SIZE
    &&& m.function_handles.len() <= TABLE_MAX_SIZE
    &&& m.identifiers.len() <= TABLE_MAX_SIZE
    &&& m.address_identifiers.len() <= TABLE_MAX_SIZE
    &&& m.signatures.len() <= TABLE_MAX_SIZE
    &&& forall|i: int|
        0 <= i < m.module_handles.len() ==> (#[trigger] m.module_handles[i]).address
            < m.address_identifiers.len() && m.module_handles[i].name < m.identifiers.len()
    &&& forall|i: int|
        0 <= i < m.data_type_handles.len() ==> (#[trigger] m.data_type_handles[i]).module
            < m.module_handles.len() && m.data_type_handles[i].name < m.identifiers.len()
    &&& forall|i: int|
        0 <= i < m.function_handles.len() ==> (#[trigger] m.function_handles[i]).module
            < m.module_handles.len() && m.function_handles[i].name < m.identifiers.len()
            && m.function_handles[i].parameters < m.signatures.len()
            && m.function_handles[i].return_ < m.signatures.len()
}

/// The (declaring module name, type name) key under which a module exports
/// the data type declared by its handle at position `i`.
pub open spec fn type_key(m: CompiledModuleV, i: int) -> QualifiedDataTypeIdentV {
    QualifiedDataTypeIdentV {
        module: m.identifiers[m.module_handles[m.data_type_handles[i].module as int].name as int],
        name: m.identifiers[m.data_type_handles[i].name as int],
    }
}

/// Whether the module's type handles carry pairwise distinct keys.
pub open spec fn distinct_type_keys(m: CompiledModuleV) -> bool {
    forall|i: int, j: int|
        0 <= i < j < m.data_type_handles.len() ==> type_key(m, i) != type_key(m, j)
}

/// Whether function handle `i` names a function the module itself defines.
pub open spec fn defined_at(m: CompiledModuleV, i: int) -> bool {
    m.function_handles[i].module == m.self_module_handle_idx
}

/// The name under which function handle `i` is exported.
pub open spec fn function_name_at(m: CompiledModuleV, i: int) -> Seq<char> {
    m.identifiers[m.function_handles[i].name as int]
}

/// Whether the module's defined functions carry pairwise distinct names.
pub open spec fn distinct_defined_names(m: CompiledModuleV) -> bool {
    forall|i: int, j: int|
        0 <= i < j < m.function_handles.len() && defined_at(m, i) && defined_at(m, j)
            ==> function_name_at(m, i) != function_name_at(m, j)
}

/// The identity under which a module names itself, read from its self
/// handle.
pub open spec fn module_self_ident(m: CompiledModuleV) -> ModuleIdentV {
    let mh = m.module_handles[m.self_module_handle_idx as int];
    ModuleIdentV {
        address: m.address_identifiers[mh.address as int],
        name: m.identifiers[mh.name as int],
    }
}

impl CompiledModule {
    /// The module's own identity.
    pub fn self_ident(&self) -> (r: ModuleIdent)
        requires
            module_wf(self@),
        ensures
            r@ == module_self_ident(self@),
    {
        let mh = self.module_handles[self.self_module_handle_idx as usize];
        proof {
            assert(self@.module_handles[self.self_module_handle_idx as int]
                == self.module_handles@[self.self_module_handle_idx as int]);
            assert(self@.address_identifiers[mh.address as int] == self.address_identifiers@[mh.address as int]@);
            assert(self@.identifiers[mh.name as int] == self.identifiers@[mh.name as int]@);
        }
        let address = dup_copy_vec(&self.address_identifiers[mh.address as usize]);
        let name = self.identifiers[mh.name as usize].clone();
        let r = ModuleIdent { address, name };
        proof {
            assert(r@ =~= module_self_ident(self@));
        }
        r
    }
}

/// The mathematical model of a `CompiledDependencyView`.
pub struct DepViewV {
    pub structs: Map<QualifiedDataTypeIdentV, u16>,
    pub functions: Map<Seq<char>, u16>,
    pub module_pool: Seq<ModuleHandle>,
    pub data_type_pool: Seq<DataTypeHandleV>,
    pub function_pool: Seq<FunctionHandleV>,
    pub identifiers: Seq<Seq<char>>,
    pub address_identifiers: Seq<Seq<u8>>,
    pub signature_pool: Seq<Seq<Token>>,
}

/// Internal consistency of a dependency view: every table value and every
/// cross-pool index is in range, and every name a lookup can hand back is
/// a well-formed identifier.
pub open spec fn dep_wf(d: DepViewV) -> bool {
    &&& forall|k: QualifiedDataTypeIdentV|
        d.structs.contains_key(k) ==> (#[trigger] d.structs[k] as int) < d.data_type_pool.len()
    &&& forall|k: QualifiedDataTypeIdentV|
        #[trigger] d.structs.contains_key(k) ==> valid_identifier(k.name)
    &&& forall|k: Seq<char>| #[trigger] d.functions.contains_key(k) ==> valid_identifier(k)
    &&& forall|i: int|
        0 <= i < d.identifiers.len() ==> valid_identifier(#[trigger] d.identifiers[i])
    &&& forall|k: Seq<char>|
        d.functions.contains_key(k) ==> (#[trigger] d.functions[k] as int) < d.function_pool.len()
    &&& forall|i: int|
        0 <= i < d.module_pool.len() ==> (#[trigger] d.module_pool[i]).address
            < d.address_identifiers.len() && d.module_pool[i].name < d.identifiers.len()
    &&& forall|i: int|
        0 <= i < d.data_type_pool.len() ==> (#[trigger] d.data_type_pool[i]).module
            < d.module_pool.len() && d.data_type_pool[i].name < d.identifiers.len()
    &&& forall|i: int|
        0 <= i < d.function_pool.len() ==> (#[trigger] d.function_pool[i]).parameters
            < d.signature_pool.len() && d.function_pool[i].return_ < d.signature_pool.len()
}

/// How a dependency view relates to the compiled module it was built from:
/// the pools are the module's pools; the type table binds exactly the keys
/// the module exports; the function table binds exactly the names of
/// functions the module itself defines, each to a handle of that name; and
/// when the module's keys are unambiguous each binding is the handle's own
/// pool position.
pub open spec fn view_of_module(d: DepViewV, m: CompiledModuleV) -> bool {
    &&& d.module_pool == m.module_handles
    &&& d.data_type_pool == m.data_type_handles
    &&& d.function_pool == m.function_handles
    &&& d.identifiers == m.identifiers
    &&& d.address_identifiers == m.address_identifiers
    &&& d.signature_pool == m.signatures
    &&& forall|k: QualifiedDataTypeIdentV|
        #[trigger] d.structs.contains_key(k) <==> exists|i: int|
            0 <= i < m.data_type_handles.len() && type_key(m, i) == k
    &&& distinct_type_keys(m) ==> forall|i: int|
        0 <= i < m.data_type_handles.len() ==> d.structs[#[trigger] type_key(m, i)] == i
    &&& forall|k: Seq<char>|
        #[trigger] d.functions.contains_key(k) <==> exists|i: int|
            0 <= i < m.function_handles.len() && defined_at(m, i) && function_name_at(m, i) == k
    &&& forall|k: Seq<char>|
        #[trigger] d.functions.contains_key(k) ==> (d.functions[k] as int)
            < m.function_handles.len() && defined_at(m, d.functions[k] as int)
            && function_name_at(m, d.functions[k] as int) == k
    &&& distinct_defined_names(m) ==> forall|i: int|
        0 <= i < m.function_handles.len() && defined_at(m, i) ==> d.functions[#[trigger] function_name_at(
            m,
            i,
        )] == i
}

/// The read-only projection over one compiled dependency that resolution
/// consults: name-based lookup of exported type and function shapes, plus
/// the dependency's own pools for reverse lookup by index.
pub struct CompiledDependencyView {
    structs: Table<QualifiedDataTypeIdent, u16>,
    functions: Table<String, u16>,
    module_pool: Vec<ModuleHandle>,
    data_type_pool: Vec<DataTypeHandle>,
    function_pool: Vec<FunctionHandle>,
    identifiers: Vec<String>,
    address_identifiers: Vec<Vec<u8>>,
    signature_pool: Vec<Signature>,
}

impl CompiledDependencyView {
    /// The lookup tables never bind a key twice.
    #[verifier::type_invariant]
    spec fn inv(&self) -> bool {
        self.structs.wf() && self.functions.wf()
    }
}

impl View for CompiledDependencyView {
    type V = DepViewV;

    closed spec fn view(&self) -> DepViewV {
        DepViewV {
            structs: self.structs@,
            functions: self.functions@,
            module_pool: self.module_pool@,
            data_type_pool: views_of(self.data_type_pool@),
            function_pool: views_of(self.function_pool@),
            identifiers: views_of(self.identifiers@),
            address_identifiers: views_of(self.address_identifiers@),
            signature_pool: views_of(self.signature_pool@),
        }
    }
}

/// The identity and type name that a data-type-handle index inside the
/// dependency refers to, read back through the dependency's own pools.
pub open spec fn source_info(d: DepViewV, idx: int) -> (ModuleIdentV, Seq<char>) {
    let h = d.data_type_pool[idx];
    let mh = d.module_pool[h.module as int];
    (
        ModuleIdentV {
            address: d.address_identifiers[mh.address as int],
            name: d.identifiers[mh.name as int],
        },
        d.identifiers[h.name as int],
    )
}

impl CompiledDependencyView {
    /// Build the view of one compiled dependency: index its exported types
    /// by (declaring module name, type name) and its own functions by name.
    pub fn new(dep: &CompiledModule) -> (r: Result<Self, ContextError>)
        requires
            module_wf(dep@),
        ensures
            match r {
                Ok(v) => dep_wf(v@) && view_of_module(v@, dep@),
                Err(_) => false,
            },
    {
        let ghost m = dep@;
        let mut structs: Table<QualifiedDataTypeIdent, u16> = Table::empty();
        let n = dep.data_type_handles.len();
        let mut i: usize = 0;
        while i < n
            invariant
                module_wf(m),
                m == dep@,
                i <= n,
                n == dep.data_type_handles@.len(),
                structs.wf(),
                structs.spec_len() <= i,
                forall|k: QualifiedDataTypeIdentV|
                    #[trigger] structs@.contains_key(k) <==> exists|j: int|
                        0 <= j < i && type_key(m, j) == k,
                forall|k: QualifiedDataTypeIdentV|
                    #[trigger] structs@.contains_key(k) ==> (structs@[k] as nat)
                        < structs.spec_len(),
                distinct_type_keys(m) ==> structs.spec_len() == i && forall|j: int|
                    0 <= j < i ==> structs@[#[trigger] type_key(m, j)] == j,
            decreases n - i,
        {
            let h = &dep.data_type_handles[i];
            proof {
                assert(m.data_type_handles[i as int] == dep.data_type_handles@[i as int]@);
            }
            let mhandle = dep.module_handles[h.module as usize];
            proof {
                assert(m.module_handles[h@.module as int] == dep.module_handles@[h@.module as int]);
            }
            let mname = dep.identifiers[mhandle.name as usize].clone();
            let sname = dep.identifiers[h.name as usize].clone();
            let key = QualifiedDataTypeIdent { module: mname, name: sname };
            proof {
                assert(key@ =~= type_key(m, i as int));
            }
            if !structs.contains(&key) {
                let idx = structs.len();
                if idx >= TABLE_MAX_SIZE {
                    return Err(ContextError::TableOverflow);
                }
                proof {
                    if distinct_type_keys(m) {
                        if structs@.contains_key(type_key(m, i as int)) {
                            let j = choose|j: int| 0 <= j < i && type_key(m, j) == type_key(
                                m,
                                i as int,
                            );
                            assert(false);
                        }
                    }
                }
                structs.insert(key, idx as u16);
            }
            i += 1;
        }
        let mut functions: Table<String, u16> = Table::empty();
        let nf = dep.function_handles.len();
        let mut j: usize = 0;
        while j < nf
            invariant
                module_wf(m),
                m == dep@,
                j <= nf,
                nf == dep.function_handles@.len(),
                functions.wf(),
                functions.spec_len() <= j,
                forall|k: Seq<char>|
                    #[trigger] functions@.contains_key(k) <==> exists|x: int|
                        0 <= x < j && defined_at(m, x) && function_name_at(m, x) == k,
                forall|k: Seq<char>|
                    #[trigger] functions@.contains_key(k) ==> (functions@[k] as int) < j
                        && defined_at(m, functions@[k] as int) && function_name_at(
                        m,
                        functions@[k] as int,
                    ) == k,
                distinct_defined_names(m) ==> forall|x: int|
                    0 <= x < j && defined_at(m, x) ==> functions@[#[trigger] function_name_at(
                        m,
                        x,
                    )] == x,
            decreases nf - j,
        {
            let fh = &dep.function_handles[j];
            proof {
                assert(m.function_handles[j as int] == dep.function_handles@[j as int]@);
            }
            if fh.module == dep.self_module_handle_idx {
                let fname = dep.identifiers[fh.name as usize].clone();
                proof {
                    assert(fname@ == function_name_at(m, j as int));
                    if distinct_defined_names(m) {
                        if functions@.contains_key(fname@) {
                            let x = choose|x: int|
                                0 <= x < j && defined_at(m, x) && function_name_at(m, x) == fname@;
                            assert(false);
                        }
                    }
                }
                functions.insert(fname, j as u16);
            }
            j += 1;
        }
        let ghost gstructs = structs@;
        let ghost gslen = structs.spec_len();
        let ghost gfunctions = functions@;
        let v = CompiledDependencyView {
            structs,
            functions,
            module_pool: dup_copy_vec(&dep.module_handles),
            data_type_pool: dup_data_type_handles(&dep.data_type_handles),
            function_pool: dup_function_handles(&dep.function_handles),
            identifiers: dup_strings(&dep.identifiers),
            address_identifiers: dup_byte_vecs(&dep.address_identifiers),
            signature_pool: dup_signatures(&dep.signatures),
        };
        proof {
            assert(views_of(v.identifiers@) =~= views_of(dep.identifiers@));
            assert(v@.data_type_pool == m.data_type_handles);
            assert forall|k: QualifiedDataTypeIdentV| v@.structs.contains_key(k) implies (
            #[trigger] v@.structs[k] as int) < v@.data_type_pool.len() by {
                assert((v@.structs[k] as nat) < gslen);
                assert(gslen <= n);
            }
            assert forall|k: Seq<char>| v@.functions.contains_key(k) implies (
            #[trigger] v@.functions[k] as int) < v@.function_pool.len() by {}
        }
        Ok(v)
    }

    /// The module identity and type name that handle index `idx` inside
    /// this dependency refers to; nothing if the index is out of range.
    pub fn source_struct_info(&self, idx: u16) -> (r: Option<(ModuleIdent, String)>)
        requires
            dep_wf(self@),
        ensures
            match r {
                Some(p) => (idx as int) < self@.data_type_pool.len() && p.0@ == source_info(
                    self@,
                    idx as int,
                ).0 && p.1@ == source_info(self@, idx as int).1,
                None => (idx as int) >= self@.data_type_pool.len(),
            },
    {
        if (idx as usize) >= self.data_type_pool.len() {
            return None;
        }
        let h = &self.data_type_pool[idx as usize];
        proof {
            assert(self@.data_type_pool[idx as int] == self.data_type_pool@[idx as int]@);
        }
        let mh = self.module_pool[h.module as usize];
        proof {
            assert(self@.module_pool[h@.module as int] == self.module_pool@[h@.module as int]);
            assert(self@.address_identifiers[mh.address as int] == self.address_identifiers@[mh.address as int]@);
            assert(self@.identifiers[mh.name as int] == self.identifiers@[mh.name as int]@);
            assert(self@.identifiers[h@.name as int] == self.identifiers@[h@.name as int]@);
        }
        let address = dup_copy_vec(&self.address_identifiers[mh.address as usize]);
        let mname = self.identifiers[mh.name as usize].clone();
        let sname = self.identifiers[h.name as usize].clone();
        let ident = ModuleIdent { address, name: mname };
        proof {
            assert(ident@ =~= source_info(self@, idx as int).0);
        }
        Some((ident, sname))
    }

    /// The exported shape (abilities and type parameters, with the pool
    /// indices the dependency uses) of the type named (module, name);
    /// nothing if the dependency does not export it.
    pub fn data_type_handle(&self, module: &String, name: &String) -> (r: Option<&DataTypeHandle>)
        requires
            dep_wf(self@),
        ensures
            ({
                let k = QualifiedDataTypeIdentV { module: module@, name: name@ };
                match r {
                    Some(h) => self@.structs.contains_key(k) && h@ == self@.data_type_pool[self@.structs[k] as int],
                    None => !self@.structs.contains_key(k),
                }
            }),
    {
        proof {
            use_type_invariant(&*self);
        }
        let key = QualifiedDataTypeIdent { module: module.clone(), name: name.clone() };
        proof {
            assert(key@ =~= QualifiedDataTypeIdentV { module: module@, name: name@ });
        }
        match self.structs.get(&key) {
            Some(idx) => {
                proof {
                    assert((self@.structs[key@] as int) < self@.data_type_pool.len());
                    assert(self@.data_type_pool[*idx as int] == self.data_type_pool@[*idx as int]@);
                }
                Some(&self.data_type_pool[*idx as usize])
            },
            None => None,
        }
    }

    /// The parameter and return signatures of the function of this name
    /// that the dependency itself defines, reconstructed from its own
    /// signature pool; nothing if the dependency does not define it.
    pub fn function_signature(&self, name: &String) -> (r: Option<FunctionSignature>)
        requires
            dep_wf(self@),
        ensures
            match r {
                Some(sig) => {
                    &&& self@.functions.contains_key(name@)
                    &&& ({
                        let fh = self@.function_pool[self@.functions[name@] as int];
                        sig@.parameters == self@.signature_pool[fh.parameters as int]
                            && sig@.return_ == self@.signature_pool[fh.return_ as int]
                            && sig@.type_parameters == fh.type_parameters
                    })
                },
                None => !self@.functions.contains_key(name@),
            },
    {
        proof {
            use_type_invariant(&*self);
        }
        match self.functions.get(name) {
            Some(idx) => {
                proof {
                    assert((self@.functions[name@] as int) < self@.function_pool.len());
                    assert(self@.function_pool[*idx as int] == self.function_pool@[*idx as int]@);
                }
                let fh = &self.function_pool[*idx as usize];
                proof {
                    assert(self@.signature_pool[fh@.parameters as int] == self.signature_pool@[fh@.parameters as int]@);
                    assert(self@.signature_pool[fh@.return_ as int] == self.signature_pool@[fh@.return_ as int]@);
                }
                let parameters = self.signature_pool[fh.parameters as usize].duplicate().0;
                let return_ = self.signature_pool[fh.return_ as usize].duplicate().0;
                let type_parameters = fh.type_parameters.clone();
                let sig = FunctionSignature { parameters, return_, type_parameters };
                proof {
                    assert(sig.type_parameters@ =~= fh.type_parameters@);
                }
                Some(sig)
            },
            None => None,
        }
    }
}

/// A dependency owned by the compilation: the compiled module itself,
/// bundled with the view built from it at creation, so that neither can
/// change or move independently of the other afterwards.
pub struct StoredCompiledDependency {
    module: CompiledModule,
    view: CompiledDependencyView,
}

impl StoredCompiledDependency {
    /// The bundled view's model.
    pub closed spec fn spec_view(&self) -> DepViewV {
        self.view@
    }

    /// The bundled module's model.
    pub closed spec fn spec_module(&self) -> CompiledModuleV {
        self.module@
    }

    /// Bundle a compiled module with the view built from it.
    pub fn create(module: CompiledModule) -> (r: Result<Self, ContextError>)
        requires
            module_wf(module@),
        ensures
            match r {
                Ok(s) => dep_wf(s.spec_view()) && view_of_module(s.spec_view(), s.spec_module())
                    && s.spec_module() == module@,
                Err(_) => false,
            },
    {
        let view = match CompiledDependencyView::new(&module) {
            Ok(v) => v,
            Err(e) => {
                return Err(e);
            },
        };
        Ok(Self { module, view })
    }

    /// The view, by reference; the bundled module is never handed out.
    pub fn borrow_view(&self) -> (v: &CompiledDependencyView)
        ensures
            v@ == self.spec_view(),
    {
        &self.view
    }
}

/// One dependency supplied to a compilation: either a view over a module
/// whose storage the caller keeps alive, or an owned module bundled with
/// its view.
pub enum CompiledDependency {
    Borrowed(CompiledDependencyView),
    Stored(StoredCompiledDependency),
}

impl View for CompiledDependency {
    type V = DepViewV;

    closed spec fn view(&self) -> DepViewV {
        match self {
            CompiledDependency::Borrowed(v) => v@,
            CompiledDependency::Stored(s) => s.view@,
        }
    }
}

impl CompiledDependency {
    /// A dependency over a module the caller keeps alive.
    pub fn borrowed(module: &CompiledModule) -> (r: Result<Self, ContextError>)
        requires
            module_wf(module@),
        ensures
            match r {
                Ok(d) => dep_wf(d@) && view_of_module(d@, module@),
                Err(_) => false,
            },
    {
        match CompiledDependencyView::new(module) {
            Ok(v) => Ok(Self::Borrowed(v)),
            Err(e) => Err(e),
        }
    }

    /// A dependency that owns its module.
    pub fn stored(module: CompiledModule) -> (r: Result<Self, ContextError>)
        requires
            module_wf(module@),
        ensures
            match r {
                Ok(d) => dep_wf(d@) && view_of_module(d@, module@),
                Err(_) => false,
            },
    {
        match StoredCompiledDependency::create(module) {
            Ok(s) => Ok(Self::Stored(s)),
            Err(e) => Err(e),
        }
    }

    /// The view of this dependency, whichever variant holds it.
    pub fn as_view(&self) -> (v: &CompiledDependencyView)
        ensures
            v@ == self@,
    {
        match self {
            CompiledDependency::Borrowed(v) => v,
            CompiledDependency::Stored(s) => s.borrow_view(),
        }
    }
}

} // verus!
