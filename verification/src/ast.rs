use vstd::prelude::*;
use vstd::string::StrSliceExecFns;

verus! {

/// An ability set: a bit set of capability tags on a type (copy, drop,
/// store, key).  Consumed here only as opaque metadata attached to handles.
pub type AbilitySet = u8;

/// A type parameter declared by a data type: its ability constraints and
/// whether the parameter is phantom.
#[derive(Clone, Copy, Debug, PartialEq, Eq, Structural)]
pub struct DataTypeTyParameter {
    pub constraints: AbilitySet,
    pub is_phantom: bool,
}

/// The recursive encoding of a type expression used in parameter, return
/// and field positions.  A `DataType` leaf carries an index into some
/// module's data-type-handle pool; which module's pool depends on where the
/// token lives, which is why importing a foreign signature re-indexes it.
#[derive(Debug)]
pub enum SignatureToken {
    Bool,
    U8,
    U16,
    U32,
    U64,
    U128,
    U256,
    Address,
    Signer,
    Vector(Box<SignatureToken>),
    Reference(Box<SignatureToken>),
    MutableReference(Box<SignatureToken>),
    TypeParameter(u16),
    DataType(u16),
    DataTypeInstantiation(u16, Vec<SignatureToken>),
}

/// The mathematical model of a `SignatureToken`.
pub enum Token {
    Bool,
    U8,
    U16,
    U32,
    U64,
    U128,
    U256,
    Address,
    Signer,
    Vector(Box<Token>),
    Reference(Box<Token>),
    MutableReference(Box<Token>),
    TypeParameter(u16),
    DataType(u16),
    DataTypeInstantiation(u16, Seq<Token>),
}

/// The model of one token.
pub open spec fn token_view(t: SignatureToken) -> Token
    decreases t,
{
    match t {
        SignatureToken::Bool => Token::Bool,
        SignatureToken::U8 => Token::U8,
        SignatureToken::U16 => Token::U16,
        SignatureToken::U32 => Token::U32,
        SignatureToken::U64 => Token::U64,
        SignatureToken::U128 => Token::U128,
        SignatureToken::U256 => Token::U256,
        SignatureToken::Address => Token::Address,
        SignatureToken::Signer => Token::Signer,
        SignatureToken::Vector(inner) => Token::Vector(Box::new(token_view(*inner))),
        SignatureToken::Reference(inner) => Token::Reference(Box::new(token_view(*inner))),
        SignatureToken::MutableReference(inner) => Token::MutableReference(
            Box::new(token_view(*inner)),
        ),
        SignatureToken::TypeParameter(i) => Token::TypeParameter(i),
        SignatureToken::DataType(i) => Token::DataType(i),
        SignatureToken::DataTypeInstantiation(i, ts) => Token::DataTypeInstantiation(
            i,
            tokens_view(ts@),
        ),
    }
}

impl View for SignatureToken {
    type V = Token;

    open spec fn view(&self) -> Token {
        token_view(*self)
    }
}

/// The models of a sequence of tokens.
pub open spec fn tokens_view(s: Seq<SignatureToken>) -> Seq<Token>
    decreases s,
{
    if s.len() == 0 {
        Seq::empty()
    } else {
        tokens_view(s.drop_last()).push(token_view(s.last()))
    }
}

/// `tokens_view` maps the sequence pointwise.
pub broadcast proof fn lemma_tokens_view(s: Seq<SignatureToken>)
    ensures
        (#[trigger] tokens_view(s)).len() == s.len(),
        forall|i: int| 0 <= i < s.len() ==> tokens_view(s)[i] == token_view(s[i]),
    decreases s.len(),
{
    if s.len() > 0 {
        lemma_tokens_view(s.drop_last());
    }
}

/// Decides structural equality of token models.
pub fn token_eq(a: &SignatureToken, b: &SignatureToken) -> (r: bool)
    ensures
        r == (a@ == b@),
    decreases *a,
{
    match (a, b) {
        (SignatureToken::Bool, SignatureToken::Bool) => true,
        (SignatureToken::U8, SignatureToken::U8) => true,
        (SignatureToken::U16, SignatureToken::U16) => true,
        (SignatureToken::U32, SignatureToken::U32) => true,
        (SignatureToken::U64, SignatureToken::U64) => true,
        (SignatureToken::U128, SignatureToken::U128) => true,
        (SignatureToken::U256, SignatureToken::U256) => true,
        (SignatureToken::Address, SignatureToken::Address) => true,
        (SignatureToken::Signer, SignatureToken::Signer) => true,
        (SignatureToken::Vector(x), SignatureToken::Vector(y)) => token_eq(&**x, &**y),
        (SignatureToken::Reference(x), SignatureToken::Reference(y)) => token_eq(&**x, &**y),
        (SignatureToken::MutableReference(x), SignatureToken::MutableReference(y)) => token_eq(
            &**x,
            &**y,
        ),
        (SignatureToken::TypeParameter(i), SignatureToken::TypeParameter(j)) => i == j,
        (SignatureToken::DataType(i), SignatureToken::DataType(j)) => i == j,
        (
            SignatureToken::DataTypeInstantiation(i, xs),
            SignatureToken::DataTypeInstantiation(j, ys),
        ) => i == j && tokens_eq(xs, ys),
        _ => false,
    }
}

/// Decides structural equality of two token lists, model-wise.
pub fn tokens_eq(xs: &Vec<SignatureToken>, ys: &Vec<SignatureToken>) -> (r: bool)
    ensures
        r == (tokens_view(xs@) == tokens_view(ys@)),
    decreases xs@,
{
    proof {
        lemma_tokens_view(xs@);
        lemma_tokens_view(ys@);
    }
    if xs.len() != ys.len() {
        proof {
            assert(tokens_view(xs@).len() != tokens_view(ys@).len());
        }
        return false;
    }
    let n = xs.len();
    let mut i: usize = 0;
    while i < n
        invariant
            i <= n,
            n == xs@.len(),
            n == ys@.len(),
            tokens_view(xs@).len() == n,
            tokens_view(ys@).len() == n,
            forall|k: int| 0 <= k < n ==> tokens_view(xs@)[k] == token_view(xs@[k]),
            forall|k: int| 0 <= k < n ==> tokens_view(ys@)[k] == token_view(ys@[k]),
            forall|k: int| 0 <= k < i ==> tokens_view(xs@)[k] == tokens_view(ys@)[k],
        decreases n - i,
    {
        if !token_eq(&xs[i], &ys[i]) {
            proof {
                assert(tokens_view(xs@)[i as int] != tokens_view(ys@)[i as int]);
            }
            return false;
        }
        i += 1;
    }
    proof {
        assert(tokens_view(xs@) =~= tokens_view(ys@));
    }
    true
}

impl SignatureToken {
    /// A structurally equal copy.
    pub fn duplicate(&self) -> (r: Self)
        ensures
            r@ == self@,
        decreases self,
    {
        match self {
            SignatureToken::Bool => SignatureToken::Bool,
            SignatureToken::U8 => SignatureToken::U8,
            SignatureToken::U16 => SignatureToken::U16,
            SignatureToken::U32 => SignatureToken::U32,
            SignatureToken::U64 => SignatureToken::U64,
            SignatureToken::U128 => SignatureToken::U128,
            SignatureToken::U256 => SignatureToken::U256,
            SignatureToken::Address => SignatureToken::Address,
            SignatureToken::Signer => SignatureToken::Signer,
            SignatureToken::Vector(inner) => SignatureToken::Vector(Box::new(inner.duplicate())),
            SignatureToken::Reference(inner) => SignatureToken::Reference(
                Box::new(inner.duplicate()),
            ),
            SignatureToken::MutableReference(inner) => SignatureToken::MutableReference(
                Box::new(inner.duplicate()),
            ),
            SignatureToken::TypeParameter(i) => SignatureToken::TypeParameter(*i),
            SignatureToken::DataType(i) => SignatureToken::DataType(*i),
            SignatureToken::DataTypeInstantiation(i, ts) => SignatureToken::DataTypeInstantiation(
                *i,
                duplicate_tokens(ts),
            ),
        }
    }
}

/// A structurally equal copy of a token list.
pub fn duplicate_tokens(ts: &Vec<SignatureToken>) -> (r: Vec<SignatureToken>)
    ensures
        tokens_view(r@) == tokens_view(ts@),
    decreases ts@,
{
    let mut out: Vec<SignatureToken> = Vec::new();
    let n = ts.len();
    let mut i: usize = 0;
    while i < n
        invariant
            i <= n,
            n == ts@.len(),
            out@.len() == i,
            forall|k: int| 0 <= k < i ==> out@[k]@ == ts@[k]@,
        decreases n - i,
    {
        out.push(ts[i].duplicate());
        i += 1;
    }
    proof {
        lemma_tokens_view(out@);
        lemma_tokens_view(ts@);
        assert(tokens_view(out@) =~= tokens_view(ts@));
    }
    out
}

/// An ordered list of tokens: the shape of a parameter list, a return list
/// or a locals list; one entry of the signature pool.
#[derive(Debug)]
pub struct Signature(pub Vec<SignatureToken>);

impl View for Signature {
    type V = Seq<Token>;

    open spec fn view(&self) -> Seq<Token> {
        tokens_view(self.0@)
    }
}

impl crate::pool::Interned for Signature {
    fn eq_value(&self, other: &Self) -> (b: bool) {
        tokens_eq(&self.0, &other.0)
    }
}

impl Signature {
    pub fn duplicate(&self) -> (r: Self)
        ensures
            r@ == self@,
    {
        Signature(duplicate_tokens(&self.0))
    }
}

/// A function's externally visible shape: parameter and return token lists
/// and its type-parameter constraints.
#[derive(Debug)]
pub struct FunctionSignature {
    pub parameters: Vec<SignatureToken>,
    pub return_: Vec<SignatureToken>,
    pub type_parameters: Vec<DataTypeTyParameter>,
}

/// The mathematical model of a `FunctionSignature`.
pub struct FunctionSignatureV {
    pub parameters: Seq<Token>,
    pub return_: Seq<Token>,
    pub type_parameters: Seq<DataTypeTyParameter>,
}

impl View for FunctionSignature {
    type V = FunctionSignatureV;

    open spec fn view(&self) -> FunctionSignatureV {
        FunctionSignatureV {
            parameters: tokens_view(self.parameters@),
            return_: tokens_view(self.return_@),
            type_parameters: self.type_parameters@,
        }
    }
}

impl FunctionSignature {
    pub fn duplicate(&self) -> (r: Self)
        ensures
            r@ == self@,
    {
        let r = FunctionSignature {
            parameters: duplicate_tokens(&self.parameters),
            return_: duplicate_tokens(&self.return_),
            type_parameters: self.type_parameters.clone(),
        };
        proof {
            assert(r.type_parameters@ =~= self.type_parameters@);
            assert(r@ =~= self@);
        }
        r
    }
}

/// Compares two type-parameter lists.
pub fn ty_params_eq(a: &Vec<DataTypeTyParameter>, b: &Vec<DataTypeTyParameter>) -> (r: bool)
    ensures
        r == (a@ == b@),
{
    if a.len() != b.len() {
        return false;
    }
    let n = a.len();
    let mut i: usize = 0;
    while i < n
        invariant
            i <= n,
            n == a@.len(),
            n == b@.len(),
            forall|k: int| 0 <= k < i ==> a@[k] == b@[k],
        decreases n - i,
    {
        if !(a[i] == b[i]) {
            return false;
        }
        i += 1;
    }
    proof {
        assert(a@ =~= b@);
    }
    true
}

/// Compares two byte strings.
pub fn bytes_eq(a: &Vec<u8>, b: &Vec<u8>) -> (r: bool)
    ensures
        r == (a@ == b@),
{
    if a.len() != b.len() {
        return false;
    }
    let n = a.len();
    let mut i: usize = 0;
    while i < n
        invariant
            i <= n,
            n == a@.len(),
            n == b@.len(),
            forall|k: int| 0 <= k < i ==> a@[k] == b@[k],
        decreases n - i,
    {
        if a[i] != b[i] {
            return false;
        }
        i += 1;
    }
    proof {
        assert(a@ =~= b@);
    }
    true
}

/// An interned identifier: identifiers name modules, types, functions,
/// fields, variants and constants.
impl crate::pool::Interned for String {
    fn eq_value(&self, other: &Self) -> (b: bool) {
        *self == *other
    }
}

/// An interned account address, as its raw bytes.
impl crate::pool::Interned for Vec<u8> {
    fn eq_value(&self, other: &Self) -> (b: bool) {
        bytes_eq(self, other)
    }
}

/// A data type's externally visible shape, without its field layout: the
/// owning module handle, the type's name, its abilities and its declared
/// type parameters.  `module` and `name` index the local module-handle and
/// identifier pools.
#[derive(Debug)]
pub struct DataTypeHandle {
    pub module: u16,
    pub name: u16,
    pub abilities: AbilitySet,
    pub type_parameters: Vec<DataTypeTyParameter>,
}

/// The mathematical model of a `DataTypeHandle`.
pub struct DataTypeHandleV {
    pub module: u16,
    pub name: u16,
    pub abilities: AbilitySet,
    pub type_parameters: Seq<DataTypeTyParameter>,
}

impl View for DataTypeHandle {
    type V = DataTypeHandleV;

    open spec fn view(&self) -> DataTypeHandleV {
        DataTypeHandleV {
            module: self.module,
            name: self.name,
            abilities: self.abilities,
            type_parameters: self.type_parameters@,
        }
    }
}

impl crate::pool::Interned for DataTypeHandle {
    fn eq_value(&self, other: &Self) -> (b: bool) {
        let r = self.module == other.module && self.name == other.name && self.abilities
            == other.abilities && ty_params_eq(&self.type_parameters, &other.type_parameters);
        proof {
            if r {
                assert(self@ =~= other@);
            }
        }
        r
    }
}

impl DataTypeHandle {
    pub fn duplicate(&self) -> (r: Self)
        ensures
            r@ == self@,
    {
        let r = DataTypeHandle {
            module: self.module,
            name: self.name,
            abilities: self.abilities,
            type_parameters: self.type_parameters.clone(),
        };
        proof {
            assert(r.type_parameters@ =~= self.type_parameters@);
            assert(r@ =~= self@);
        }
        r
    }
}

/// A function's compact named reference: owning module handle, name, the
/// interned parameter and return signatures, and type-parameter
/// constraints.  All but `type_parameters` index local pools.
#[derive(Debug)]
pub struct FunctionHandle {
    pub module: u16,
    pub name: u16,
    pub parameters: u16,
    pub return_: u16,
    pub type_parameters: Vec<DataTypeTyParameter>,
}

/// The mathematical model of a `FunctionHandle`.
pub struct FunctionHandleV {
    pub module: u16,
    pub name: u16,
    pub parameters: u16,
    pub return_: u16,
    pub type_parameters: Seq<DataTypeTyParameter>,
}

impl View for FunctionHandle {
    type V = FunctionHandleV;

    open spec fn view(&self) -> FunctionHandleV {
        FunctionHandleV {
            module: self.module,
            name: self.name,
            parameters: self.parameters,
            return_: self.return_,
            type_parameters: self.type_parameters@,
        }
    }
}

impl FunctionHandle {
    pub fn duplicate(&self) -> (r: Self)
        ensures
            r@ == self@,
    {
        let r = FunctionHandle {
            module: self.module,
            name: self.name,
            parameters: self.parameters,
            return_: self.return_,
            type_parameters: self.type_parameters.clone(),
        };
        proof {
            assert(r.type_parameters@ =~= self.type_parameters@);
            assert(r@ =~= self@);
        }
        r
    }
}

/// A constant value: its type token and its serialized data.
#[derive(Debug)]
pub struct Constant {
    pub type_: SignatureToken,
    pub data: Vec<u8>,
}

/// The mathematical model of a `Constant`.
pub struct ConstantV {
    pub type_: Token,
    pub data: Seq<u8>,
}

impl View for Constant {
    type V = ConstantV;

    open spec fn view(&self) -> ConstantV {
        ConstantV { type_: self.type_@, data: self.data@ }
    }
}

impl crate::pool::Interned for Constant {
    fn eq_value(&self, other: &Self) -> (b: bool) {
        let r = token_eq(&self.type_, &other.type_) && bytes_eq(&self.data, &other.data);
        proof {
            if r {
                assert(self@ =~= other@);
            }
        }
        r
    }
}

impl Constant {
    pub fn duplicate(&self) -> (r: Self)
        ensures
            r@ == self@,
    {
        let r = Constant { type_: self.type_.duplicate(), data: self.data.clone() };
        proof {
            assert(r.data@ =~= self.data@);
            assert(r@ =~= self@);
        }
        r
    }
}

/// An interned reference to a module: indices into the local address and
/// identifier pools.
#[derive(Clone, Copy, Debug, PartialEq, Eq, Structural, Hash)]
pub struct ModuleHandle {
    pub address: u16,
    pub name: u16,
}

/// A reference to a field of a concrete (non-generic) struct: the owning
/// struct definition and the field's declaration position.
#[derive(Clone, Copy, Debug, PartialEq, Eq, Structural, Hash)]
pub struct FieldHandle {
    pub owner: u16,
    pub field: u16,
}

/// A struct definition instantiated with type arguments: the definition
/// index and the index of the interned type-argument signature.
#[derive(Clone, Copy, Debug, PartialEq, Eq, Structural, Hash)]
pub struct StructDefInstantiation {
    pub def: u16,
    pub type_parameters: u16,
}

/// An enum definition instantiated with type arguments.
#[derive(Clone, Copy, Debug, PartialEq, Eq, Structural, Hash)]
pub struct EnumDefInstantiation {
    pub def: u16,
    pub type_parameters: u16,
}

/// A function handle instantiated with type arguments.
#[derive(Clone, Copy, Debug, PartialEq, Eq, Structural, Hash)]
pub struct FunctionInstantiation {
    pub handle: u16,
    pub type_parameters: u16,
}

/// A field handle instantiated with the enclosing type's type arguments.
#[derive(Clone, Copy, Debug, PartialEq, Eq, Structural, Hash)]
pub struct FieldInstantiation {
    pub handle: u16,
    pub type_parameters: u16,
}

/// The globally unique identity of a module: its account address bytes and
/// its module name.
#[derive(Debug)]
pub struct ModuleIdent {
    pub address: Vec<u8>,
    pub name: String,
}

/// The mathematical model of a `ModuleIdent`.
pub struct ModuleIdentV {
    pub address: Seq<u8>,
    pub name: Seq<char>,
}

impl View for ModuleIdent {
    type V = ModuleIdentV;

    open spec fn view(&self) -> ModuleIdentV {
        ModuleIdentV { address: self.address@, name: self.name@ }
    }
}

impl crate::pool::Interned for ModuleIdent {
    fn eq_value(&self, other: &Self) -> (b: bool) {
        let r = bytes_eq(&self.address, &other.address) && self.name == other.name;
        proof {
            if r {
                assert(self@ =~= other@);
            }
        }
        r
    }
}

impl ModuleIdent {
    pub fn duplicate(&self) -> (r: Self)
        ensures
            r@ == self@,
    {
        let r = ModuleIdent { address: self.address.clone(), name: self.name.clone() };
        proof {
            assert(r.address@ =~= self.address@);
            assert(r@ =~= self@);
        }
        r
    }
}

/// A type named through a module alias: the alias of the module that
/// declares the type, and the type's name.
#[derive(Debug)]
pub struct QualifiedDataTypeIdent {
    pub module: String,
    pub name: String,
}

/// The mathematical model of a `QualifiedDataTypeIdent`.
pub struct QualifiedDataTypeIdentV {
    pub module: Seq<char>,
    pub name: Seq<char>,
}

impl View for QualifiedDataTypeIdent {
    type V = QualifiedDataTypeIdentV;

    open spec fn view(&self) -> QualifiedDataTypeIdentV {
        QualifiedDataTypeIdentV { module: self.module@, name: self.name@ }
    }
}

impl crate::pool::Interned for QualifiedDataTypeIdent {
    fn eq_value(&self, other: &Self) -> (b: bool) {
        let r = self.module == other.module && self.name == other.name;
        proof {
            if r {
                assert(self@ =~= other@);
            }
        }
        r
    }
}

impl QualifiedDataTypeIdent {
    pub fn duplicate(&self) -> (r: Self)
        ensures
            r@ == self@,
    {
        let r = QualifiedDataTypeIdent { module: self.module.clone(), name: self.name.clone() };
        proof {
            assert(r@ =~= self@);
        }
        r
    }
}

/// A function named through a module alias.
#[derive(Debug)]
pub struct FunctionKey {
    pub module: String,
    pub name: String,
}

/// The mathematical model of a `FunctionKey`.
pub struct FunctionKeyV {
    pub module: Seq<char>,
    pub name: Seq<char>,
}

impl View for FunctionKey {
    type V = FunctionKeyV;

    open spec fn view(&self) -> FunctionKeyV {
        FunctionKeyV { module: self.module@, name: self.name@ }
    }
}

impl crate::pool::Interned for FunctionKey {
    fn eq_value(&self, other: &Self) -> (b: bool) {
        let r = self.module == other.module && self.name == other.name;
        proof {
            if r {
                assert(self@ =~= other@);
            }
        }
        r
    }
}

impl FunctionKey {
    pub fn duplicate(&self) -> (r: Self)
        ensures
            r@ == self@,
    {
        let r = FunctionKey { module: self.module.clone(), name: self.name.clone() };
        proof {
            assert(r@ =~= self@);
        }
        r
    }
}

/// A member (field or variant) of a locally interned data type: the local
/// data-type-handle index and the member's name.
#[derive(Debug)]
pub struct MemberKey {
    pub owner: u16,
    pub member: String,
}

/// The mathematical model of a `MemberKey`.
pub struct MemberKeyV {
    pub owner: u16,
    pub member: Seq<char>,
}

impl View for MemberKey {
    type V = MemberKeyV;

    open spec fn view(&self) -> MemberKeyV {
        MemberKeyV { owner: self.owner, member: self.member@ }
    }
}

impl crate::pool::Interned for MemberKey {
    fn eq_value(&self, other: &Self) -> (b: bool) {
        let r = self.owner == other.owner && self.member == other.member;
        proof {
            if r {
                assert(self@ =~= other@);
            }
        }
        r
    }
}

/// Whether a character may begin an identifier: an ASCII letter or an
/// underscore.
pub open spec fn is_ident_start(c: char) -> bool {
    ('a' <= c && c <= 'z') || ('A' <= c && c <= 'Z') || c == '_'
}

/// Whether a character may continue an identifier: a start character or
/// an ASCII digit.
pub open spec fn is_ident_continue(c: char) -> bool {
    is_ident_start(c) || ('0' <= c && c <= '9')
}

/// A well-formed identifier: non-empty, beginning with a letter or an
/// underscore, continuing with letters, digits and underscores.
pub open spec fn valid_identifier(s: Seq<char>) -> bool {
    &&& s.len() > 0
    &&& is_ident_start(s[0])
    &&& forall|i: int| 1 <= i < s.len() ==> is_ident_continue(#[trigger] s[i])
}

/// Whether a character may begin an identifier.
pub fn ident_start(c: char) -> (r: bool)
    ensures
        r == is_ident_start(c),
{
    let u = c as u32;
    (97 <= u && u <= 122) || (65 <= u && u <= 90) || u == 95
}

/// Whether a character may continue an identifier.
pub fn ident_continue(c: char) -> (r: bool)
    ensures
        r == is_ident_continue(c),
{
    let u = c as u32;
    (97 <= u && u <= 122) || (65 <= u && u <= 90) || u == 95 || (48 <= u && u <= 57)
}

/// Hand a string back as an identifier exactly when it is well-formed.
pub fn ident_str(s: &str) -> (r: Option<&str>)
    ensures
        match r {
            Some(t) => t == s && valid_identifier(s@),
            None => !valid_identifier(s@),
        },
{
    let n = s.unicode_len();
    if n == 0 {
        return None;
    }
    if !ident_start(s.get_char(0)) {
        return None;
    }
    let mut i: usize = 1;
    while i < n
        invariant
            1 <= i <= n,
            n == s@.len(),
            forall|k: int| 1 <= k < i ==> is_ident_continue(#[trigger] s@[k]),
        decreases n - i,
    {
        if !ident_continue(s.get_char(i)) {
            return None;
        }
        i += 1;
    }
    Some(s)
}

/// The models of the elements of a sequence.
pub open spec fn views_of<T: View>(s: Seq<T>) -> Seq<<T as View>::V> {
    Seq::new(s.len(), |i: int| s[i]@)
}

/// `views_of` maps the sequence pointwise.
pub broadcast proof fn lemma_views_of<T: View>(s: Seq<T>)
    ensures
        (#[trigger] views_of(s)).len() == s.len(),
        forall|i: int| 0 <= i < s.len() ==> views_of(s)[i] == s[i]@,
{
}

/// Copies a vector of copyable values.
pub fn dup_copy_vec<T: Copy>(v: &Vec<T>) -> (r: Vec<T>)
    ensures
        r@ == v@,
{
    let mut out: Vec<T> = Vec::new();
    let n = v.len();
    let mut i: usize = 0;
    while i < n
        invariant
            i <= n,
            n == v@.len(),
            out@ =~= v@.take(i as int),
        decreases n - i,
    {
        out.push(v[i]);
        i += 1;
    }
    proof {
        assert(out@ =~= v@);
    }
    out
}

/// Copies a vector of strings.
pub fn dup_strings(v: &Vec<String>) -> (r: Vec<String>)
    ensures
        r@ == v@,
{
    let mut out: Vec<String> = Vec::new();
    let n = v.len();
    let mut i: usize = 0;
    while i < n
        invariant
            i <= n,
            n == v@.len(),
            out@ =~= v@.take(i as int),
        decreases n - i,
    {
        out.push(v[i].clone());
        i += 1;
    }
    proof {
        assert(out@ =~= v@);
    }
    out
}

/// Copies a vector of byte strings.
pub fn dup_byte_vecs(v: &Vec<Vec<u8>>) -> (r: Vec<Vec<u8>>)
    ensures
        views_of(r@) == views_of(v@),
{
    let mut out: Vec<Vec<u8>> = Vec::new();
    let n = v.len();
    let mut i: usize = 0;
    while i < n
        invariant
            i <= n,
            n == v@.len(),
            out@.len() == i,
            forall|k: int| 0 <= k < i ==> out@[k]@ == v@[k]@,
        decreases n - i,
    {
        out.push(dup_copy_vec(&v[i]));
        i += 1;
    }
    proof {
        assert(views_of(out@) =~= views_of(v@));
    }
    out
}

/// Copies a vector of signatures.
pub fn dup_signatures(v: &Vec<Signature>) -> (r: Vec<Signature>)
    ensures
        views_of(r@) == views_of(v@),
{
    let mut out: Vec<Signature> = Vec::new();
    let n = v.len();
    let mut i: usize = 0;
    while i < n
        invariant
            i <= n,
            n == v@.len(),
            out@.len() == i,
            forall|k: int| 0 <= k < i ==> out@[k]@ == v@[k]@,
        decreases n - i,
    {
        out.push(v[i].duplicate());
        i += 1;
    }
    proof {
        assert(views_of(out@) =~= views_of(v@));
    }
    out
}

/// Copies a vector of data type handles.
pub fn dup_data_type_handles(v: &Vec<DataTypeHandle>) -> (r: Vec<DataTypeHandle>)
    ensures
        views_of(r@) == views_of(v@),
{
    let mut out: Vec<DataTypeHandle> = Vec::new();
    let n = v.len();
    let mut i: usize = 0;
    while i < n
        invariant
            i <= n,
            n == v@.len(),
            out@.len() == i,
            forall|k: int| 0 <= k < i ==> out@[k]@ == v@[k]@,
        decreases n - i,
    {
        out.push(v[i].duplicate());
        i += 1;
    }
    proof {
        assert(views_of(out@) =~= views_of(v@));
    }
    out
}

/// Copies a vector of function handles.
pub fn dup_function_handles(v: &Vec<FunctionHandle>) -> (r: Vec<FunctionHandle>)
    ensures
        views_of(r@) == views_of(v@),
{
    let mut out: Vec<FunctionHandle> = Vec::new();
    let n = v.len();
    let mut i: usize = 0;
    while i < n
        invariant
            i <= n,
            n == v@.len(),
            out@.len() == i,
            forall|k: int| 0 <= k < i ==> out@[k]@ == v@[k]@,
        decreases n - i,
    {
        out.push(v[i].duplicate());
        i += 1;
    }
    proof {
        assert(views_of(out@) =~= views_of(v@));
    }
    out
}

} // verus!
