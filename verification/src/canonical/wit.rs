//! Import of a WIT world into the canonical interface description.
//!
//! The WIT documents are resolved into a `WitResolve`: the worlds,
//! interfaces, type definitions and packages of the resolved documents, each
//! kind in an arena whose positions are the ids the others refer to. Type
//! definitions come in dependency order: a type refers only to types defined
//! before it.
use vstd::prelude::*;

use crate::assoc::{compare_str, lemma_lex_irreflexive, lemma_lex_transitive, lex_lt, KeyOrder};
use crate::canonical::ir::{
    copy_opt_string, enum_cases_view, fields_view, function_view, functions_view, opt_view,
    strings_view, type_def_view, type_defs_view, type_ref_view, type_ref_views, variant_cases_view,
    CanonicalEnumCase, CanonicalField, CanonicalFunction, CanonicalFunctionResult,
    CanonicalParam, CanonicalPrimitiveType, CanonicalRecord, CanonicalTypeDef,
    CanonicalTypeDefKind, CanonicalTypeRef, CanonicalVariantCase, FieldView, FunctionResultView,
    FunctionView, InterfaceView, PackageRefView, TypeDefKindView, WorldView, TypeDefView, TypeRefView, VariantCaseView,
};
use crate::text::{decimal, string_push_str};

verus! {

/// A WIT type: a primitive, or a type definition by its id.
#[derive(Debug, Clone, Copy, PartialEq, Eq, Structural)]
pub enum WitType {
    Bool,
    U8,
    U16,
    U32,
    U64,
    S8,
    S16,
    S32,
    S64,
    F32,
    F64,
    Char,
    String,
    ErrorContext,
    Id(usize),
}

/// A field of a record type.
#[derive(Debug, Clone)]
pub struct WitField {
    pub name: String,
    pub docs: Option<String>,
    pub ty: WitType,
}

/// A case of an enum type.
#[derive(Debug, Clone)]
pub struct WitEnumCase {
    pub name: String,
    pub docs: Option<String>,
}

/// A case of a variant type, with its payload type if it has one.
#[derive(Debug, Clone)]
pub struct WitCase {
    pub name: String,
    pub docs: Option<String>,
    pub ty: Option<WitType>,
}

/// The shape of a WIT type definition. Resources, handles, maps,
/// fixed-length lists, futures and streams are `Unsupported`.
#[derive(Debug, Clone)]
pub enum WitTypeDefKind {
    Record(Vec<WitField>),
    Flags(Vec<String>),
    Tuple(Vec<WitType>),
    Variant(Vec<WitCase>),
    Enum(Vec<WitEnumCase>),
    Option(WitType),
    Result(Option<WitType>, Option<WitType>),
    List(WitType),
    Type(WitType),
    Unsupported,
}

/// A WIT type definition; anonymous ones have no name.
#[derive(Debug, Clone)]
pub struct WitTypeDef {
    pub name: Option<String>,
    pub docs: Option<String>,
    pub kind: WitTypeDefKind,
}

/// A WIT function: its parameters by name and type, and its result type.
#[derive(Debug, Clone)]
pub struct WitFunction {
    pub name: String,
    pub docs: Option<String>,
    pub params: Vec<(String, WitType)>,
    pub result: Option<WitType>,
}

/// A WIT interface: the ids of its types and its functions, each in the
/// order of its declaration.
#[derive(Debug, Clone)]
pub struct WitInterface {
    pub docs: Option<String>,
    pub types: Vec<usize>,
    pub functions: Vec<WitFunction>,
}

/// How a world names an import or export.
#[derive(Debug, Clone)]
pub enum WitWorldKey {
    Name(String),
    Interface(usize),
}

/// What a world imports or exports.
#[derive(Debug, Clone)]
pub enum WitWorldItem {
    Interface(usize),
    Function(WitFunction),
    Type,
}

/// A WIT world.
#[derive(Debug, Clone)]
pub struct WitWorld {
    pub name: String,
    pub docs: Option<String>,
    pub package: Option<usize>,
    pub imports: Vec<(WitWorldKey, WitWorldItem)>,
    pub exports: Vec<(WitWorldKey, WitWorldItem)>,
}

/// A WIT package name.
#[derive(Debug, Clone)]
pub struct WitPackage {
    pub namespace: String,
    pub name: String,
    pub version: Option<String>,
}

/// Resolved WIT documents.
#[derive(Debug, Clone)]
pub struct WitResolve {
    pub worlds: Vec<WitWorld>,
    pub interfaces: Vec<WitInterface>,
    pub types: Vec<WitTypeDef>,
    pub packages: Vec<WitPackage>,
}

/// Why a WIT world cannot be imported.
#[derive(Debug)]
pub struct CanonicalWitError {
    message: String,
}

impl View for CanonicalWitError {
    type V = Seq<char>;

    closed spec fn view(&self) -> Seq<char> {
        self.message@
    }
}

impl CanonicalWitError {
    /// An error with the given message.
    pub fn new(message: String) -> (r: Self)
        ensures
            r@ == message@,
    {
        CanonicalWitError { message }
    }

    /// The error's message.
    pub fn message(&self) -> (r: String)
        ensures
            r@ == self@,
    {
        self.message.clone()
    }
}

/// How far down the type arena a type reaches: one past the id it refers
/// to, or nothing for a primitive.
pub open spec fn rank(ty: WitType) -> int {
    match ty {
        WitType::Id(j) => j + 1,
        _ => 0,
    }
}

/// The rank of an optional type.
pub open spec fn opt_rank(ty: Option<WitType>) -> int {
    match ty {
        Some(t) => rank(t),
        None => 0,
    }
}

/// All of the types reach no further than `b`.
pub open spec fn ranks_within(tys: Seq<WitType>, b: int) -> bool {
    forall|i: int| 0 <= i < tys.len() ==> rank(#[trigger] tys[i]) <= b
}

/// Every type the shape refers to reaches no further than `b`.
pub open spec fn kind_within(kind: WitTypeDefKind, b: int) -> bool {
    match kind {
        WitTypeDefKind::Record(fs) => forall|i: int|
            0 <= i < fs@.len() ==> rank(#[trigger] fs@[i].ty) <= b,
        WitTypeDefKind::Tuple(tys) => ranks_within(tys@, b),
        WitTypeDefKind::Variant(cs) => forall|i: int|
            0 <= i < cs@.len() ==> opt_rank(#[trigger] cs@[i].ty) <= b,
        WitTypeDefKind::Option(t) => rank(t) <= b,
        WitTypeDefKind::Result(ok, err) => opt_rank(ok) <= b && opt_rank(err) <= b,
        WitTypeDefKind::List(t) => rank(t) <= b,
        WitTypeDefKind::Type(t) => rank(t) <= b,
        _ => true,
    }
}

/// The function's parameter and result types reach no further than `n`.
pub open spec fn function_within(f: WitFunction, n: int) -> bool {
    &&& forall|i: int| 0 <= i < f.params@.len() ==> rank(#[trigger] f.params@[i].1) <= n
    &&& opt_rank(f.result) <= n
}

/// The type definitions come in dependency order: each refers only to
/// definitions before it.
pub open spec fn types_ordered(types: Seq<WitTypeDef>) -> bool {
    forall|t: int| 0 <= t < types.len() ==> kind_within(#[trigger] types[t].kind, t)
}

/// The primitive a WIT type stands for, if it is one.
pub open spec fn primitive_of(ty: WitType) -> Option<CanonicalPrimitiveType> {
    match ty {
        WitType::Bool => Some(CanonicalPrimitiveType::Bool),
        WitType::S8 => Some(CanonicalPrimitiveType::S8),
        WitType::S16 => Some(CanonicalPrimitiveType::S16),
        WitType::S32 => Some(CanonicalPrimitiveType::S32),
        WitType::S64 => Some(CanonicalPrimitiveType::S64),
        WitType::U8 => Some(CanonicalPrimitiveType::U8),
        WitType::U16 => Some(CanonicalPrimitiveType::U16),
        WitType::U32 => Some(CanonicalPrimitiveType::U32),
        WitType::U64 => Some(CanonicalPrimitiveType::U64),
        WitType::F32 => Some(CanonicalPrimitiveType::Float32),
        WitType::F64 => Some(CanonicalPrimitiveType::Float64),
        WitType::Char => Some(CanonicalPrimitiveType::Char),
        WitType::String => Some(CanonicalPrimitiveType::String),
        _ => None,
    }
}

/// The message for an error-context type.
pub open spec fn handle_message() -> Seq<char> {
    "resource and handle types are not yet supported in canonical import"@
}

/// The message for an anonymous type that cannot be written inline.
pub open spec fn inline_message() -> Seq<char> {
    "anonymous non-inline type is not supported in canonical import"@
}

/// The canonical reference to a WIT type: a primitive, a named definition by
/// its name, or an anonymous list, option, result or tuple written out.
pub open spec fn type_ref_of(types: Seq<WitTypeDef>, ty: WitType) -> Result<TypeRefView, Seq<char>>
    decreases rank(ty), 1int, 0int,
    when types_ordered(types) && rank(ty) <= types.len()
{
    match ty {
        WitType::Id(j) => named_or_inline_of(types, j as int),
        WitType::ErrorContext => Err(handle_message()),
        _ => match primitive_of(ty) {
            Some(p) => Ok(TypeRefView::Primitive(p)),
            None => Err(handle_message()),
        },
    }
}

/// The canonical reference to the type definition at `j`.
pub open spec fn named_or_inline_of(types: Seq<WitTypeDef>, j: int) -> Result<TypeRefView, Seq<char>>
    decreases j + 1, 0int, 0int,
    when types_ordered(types) && 0 <= j < types.len()
{
    let t = types[j];
    match t.name {
        Some(n) => Ok(TypeRefView::Named(n@)),
        None => {
            proof {
                assert(kind_within(types[j].kind, j));
            }
            match t.kind {
                WitTypeDefKind::List(inner) => match type_ref_of(types, inner) {
                    Ok(r) => Ok(TypeRefView::List(Box::new(r))),
                    Err(e) => Err(e),
                },
                WitTypeDefKind::Option(inner) => match type_ref_of(types, inner) {
                    Ok(r) => Ok(TypeRefView::Option(Box::new(r))),
                    Err(e) => Err(e),
                },
                WitTypeDefKind::Result(ok, err) => result_of(types, ok, err, j),
                WitTypeDefKind::Tuple(tys) => match tuple_of(types, tys@, j) {
                    Ok(rs) => Ok(TypeRefView::Tuple(rs)),
                    Err(e) => Err(e),
                },
                WitTypeDefKind::Type(inner) => type_ref_of(types, inner),
                _ => Err(inline_message()),
            }
        },
    }
}

/// The canonical result type with the given ok and error types, each of
/// rank at most `b`.
pub open spec fn result_of(
    types: Seq<WitTypeDef>,
    ok: Option<WitType>,
    err: Option<WitType>,
    b: int,
) -> Result<TypeRefView, Seq<char>>
    decreases b, 2int, 0int,
    when types_ordered(types) && opt_rank(ok) <= b && opt_rank(err) <= b && b <= types.len()
{
    let okr: Result<Option<Box<TypeRefView>>, Seq<char>> = match ok {
        Some(t) => match type_ref_of(types, t) {
            Ok(r) => Ok(Some(Box::new(r))),
            Err(e) => Err(e),
        },
        None => Ok(None),
    };
    let errr: Result<Option<Box<TypeRefView>>, Seq<char>> = match err {
        Some(t) => match type_ref_of(types, t) {
            Ok(r) => Ok(Some(Box::new(r))),
            Err(e) => Err(e),
        },
        None => Ok(None),
    };
    match okr {
        Err(e) => Err(e),
        Ok(o) => match errr {
            Err(e) => Err(e),
            Ok(x) => Ok(TypeRefView::Result(o, x)),
        },
    }
}

/// The canonical references to the types of a tuple, each of rank at most
/// `b`, or the first failure among them.
pub open spec fn tuple_of(types: Seq<WitTypeDef>, tys: Seq<WitType>, b: int) -> Result<
    Seq<TypeRefView>,
    Seq<char>,
>
    decreases b, 2int, tys.len(),
    when types_ordered(types) && ranks_within(tys, b) && b <= types.len()
{
    if tys.len() == 0 {
        Ok(Seq::empty())
    } else {
        proof {
            assert(rank(tys[tys.len() - 1]) <= b);
        }
        match tuple_of(types, tys.drop_last(), b) {
            Err(e) => Err(e),
            Ok(rs) => match type_ref_of(types, tys.last()) {
                Ok(r) => Ok(rs.push(r)),
                Err(e) => Err(e),
            },
        }
    }
}

/// The message of an error.
fn wit_error(message: &str) -> (r: CanonicalWitError)
    ensures
        r@ == message@,
{
    CanonicalWitError::new(message.to_owned())
}

/// The canonical reference to a WIT type.
fn canonical_type_ref(types: &Vec<WitTypeDef>, ty: &WitType) -> (r: Result<
    CanonicalTypeRef,
    CanonicalWitError,
>)
    requires
        types_ordered(types@),
        rank(*ty) <= types@.len(),
    ensures
        match r {
            Ok(t) => type_ref_of(types@, *ty) == Ok::<TypeRefView, Seq<char>>(type_ref_view(t)),
            Err(e) => type_ref_of(types@, *ty) == Err::<TypeRefView, Seq<char>>(e@),
        },
    decreases rank(*ty), 1int, 0int,
{
    let p = match ty {
        WitType::Bool => CanonicalPrimitiveType::Bool,
        WitType::S8 => CanonicalPrimitiveType::S8,
        WitType::S16 => CanonicalPrimitiveType::S16,
        WitType::S32 => CanonicalPrimitiveType::S32,
        WitType::S64 => CanonicalPrimitiveType::S64,
        WitType::U8 => CanonicalPrimitiveType::U8,
        WitType::U16 => CanonicalPrimitiveType::U16,
        WitType::U32 => CanonicalPrimitiveType::U32,
        WitType::U64 => CanonicalPrimitiveType::U64,
        WitType::F32 => CanonicalPrimitiveType::Float32,
        WitType::F64 => CanonicalPrimitiveType::Float64,
        WitType::Char => CanonicalPrimitiveType::Char,
        WitType::String => CanonicalPrimitiveType::String,
        WitType::Id(j) => {
            return canonical_named_or_inline_type_ref(types, *j);
        },
        WitType::ErrorContext => {
            return Err(
                wit_error("resource and handle types are not yet supported in canonical import"),
            );
        },
    };
    Ok(CanonicalTypeRef::Primitive(p))
}

/// The canonical reference to the type definition at `j`.
fn canonical_named_or_inline_type_ref(types: &Vec<WitTypeDef>, j: usize) -> (r: Result<
    CanonicalTypeRef,
    CanonicalWitError,
>)
    requires
        types_ordered(types@),
        j < types@.len(),
    ensures
        match r {
            Ok(t) => named_or_inline_of(types@, j as int) == Ok::<TypeRefView, Seq<char>>(
                type_ref_view(t),
            ),
            Err(e) => named_or_inline_of(types@, j as int) == Err::<TypeRefView, Seq<char>>(e@),
        },
    decreases j + 1, 0int, 0int,
{
    let t = &types[j];
    if let Some(name) = &t.name {
        return Ok(CanonicalTypeRef::Named(name.clone()));
    }
    assert(kind_within(types@[j as int].kind, j as int));
    match &t.kind {
        WitTypeDefKind::List(inner) => match canonical_type_ref(types, inner) {
            Ok(r) => Ok(CanonicalTypeRef::List(Box::new(r))),
            Err(e) => Err(e),
        },
        WitTypeDefKind::Option(inner) => match canonical_type_ref(types, inner) {
            Ok(r) => Ok(CanonicalTypeRef::Option(Box::new(r))),
            Err(e) => Err(e),
        },
        WitTypeDefKind::Result(ok, err) => canonical_result(types, ok, err, Ghost(j as int)),
        WitTypeDefKind::Tuple(tys) => match canonical_tuple(types, tys, Ghost(j as int)) {
            Ok(rs) => Ok(CanonicalTypeRef::Tuple(rs)),
            Err(e) => Err(e),
        },
        WitTypeDefKind::Type(inner) => canonical_type_ref(types, inner),
        _ => Err(wit_error("anonymous non-inline type is not supported in canonical import")),
    }
}

/// The canonical reference to an optional type.
fn canonical_opt_type_ref(types: &Vec<WitTypeDef>, ty: &Option<WitType>, Ghost(b): Ghost<int>) -> (r: Result<
    Option<Box<CanonicalTypeRef>>,
    CanonicalWitError,
>)
    requires
        types_ordered(types@),
        opt_rank(*ty) <= b,
        b <= types@.len(),
    ensures
        match *ty {
            None => r matches Ok(None),
            Some(t) => match r {
                Ok(Some(x)) => type_ref_of(types@, t) == Ok::<TypeRefView, Seq<char>>(
                    type_ref_view(*x),
                ),
                Ok(None) => false,
                Err(e) => type_ref_of(types@, t) == Err::<TypeRefView, Seq<char>>(e@),
            },
        },
    decreases b, 1int, 1int,
{
    match ty {
        Some(t) => match canonical_type_ref(types, t) {
            Ok(x) => Ok(Some(Box::new(x))),
            Err(e) => Err(e),
        },
        None => Ok(None),
    }
}

/// The canonical result type with the given ok and error types.
fn canonical_result(
    types: &Vec<WitTypeDef>,
    ok: &Option<WitType>,
    err: &Option<WitType>,
    Ghost(b): Ghost<int>,
) -> (r: Result<CanonicalTypeRef, CanonicalWitError>)
    requires
        types_ordered(types@),
        opt_rank(*ok) <= b,
        opt_rank(*err) <= b,
        b <= types@.len(),
    ensures
        match r {
            Ok(t) => result_of(types@, *ok, *err, b) == Ok::<TypeRefView, Seq<char>>(type_ref_view(t)),
            Err(e) => result_of(types@, *ok, *err, b) == Err::<TypeRefView, Seq<char>>(e@),
        },
    decreases b, 2int, 0int,
{
    let ok2 = match canonical_opt_type_ref(types, ok, Ghost(b)) {
        Ok(x) => x,
        Err(e) => {
            return Err(e);
        },
    };
    let err2 = match canonical_opt_type_ref(types, err, Ghost(b)) {
        Ok(x) => x,
        Err(e) => {
            return Err(e);
        },
    };
    Ok(CanonicalTypeRef::Result { ok: ok2, err: err2 })
}

/// The canonical references to the types of a tuple.
fn canonical_tuple(types: &Vec<WitTypeDef>, tys: &Vec<WitType>, Ghost(b): Ghost<int>) -> (r: Result<
    Vec<CanonicalTypeRef>,
    CanonicalWitError,
>)
    requires
        types_ordered(types@),
        ranks_within(tys@, b),
        b <= types@.len(),
    ensures
        match r {
            Ok(rs) => tuple_of(types@, tys@, b) == Ok::<Seq<TypeRefView>, Seq<char>>(
                type_ref_views(rs@),
            ),
            Err(e) => tuple_of(types@, tys@, b) == Err::<Seq<TypeRefView>, Seq<char>>(e@),
        },
    decreases b, 2int, 0int,
{
    let mut out: Vec<CanonicalTypeRef> = Vec::new();
    assert(tys@.take(0) =~= Seq::<WitType>::empty());
    assert(type_ref_views(out@) =~= Seq::<TypeRefView>::empty());
    for i in 0..tys.len()
        invariant
            types_ordered(types@),
            ranks_within(tys@, b),
            b <= types@.len(),
            tuple_of(types@, tys@.take(i as int), b) == Ok::<Seq<TypeRefView>, Seq<char>>(
                type_ref_views(out@),
            ),
    {
        let ghost pre = tys@.take(i as int);
        let ghost cur = tys@.take(i + 1);
        assert(cur.drop_last() =~= pre);
        assert(cur.last() == tys@[i as int]);
        assert(ranks_within(cur, b));
        assert(rank(tys@[i as int]) <= b);
        let ghost before = out@;
        match canonical_type_ref(types, &tys[i]) {
            Ok(x) => {
                out.push(x);
                assert(type_ref_views(out@) =~= type_ref_views(before).push(type_ref_view(x)));
            },
            Err(e) => {
                proof {
                    lemma_tuple_failure_stays(types@, tys@, b, i + 1);
                }
                return Err(e);
            },
        }
    }
    assert(tys@.take(tys@.len() as int) =~= tys@);
    Ok(out)
}

proof fn lemma_tuple_failure_stays(types: Seq<WitTypeDef>, tys: Seq<WitType>, b: int, k: int)
    requires
        types_ordered(types),
        ranks_within(tys, b),
        b <= types.len(),
        0 <= k <= tys.len(),
        tuple_of(types, tys.take(k), b) is Err,
    ensures
        tuple_of(types, tys, b) == tuple_of(types, tys.take(k), b),
    decreases tys.len() - k,
{
    if k < tys.len() {
        assert(tys.take(k + 1).drop_last() =~= tys.take(k));
        assert(ranks_within(tys.take(k + 1), b));
        assert(ranks_within(tys.take(k), b));
        lemma_tuple_failure_stays(types, tys, b, k + 1);
    } else {
        assert(tys.take(k) =~= tys);
    }
}


/// All the values, or the first failure among them.
pub open spec fn all_or_first_failure<T>(rs: Seq<Result<T, Seq<char>>>) -> Result<Seq<T>, Seq<char>>
    decreases rs.len(),
{
    if rs.len() == 0 {
        Ok(Seq::empty())
    } else {
        match all_or_first_failure(rs.drop_last()) {
            Err(e) => Err(e),
            Ok(xs) => match rs.last() {
                Ok(x) => Ok(xs.push(x)),
                Err(e) => Err(e),
            },
        }
    }
}

proof fn lemma_failure_stays<T>(rs: Seq<Result<T, Seq<char>>>, k: int)
    requires
        0 <= k <= rs.len(),
        all_or_first_failure(rs.take(k)) is Err,
    ensures
        all_or_first_failure(rs) == all_or_first_failure(rs.take(k)),
    decreases rs.len() - k,
{
    if k < rs.len() {
        assert(rs.take(k + 1).drop_last() =~= rs.take(k));
        lemma_failure_stays(rs, k + 1);
    } else {
        assert(rs.take(k) =~= rs);
    }
}

proof fn lemma_next<T>(rs: Seq<Result<T, Seq<char>>>, i: int)
    requires
        0 <= i < rs.len(),
    ensures
        all_or_first_failure(rs.take(i + 1)) == match all_or_first_failure(rs.take(i)) {
            Err(e) => Err(e),
            Ok(xs) => match rs[i] {
                Ok(x) => Ok(xs.push(x)),
                Err(e) => Err(e),
            },
        },
        i + 1 == rs.len() ==> rs.take(i + 1) == rs,
{
    assert(rs.take(i + 1).drop_last() =~= rs.take(i));
    if i + 1 == rs.len() {
        assert(rs.take(i + 1) =~= rs);
    }
}

proof fn lemma_none_yet<T>(rs: Seq<Result<T, Seq<char>>>)
    ensures
        all_or_first_failure(rs.take(0)) == Ok::<Seq<T>, Seq<char>>(Seq::empty()),
        rs.len() == 0 ==> rs.take(0) == rs,
{
    assert(rs.take(0) =~= Seq::<Result<T, Seq<char>>>::empty());
    if rs.len() == 0 {
        assert(rs.take(0) =~= rs);
    }
}

/// The canonical field of a record.
pub open spec fn field_of(types: Seq<WitTypeDef>, f: WitField) -> Result<FieldView, Seq<char>> {
    match type_ref_of(types, f.ty) {
        Ok(r) => Ok(FieldView { name: f.name@, docs: opt_view(f.docs), ty: r }),
        Err(e) => Err(e),
    }
}

/// The canonical fields of a record, one by one.
pub open spec fn field_results(types: Seq<WitTypeDef>, fs: Seq<WitField>) -> Seq<Result<FieldView, Seq<char>>> {
    fs.map_values(|f: WitField| field_of(types, f))
}

/// The canonical fields of a record, or the first failure among them.
pub open spec fn fields_of(types: Seq<WitTypeDef>, fs: Seq<WitField>) -> Result<Seq<FieldView>, Seq<char>> {
    all_or_first_failure(field_results(types, fs))
}

/// The canonical case of a variant.
pub open spec fn variant_case_of(types: Seq<WitTypeDef>, c: WitCase) -> Result<VariantCaseView, Seq<char>> {
    match c.ty {
        None => Ok(VariantCaseView { name: c.name@, docs: opt_view(c.docs), ty: None }),
        Some(t) => match type_ref_of(types, t) {
            Ok(r) => Ok(VariantCaseView { name: c.name@, docs: opt_view(c.docs), ty: Some(r) }),
            Err(e) => Err(e),
        },
    }
}

/// The canonical cases of a variant, one by one.
pub open spec fn variant_case_results(types: Seq<WitTypeDef>, cs: Seq<WitCase>) -> Seq<
    Result<VariantCaseView, Seq<char>>,
> {
    cs.map_values(|c: WitCase| variant_case_of(types, c))
}

/// The canonical cases of a variant, or the first failure among them.
pub open spec fn variant_cases_of(types: Seq<WitTypeDef>, cs: Seq<WitCase>) -> Result<
    Seq<VariantCaseView>,
    Seq<char>,
> {
    all_or_first_failure(variant_case_results(types, cs))
}

/// The canonical cases of an enum.
pub open spec fn enum_cases_of(cs: Seq<WitEnumCase>) -> Seq<(Seq<char>, Option<Seq<char>>)> {
    cs.map_values(|c: WitEnumCase| (c.name@, opt_view(c.docs)))
}

/// The message for a type of a kind that has no canonical form.
pub open spec fn unsupported_message(name: Seq<char>) -> Seq<char> {
    "unsupported WIT type '"@ + name + "'"@
}

/// The canonical shape of the type definition at `t`, named `name`; an
/// alias of another definition takes that definition's shape.
pub open spec fn kind_of(types: Seq<WitTypeDef>, t: int, name: Seq<char>) -> Result<
    TypeDefKindView,
    Seq<char>,
>
    decreases t,
    when types_ordered(types) && 0 <= t < types.len()
{
    proof {
        assert(kind_within(types[t].kind, t));
    }
    match types[t].kind {
        WitTypeDefKind::Record(fs) => match fields_of(types, fs@) {
            Ok(xs) => Ok(TypeDefKindView::Record(xs)),
            Err(e) => Err(e),
        },
        WitTypeDefKind::Enum(cs) => Ok(TypeDefKindView::Enum(enum_cases_of(cs@))),
        WitTypeDefKind::Variant(cs) => match variant_cases_of(types, cs@) {
            Ok(xs) => Ok(TypeDefKindView::Variant(xs)),
            Err(e) => Err(e),
        },
        WitTypeDefKind::Flags(fs) => Ok(TypeDefKindView::Flags(strings_view(fs@))),
        WitTypeDefKind::Tuple(tys) => match tuple_of(types, tys@, t) {
            Ok(rs) => Ok(TypeDefKindView::Alias(TypeRefView::Tuple(rs))),
            Err(e) => Err(e),
        },
        WitTypeDefKind::Option(inner) => match type_ref_of(types, inner) {
            Ok(r) => Ok(TypeDefKindView::Alias(TypeRefView::Option(Box::new(r)))),
            Err(e) => Err(e),
        },
        WitTypeDefKind::Result(ok, err) => match result_of(types, ok, err, t) {
            Ok(r) => Ok(TypeDefKindView::Alias(r)),
            Err(e) => Err(e),
        },
        WitTypeDefKind::List(inner) => match type_ref_of(types, inner) {
            Ok(r) => Ok(TypeDefKindView::Alias(TypeRefView::List(Box::new(r)))),
            Err(e) => Err(e),
        },
        WitTypeDefKind::Type(WitType::Id(target)) => kind_of(types, target as int, name),
        WitTypeDefKind::Type(inner) => match type_ref_of(types, inner) {
            Ok(r) => Ok(TypeDefKindView::Alias(r)),
            Err(e) => Err(e),
        },
        WitTypeDefKind::Unsupported => Err(unsupported_message(name)),
    }
}

/// The docs of the definition an alias names, for an alias without docs of
/// its own.
pub open spec fn fallback_docs(types: Seq<WitTypeDef>, kind: WitTypeDefKind) -> Option<Seq<char>> {
    match kind {
        WitTypeDefKind::Type(WitType::Id(target)) => opt_view(types[target as int].docs),
        _ => None,
    }
}

/// The message for an anonymous type in an interface.
pub open spec fn anonymous_message() -> Seq<char> {
    "anonymous interface type cannot be canonicalized"@
}

/// The canonical definition of the type at `id`.
pub open spec fn type_def_of(types: Seq<WitTypeDef>, id: int) -> Result<TypeDefView, Seq<char>> {
    let t = types[id];
    match t.name {
        None => Err(anonymous_message()),
        Some(n) => match kind_of(types, id, n@) {
            Err(e) => Err(e),
            Ok(k) => Ok(
                TypeDefView {
                    name: n@,
                    docs: match opt_view(t.docs) {
                        Some(d) => Some(d),
                        None => fallback_docs(types, t.kind),
                    },
                    kind: k,
                },
            ),
        },
    }
}

/// The canonical parameter of a function.
pub open spec fn param_of(types: Seq<WitTypeDef>, p: (String, WitType)) -> Result<
    (Seq<char>, TypeRefView),
    Seq<char>,
> {
    match type_ref_of(types, p.1) {
        Ok(r) => Ok((p.0@, r)),
        Err(e) => Err(e),
    }
}

/// The canonical parameters of a function, one by one.
pub open spec fn param_results(types: Seq<WitTypeDef>, ps: Seq<(String, WitType)>) -> Seq<
    Result<(Seq<char>, TypeRefView), Seq<char>>,
> {
    ps.map_values(|p: (String, WitType)| param_of(types, p))
}

/// The canonical parameters of a function, or the first failure among them.
pub open spec fn params_of(types: Seq<WitTypeDef>, ps: Seq<(String, WitType)>) -> Result<
    Seq<(Seq<char>, TypeRefView)>,
    Seq<char>,
> {
    all_or_first_failure(param_results(types, ps))
}

/// The canonical form of a function: its parameters, then its result.
pub open spec fn function_of(types: Seq<WitTypeDef>, f: WitFunction) -> Result<FunctionView, Seq<char>> {
    match params_of(types, f.params@) {
        Err(e) => Err(e),
        Ok(ps) => match f.result {
            None => Ok(
                FunctionView {
                    name: f.name@,
                    docs: opt_view(f.docs),
                    params: ps,
                    result: FunctionResultView::Nothing,
                },
            ),
            Some(ty) => match type_ref_of(types, ty) {
                Ok(r) => Ok(
                    FunctionView {
                        name: f.name@,
                        docs: opt_view(f.docs),
                        params: ps,
                        result: FunctionResultView::Scalar(r),
                    },
                ),
                Err(e) => Err(e),
            },
        },
    }
}

/// Things ordered by a name.
pub trait NameKeyed {
    spec fn sort_key(&self) -> Seq<char>;
}

impl NameKeyed for TypeDefView {
    open spec fn sort_key(&self) -> Seq<char> {
        self.name
    }
}

impl NameKeyed for FunctionView {
    open spec fn sort_key(&self) -> Seq<char> {
        self.name
    }
}

/// The first position from `i` on whose name comes after `k`, or the end.
pub open spec fn upper_bound<T: NameKeyed>(s: Seq<T>, k: Seq<char>, i: int) -> int
    decreases s.len() - i,
{
    if i < 0 || i >= s.len() {
        s.len() as int
    } else if lex_lt(k, s[i].sort_key()) {
        i
    } else {
        upper_bound(s, k, i + 1)
    }
}

/// `x` put into `s` after everything whose name does not come after its own.
pub open spec fn insert_by_name<T: NameKeyed>(s: Seq<T>, x: T) -> Seq<T> {
    s.insert(upper_bound(s, x.sort_key(), 0), x)
}

/// The items ordered by name, those with equal names in their first order
/// (a stable sort).
pub open spec fn sorted_by_name<T: NameKeyed>(s: Seq<T>) -> Seq<T>
    decreases s.len(),
{
    if s.len() == 0 {
        s
    } else {
        insert_by_name(sorted_by_name(s.drop_last()), s.last())
    }
}

/// The canonical definitions of the types at `ids`, one by one.
pub open spec fn type_def_results(types: Seq<WitTypeDef>, ids: Seq<usize>) -> Seq<
    Result<TypeDefView, Seq<char>>,
> {
    ids.map_values(|id: usize| type_def_of(types, id as int))
}

/// The canonical definitions of the types at `ids`, or the first failure.
pub open spec fn type_defs_of(types: Seq<WitTypeDef>, ids: Seq<usize>) -> Result<
    Seq<TypeDefView>,
    Seq<char>,
> {
    all_or_first_failure(type_def_results(types, ids))
}

/// The canonical forms of the functions, one by one.
pub open spec fn function_results(types: Seq<WitTypeDef>, fs: Seq<WitFunction>) -> Seq<
    Result<FunctionView, Seq<char>>,
> {
    fs.map_values(|f: WitFunction| function_of(types, f))
}

/// The canonical forms of the functions, or the first failure.
pub open spec fn functions_of(types: Seq<WitTypeDef>, fs: Seq<WitFunction>) -> Result<
    Seq<FunctionView>,
    Seq<char>,
> {
    all_or_first_failure(function_results(types, fs))
}

/// The canonical form of an interface under `name`: its types, then its
/// functions, each ordered by name.
pub open spec fn interface_of(types: Seq<WitTypeDef>, iface: WitInterface, name: Seq<char>) -> Result<
    InterfaceView,
    Seq<char>,
> {
    match type_defs_of(types, iface.types@) {
        Err(e) => Err(e),
        Ok(ts) => match functions_of(types, iface.functions@) {
            Err(e) => Err(e),
            Ok(fs) => Ok(
                InterfaceView {
                    name,
                    docs: opt_view(iface.docs),
                    functions: sorted_by_name(fs),
                    types: sorted_by_name(ts),
                },
            ),
        },
    }
}


/// The canonical fields of a record.
fn canonical_record(types: &Vec<WitTypeDef>, fields: &Vec<WitField>) -> (r: Result<
    Vec<CanonicalField>,
    CanonicalWitError,
>)
    requires
        types_ordered(types@),
        forall|k: int| 0 <= k < fields@.len() ==> rank(#[trigger] fields@[k].ty) <= types@.len(),
    ensures
        match r {
            Ok(fs) => fields_of(types@, fields@) == Ok::<Seq<FieldView>, Seq<char>>(fields_view(fs@)),
            Err(e) => fields_of(types@, fields@) == Err::<Seq<FieldView>, Seq<char>>(e@),
        },
{
    let ghost rs = field_results(types@, fields@);
    let mut out: Vec<CanonicalField> = Vec::new();
    proof {
        lemma_none_yet(rs);
    }
    assert(fields_view(out@) =~= Seq::<FieldView>::empty());
    for i in 0..fields.len()
        invariant
            rs == field_results(types@, fields@),
            types_ordered(types@),
            forall|k: int| 0 <= k < fields@.len() ==> rank(#[trigger] fields@[k].ty) <= types@.len(),
            all_or_first_failure(rs.take(i as int)) == Ok::<Seq<FieldView>, Seq<char>>(
                fields_view(out@),
            ),
    {
        proof {
            lemma_next(rs, i as int);
        }
        let f = &fields[i];
        let ghost before = out@;
        match canonical_type_ref(types, &f.ty) {
            Ok(t) => {
                out.push(CanonicalField { name: f.name.clone(), docs: copy_opt_string(&f.docs), ty: t });
                assert(fields_view(out@) =~= fields_view(before).push(
                    crate::canonical::ir::field_view(out@[before.len() as int]),
                ));
            },
            Err(e) => {
                proof {
                    lemma_failure_stays(rs, i + 1);
                }
                return Err(e);
            },
        }
    }
    assert(rs.take(rs.len() as int) =~= rs);
    Ok(out)
}

/// The canonical cases of an enum.
fn canonical_enum(cases: &Vec<WitEnumCase>) -> (r: Vec<CanonicalEnumCase>)
    ensures
        enum_cases_view(r@) == enum_cases_of(cases@),
{
    let mut out: Vec<CanonicalEnumCase> = Vec::new();
    for i in 0..cases.len()
        invariant
            enum_cases_view(out@) == enum_cases_of(cases@.take(i as int)),
    {
        let ghost before = out@;
        out.push(CanonicalEnumCase { name: cases[i].name.clone(), docs: copy_opt_string(&cases[i].docs) });
        assert(enum_cases_view(out@) =~= enum_cases_view(before).push(
            crate::canonical::ir::enum_case_view(out@[before.len() as int]),
        ));
        assert(enum_cases_of(cases@.take(i + 1)) =~= enum_cases_of(cases@.take(i as int)).push(
            (cases@[i as int].name@, opt_view(cases@[i as int].docs)),
        ));
    }
    assert(cases@.take(cases@.len() as int) =~= cases@);
    out
}

/// The canonical cases of a variant.
fn canonical_variant(types: &Vec<WitTypeDef>, cases: &Vec<WitCase>) -> (r: Result<
    Vec<CanonicalVariantCase>,
    CanonicalWitError,
>)
    requires
        types_ordered(types@),
        forall|k: int| 0 <= k < cases@.len() ==> opt_rank(#[trigger] cases@[k].ty) <= types@.len(),
    ensures
        match r {
            Ok(cs) => variant_cases_of(types@, cases@) == Ok::<Seq<VariantCaseView>, Seq<char>>(
                variant_cases_view(cs@),
            ),
            Err(e) => variant_cases_of(types@, cases@) == Err::<Seq<VariantCaseView>, Seq<char>>(e@),
        },
{
    let ghost rs = variant_case_results(types@, cases@);
    let mut out: Vec<CanonicalVariantCase> = Vec::new();
    proof {
        lemma_none_yet(rs);
    }
    assert(variant_cases_view(out@) =~= Seq::<VariantCaseView>::empty());
    for i in 0..cases.len()
        invariant
            rs == variant_case_results(types@, cases@),
            types_ordered(types@),
            forall|k: int| 0 <= k < cases@.len() ==> opt_rank(#[trigger] cases@[k].ty) <= types@.len(),
            all_or_first_failure(rs.take(i as int)) == Ok::<Seq<VariantCaseView>, Seq<char>>(
                variant_cases_view(out@),
            ),
    {
        proof {
            lemma_next(rs, i as int);
        }
        let c = &cases[i];
        let ghost before = out@;
        let ty = match &c.ty {
            Some(t) => match canonical_type_ref(types, t) {
                Ok(x) => Some(x),
                Err(e) => {
                    proof {
                        lemma_failure_stays(rs, i + 1);
                    }
                    return Err(e);
                },
            },
            None => None,
        };
        out.push(CanonicalVariantCase { name: c.name.clone(), docs: copy_opt_string(&c.docs), ty });
        assert(variant_cases_view(out@) =~= variant_cases_view(before).push(
            crate::canonical::ir::variant_case_view(out@[before.len() as int]),
        ));
    }
    assert(rs.take(rs.len() as int) =~= rs);
    Ok(out)
}

/// The names of a flags type.
fn canonical_flags(flags: &Vec<String>) -> (r: Vec<String>)
    ensures
        strings_view(r@) == strings_view(flags@),
{
    let r = crate::canonical::ir::copy_strings(flags);
    r
}

/// The message for a type of a kind that has no canonical form.
fn unsupported_error(name: &str) -> (r: CanonicalWitError)
    ensures
        r@ == unsupported_message(name@),
{
    let mut m = "unsupported WIT type '".to_owned();
    string_push_str(&mut m, name);
    string_push_str(&mut m, "'");
    CanonicalWitError::new(m)
}

/// The canonical shape of the type definition at `t`, named `name`.
fn canonical_type_def_kind(types: &Vec<WitTypeDef>, t: usize, name: &str) -> (r: Result<
    CanonicalTypeDefKind,
    CanonicalWitError,
>)
    requires
        types_ordered(types@),
        t < types@.len(),
    ensures
        match r {
            Ok(k) => kind_of(types@, t as int, name@) == Ok::<TypeDefKindView, Seq<char>>(
                crate::canonical::ir::kind_view(k),
            ),
            Err(e) => kind_of(types@, t as int, name@) == Err::<TypeDefKindView, Seq<char>>(e@),
        },
    decreases t,
{
    assert(kind_within(types@[t as int].kind, t as int));
    match &types[t].kind {
        WitTypeDefKind::Record(fields) => match canonical_record(types, fields) {
            Ok(fs) => Ok(CanonicalTypeDefKind::Record(CanonicalRecord { fields: fs })),
            Err(e) => Err(e),
        },
        WitTypeDefKind::Enum(cases) => Ok(CanonicalTypeDefKind::Enum(canonical_enum(cases))),
        WitTypeDefKind::Variant(cases) => match canonical_variant(types, cases) {
            Ok(cs) => Ok(CanonicalTypeDefKind::Variant(cs)),
            Err(e) => Err(e),
        },
        WitTypeDefKind::Flags(flags) => Ok(CanonicalTypeDefKind::Flags(canonical_flags(flags))),
        WitTypeDefKind::Tuple(tys) => match canonical_tuple(types, tys, Ghost(t as int)) {
            Ok(rs) => Ok(CanonicalTypeDefKind::Alias(CanonicalTypeRef::Tuple(rs))),
            Err(e) => Err(e),
        },
        WitTypeDefKind::Option(inner) => match canonical_type_ref(types, inner) {
            Ok(x) => Ok(CanonicalTypeDefKind::Alias(CanonicalTypeRef::Option(Box::new(x)))),
            Err(e) => Err(e),
        },
        WitTypeDefKind::Result(ok, err) => match canonical_result(types, ok, err, Ghost(t as int)) {
            Ok(x) => Ok(CanonicalTypeDefKind::Alias(x)),
            Err(e) => Err(e),
        },
        WitTypeDefKind::List(inner) => match canonical_type_ref(types, inner) {
            Ok(x) => Ok(CanonicalTypeDefKind::Alias(CanonicalTypeRef::List(Box::new(x)))),
            Err(e) => Err(e),
        },
        WitTypeDefKind::Type(inner) => match inner {
            WitType::Id(target) => canonical_type_def_kind(types, *target, name),
            _ => match canonical_type_ref(types, inner) {
                Ok(x) => Ok(CanonicalTypeDefKind::Alias(x)),
                Err(e) => Err(e),
            },
        },
        WitTypeDefKind::Unsupported => Err(unsupported_error(name)),
    }
}

/// The docs of the definition an alias names.
fn fallback_type_docs(types: &Vec<WitTypeDef>, kind: &WitTypeDefKind) -> (r: Option<String>)
    requires
        kind matches WitTypeDefKind::Type(WitType::Id(target)) ==> target < types@.len(),
    ensures
        opt_view(r) == fallback_docs(types@, *kind),
{
    match kind {
        WitTypeDefKind::Type(WitType::Id(target)) => copy_opt_string(&types[*target].docs),
        _ => None,
    }
}

/// The canonical definition of the type at `id`.
fn canonical_type_def(types: &Vec<WitTypeDef>, id: usize) -> (r: Result<
    CanonicalTypeDef,
    CanonicalWitError,
>)
    requires
        types_ordered(types@),
        id < types@.len(),
    ensures
        match r {
            Ok(d) => type_def_of(types@, id as int) == Ok::<TypeDefView, Seq<char>>(type_def_view(d)),
            Err(e) => type_def_of(types@, id as int) == Err::<TypeDefView, Seq<char>>(e@),
        },
{
    let ty = &types[id];
    let name = match &ty.name {
        Some(n) => n.clone(),
        None => {
            return Err(wit_error("anonymous interface type cannot be canonicalized"));
        },
    };
    let kind = match canonical_type_def_kind(types, id, name.as_str()) {
        Ok(k) => k,
        Err(e) => {
            return Err(e);
        },
    };
    assert(kind_within(types@[id as int].kind, id as int));
    let docs = match &ty.docs {
        Some(d) => Some(d.clone()),
        None => fallback_type_docs(types, &ty.kind),
    };
    Ok(CanonicalTypeDef { name, docs, kind })
}

/// The canonical form of a function.
fn canonical_function(types: &Vec<WitTypeDef>, function: &WitFunction) -> (r: Result<
    CanonicalFunction,
    CanonicalWitError,
>)
    requires
        types_ordered(types@),
        function_within(*function, types@.len() as int),
    ensures
        match r {
            Ok(f) => function_of(types@, *function) == Ok::<FunctionView, Seq<char>>(function_view(f)),
            Err(e) => function_of(types@, *function) == Err::<FunctionView, Seq<char>>(e@),
        },
{
    let ghost rs = param_results(types@, function.params@);
    let mut params: Vec<CanonicalParam> = Vec::new();
    proof {
        lemma_none_yet(rs);
    }
    assert(crate::canonical::ir::params_view(params@) =~= Seq::<(Seq<char>, TypeRefView)>::empty());
    for i in 0..function.params.len()
        invariant
            rs == param_results(types@, function.params@),
            types_ordered(types@),
            function_within(*function, types@.len() as int),
            all_or_first_failure(rs.take(i as int)) == Ok::<Seq<(Seq<char>, TypeRefView)>, Seq<char>>(
                crate::canonical::ir::params_view(params@),
            ),
    {
        proof {
            lemma_next(rs, i as int);
        }
        let p = &function.params[i];
        let ghost before = params@;
        match canonical_type_ref(types, &p.1) {
            Ok(t) => {
                params.push(CanonicalParam { name: p.0.clone(), ty: t });
                assert(crate::canonical::ir::params_view(params@) =~= crate::canonical::ir::params_view(
                    before,
                ).push(crate::canonical::ir::param_view(params@[before.len() as int])));
            },
            Err(e) => {
                proof {
                    lemma_failure_stays(rs, i + 1);
                }
                return Err(e);
            },
        }
    }
    assert(rs.take(rs.len() as int) =~= rs);
    let result = match &function.result {
        Some(ty) => match canonical_type_ref(types, ty) {
            Ok(t) => CanonicalFunctionResult::Scalar(t),
            Err(e) => {
                return Err(e);
            },
        },
        None => CanonicalFunctionResult::Nothing,
    };
    Ok(
        CanonicalFunction {
            name: function.name.clone(),
            docs: copy_opt_string(&function.docs),
            params,
            result,
        },
    )
}


/// The position at which a type definition named `key` goes among
/// definitions ordered by name: after every one whose name does not come
/// after `key`.
fn type_def_slot(out: &Vec<CanonicalTypeDef>, key: &str) -> (k: usize)
    ensures
        k == upper_bound(type_defs_view(out@), key@, 0),
        k <= out@.len(),
{
    let ghost vs = type_defs_view(out@);
    let mut k: usize = 0;
    while k < out.len()
        invariant
            k <= out@.len(),
            vs == type_defs_view(out@),
            upper_bound(vs, key@, 0) == upper_bound(vs, key@, k as int),
        decreases out@.len() - k,
    {
        assert(vs[k as int].sort_key() == out@[k as int].name@);
        if compare_str(key, out[k].name.as_str()) == KeyOrder::Less {
            return k;
        }
        k = k + 1;
    }
    k
}

/// Puts a type definition among definitions ordered by name, after those
/// whose names do not come after its own.
fn insert_type_def_by_name(out: &mut Vec<CanonicalTypeDef>, x: CanonicalTypeDef)
    ensures
        type_defs_view(final(out)@) == insert_by_name(type_defs_view(old(out)@), type_def_view(x)),
{
    let ghost vs = type_defs_view(out@);
    let k = type_def_slot(out, x.name.as_str());
    out.insert(k, x);
    assert(type_defs_view(out@) =~= vs.insert(k as int, type_def_view(x)));
}

/// The position at which a function named `key` goes among functions
/// ordered by name.
fn function_slot(out: &Vec<CanonicalFunction>, key: &str) -> (k: usize)
    ensures
        k == upper_bound(functions_view(out@), key@, 0),
        k <= out@.len(),
{
    let ghost vs = functions_view(out@);
    let mut k: usize = 0;
    while k < out.len()
        invariant
            k <= out@.len(),
            vs == functions_view(out@),
            upper_bound(vs, key@, 0) == upper_bound(vs, key@, k as int),
        decreases out@.len() - k,
    {
        assert(vs[k as int].sort_key() == out@[k as int].name@);
        if compare_str(key, out[k].name.as_str()) == KeyOrder::Less {
            return k;
        }
        k = k + 1;
    }
    k
}

/// Puts a function among functions ordered by name, after those whose names
/// do not come after its own.
fn insert_function_by_name(out: &mut Vec<CanonicalFunction>, x: CanonicalFunction)
    ensures
        functions_view(final(out)@) == insert_by_name(functions_view(old(out)@), function_view(x)),
{
    let ghost vs = functions_view(out@);
    let k = function_slot(out, x.name.as_str());
    out.insert(k, x);
    assert(functions_view(out@) =~= vs.insert(k as int, function_view(x)));
}

/// The interface's type ids and function types are in range.
pub open spec fn interface_within(i: WitInterface, n: int) -> bool {
    &&& forall|k: int| 0 <= k < i.types@.len() ==> (#[trigger] i.types@[k]) < n
    &&& forall|k: int| 0 <= k < i.functions@.len() ==> function_within(#[trigger] i.functions@[k], n)
}

/// The canonical form of the interface at `id`, named `name`.
fn canonical_interface(res: &WitResolve, name: String, id: usize) -> (r: Result<
    crate::canonical::ir::CanonicalInterface,
    CanonicalWitError,
>)
    requires
        types_ordered(res.types@),
        id < res.interfaces@.len(),
        interface_within(res.interfaces@[id as int], res.types@.len() as int),
    ensures
        match r {
            Ok(x) => interface_of(res.types@, res.interfaces@[id as int], name@) == Ok::<
                InterfaceView,
                Seq<char>,
            >(crate::canonical::ir::interface_view(x)),
            Err(e) => interface_of(res.types@, res.interfaces@[id as int], name@) == Err::<
                InterfaceView,
                Seq<char>,
            >(e@),
        },
{
    let iface = &res.interfaces[id];
    let types = &res.types;
    let ghost trs = type_def_results(types@, iface.types@);
    let mut defs: Vec<CanonicalTypeDef> = Vec::new();
    let ghost mut got: Seq<TypeDefView> = Seq::empty();
    proof {
        lemma_none_yet(trs);
    }
    assert(type_defs_view(defs@) =~= sorted_by_name(got));
    for i in 0..iface.types.len()
        invariant
            trs == type_def_results(types@, iface.types@),
            *iface == res.interfaces@[id as int],
            types@ == res.types@,
            types_ordered(types@),
            interface_within(*iface, types@.len() as int),
            all_or_first_failure(trs.take(i as int)) == Ok::<Seq<TypeDefView>, Seq<char>>(got),
            type_defs_view(defs@) == sorted_by_name(got),
    {
        proof {
            lemma_next(trs, i as int);
        }
        let tid = iface.types[i];
        match canonical_type_def(types, tid) {
            Ok(d) => {
                let ghost before = got;
                proof {
                    got = got.push(type_def_view(d));
                    assert(got.drop_last() =~= before);
                }
                insert_type_def_by_name(&mut defs, d);
            },
            Err(e) => {
                proof {
                    lemma_failure_stays(trs, i + 1);
                }
                return Err(e);
            },
        }
    }
    assert(trs.take(trs.len() as int) =~= trs);
    let ghost frs = function_results(types@, iface.functions@);
    let mut fns: Vec<CanonicalFunction> = Vec::new();
    let ghost mut fgot: Seq<FunctionView> = Seq::empty();
    proof {
        lemma_none_yet(frs);
    }
    assert(functions_view(fns@) =~= sorted_by_name(fgot));
    for i in 0..iface.functions.len()
        invariant
            frs == function_results(types@, iface.functions@),
            trs == type_def_results(types@, iface.types@),
            all_or_first_failure(trs) == Ok::<Seq<TypeDefView>, Seq<char>>(got),
            type_defs_view(defs@) == sorted_by_name(got),
            *iface == res.interfaces@[id as int],
            types@ == res.types@,
            types_ordered(types@),
            interface_within(*iface, types@.len() as int),
            all_or_first_failure(frs.take(i as int)) == Ok::<Seq<FunctionView>, Seq<char>>(fgot),
            functions_view(fns@) == sorted_by_name(fgot),
    {
        proof {
            lemma_next(frs, i as int);
        }
        match canonical_function(types, &iface.functions[i]) {
            Ok(f) => {
                let ghost before = fgot;
                proof {
                    fgot = fgot.push(function_view(f));
                    assert(fgot.drop_last() =~= before);
                }
                insert_function_by_name(&mut fns, f);
            },
            Err(e) => {
                proof {
                    lemma_failure_stays(frs, i + 1);
                }
                return Err(e);
            },
        }
    }
    assert(frs.take(frs.len() as int) =~= frs);
    Ok(
        crate::canonical::ir::CanonicalInterface {
            name,
            docs: copy_opt_string(&iface.docs),
            functions: fns,
            types: defs,
        },
    )
}


/// The name under which a world imports or exports an item: its own name,
/// or `interface-` and the interface's id.
pub open spec fn key_name(key: WitWorldKey) -> Seq<char> {
    match key {
        WitWorldKey::Name(n) => n@,
        WitWorldKey::Interface(id) => "interface-"@ + decimal(id as nat),
    }
}

/// The message for a type imported or exported by a world itself.
pub open spec fn world_type_message() -> Seq<char> {
    "top-level world types are not yet supported in canonical import"@
}

/// The canonical interface of a world's import or export: an interface, or
/// a lone function as an interface of its own.
pub open spec fn world_item_of(res: WitResolve, entry: (WitWorldKey, WitWorldItem)) -> Result<
    InterfaceView,
    Seq<char>,
> {
    let name = key_name(entry.0);
    match entry.1 {
        WitWorldItem::Interface(id) => interface_of(res.types@, res.interfaces@[id as int], name),
        WitWorldItem::Function(f) => match function_of(res.types@, f) {
            Ok(fv) => Ok(
                InterfaceView {
                    name,
                    docs: opt_view(f.docs),
                    functions: seq![fv],
                    types: Seq::empty(),
                },
            ),
            Err(e) => Err(e),
        },
        WitWorldItem::Type => Err(world_type_message()),
    }
}

/// The canonical interfaces of a world's imports or exports, one by one.
pub open spec fn item_results(res: WitResolve, items: Seq<(WitWorldKey, WitWorldItem)>) -> Seq<
    Result<InterfaceView, Seq<char>>,
> {
    items.map_values(|it: (WitWorldKey, WitWorldItem)| world_item_of(res, it))
}

/// The canonical interfaces of a world's imports or exports, or the first
/// failure.
pub open spec fn items_of(res: WitResolve, items: Seq<(WitWorldKey, WitWorldItem)>) -> Result<
    Seq<InterfaceView>,
    Seq<char>,
> {
    all_or_first_failure(item_results(res, items))
}

/// A package's name as a canonical package reference.
pub open spec fn package_view(p: WitPackage) -> PackageRefView {
    PackageRefView { namespace: p.namespace@, name: p.name@, version: opt_view(p.version) }
}

/// The canonical form of a world: its imports, then its exports.
pub open spec fn world_of(res: WitResolve, w: WitWorld) -> Result<WorldView, Seq<char>> {
    match items_of(res, w.imports@) {
        Err(e) => Err(e),
        Ok(is) => match items_of(res, w.exports@) {
            Err(e) => Err(e),
            Ok(es) => Ok(
                WorldView {
                    package: match w.package {
                        Some(p) => Some(package_view(res.packages@[p as int])),
                        None => None,
                    },
                    name: w.name@,
                    docs: opt_view(w.docs),
                    imports: is,
                    exports: es,
                },
            ),
        },
    }
}

/// The world is the one named `name` in the package `package`.
pub open spec fn world_matches(w: WitWorld, package: usize, name: Seq<char>) -> bool {
    w.package == Some(package) && w.name@ == name
}

/// The first world from `i` on named `name` in the package `package`.
pub open spec fn find_world_from(worlds: Seq<WitWorld>, package: usize, name: Seq<char>, i: int) -> Option<int>
    decreases worlds.len() - i,
{
    if i < 0 || i >= worlds.len() {
        None
    } else if world_matches(worlds[i], package, name) {
        Some(i)
    } else {
        find_world_from(worlds, package, name, i + 1)
    }
}

/// The message for a world that is not there.
pub open spec fn missing_world_message(name: Seq<char>) -> Seq<char> {
    "world '"@ + name + "' was not found"@
}

/// The canonical form of the world named `name` in the package `package`.
pub open spec fn canonical_world_of(res: WitResolve, package: usize, name: Seq<char>) -> Result<
    WorldView,
    Seq<char>,
> {
    match find_world_from(res.worlds@, package, name, 0) {
        None => Err(missing_world_message(name)),
        Some(w) => world_of(res, res.worlds@[w]),
    }
}

/// The item a world imports or exports is in range.
pub open spec fn item_within(res: WitResolve, item: WitWorldItem) -> bool {
    match item {
        WitWorldItem::Interface(id) => id < res.interfaces@.len(),
        WitWorldItem::Function(f) => function_within(f, res.types@.len() as int),
        WitWorldItem::Type => true,
    }
}

/// The world's package and items are in range.
pub open spec fn world_within(res: WitResolve, w: WitWorld) -> bool {
    &&& (w.package matches Some(p) ==> p < res.packages@.len())
    &&& forall|k: int| 0 <= k < w.imports@.len() ==> item_within(res, (#[trigger] w.imports@[k]).1)
    &&& forall|k: int| 0 <= k < w.exports@.len() ==> item_within(res, (#[trigger] w.exports@[k]).1)
}

/// The resolve is well formed: every id in range, the type definitions in
/// dependency order.
pub open spec fn resolve_wf(res: WitResolve) -> bool {
    &&& types_ordered(res.types@)
    &&& forall|k: int|
        0 <= k < res.interfaces@.len() ==> interface_within(
            #[trigger] res.interfaces@[k],
            res.types@.len() as int,
        )
    &&& forall|k: int| 0 <= k < res.worlds@.len() ==> world_within(res, #[trigger] res.worlds@[k])
}

/// The name of a world's import or export.
fn world_key_name(key: &WitWorldKey) -> (r: String)
    ensures
        r@ == key_name(*key),
{
    match key {
        WitWorldKey::Name(n) => n.clone(),
        WitWorldKey::Interface(id) => {
            let mut s = "interface-".to_owned();
            let digits = crate::text::decimal_text(*id as u64);
            string_push_str(&mut s, digits.as_str());
            s
        },
    }
}

/// The canonical interface of a world's import or export.
fn canonical_world_item(res: &WitResolve, key: &WitWorldKey, item: &WitWorldItem) -> (r: Result<
    crate::canonical::ir::CanonicalInterface,
    CanonicalWitError,
>)
    requires
        resolve_wf(*res),
        item_within(*res, *item),
    ensures
        match r {
            Ok(x) => world_item_of(*res, (*key, *item)) == Ok::<InterfaceView, Seq<char>>(
                crate::canonical::ir::interface_view(x),
            ),
            Err(e) => world_item_of(*res, (*key, *item)) == Err::<InterfaceView, Seq<char>>(e@),
        },
{
    let name = world_key_name(key);
    match item {
        WitWorldItem::Interface(id) => {
            assert(interface_within(res.interfaces@[*id as int], res.types@.len() as int));
            canonical_interface(res, name, *id)
        },
        WitWorldItem::Function(function) => match canonical_function(&res.types, function) {
            Ok(f) => {
                let docs = copy_opt_string(&function.docs);
                let mut functions: Vec<CanonicalFunction> = Vec::new();
                functions.push(f);
                let types: Vec<CanonicalTypeDef> = Vec::new();
                assert(functions_view(functions@) =~= seq![function_view(f)]);
                assert(type_defs_view(types@) =~= Seq::<TypeDefView>::empty());
                Ok(crate::canonical::ir::CanonicalInterface { name, docs, functions, types })
            },
            Err(e) => Err(e),
        },
        WitWorldItem::Type => Err(
            wit_error("top-level world types are not yet supported in canonical import"),
        ),
    }
}

/// The canonical interfaces of a world's imports or exports.
fn canonical_world_items(res: &WitResolve, items: &Vec<(WitWorldKey, WitWorldItem)>) -> (r: Result<
    Vec<crate::canonical::ir::CanonicalInterface>,
    CanonicalWitError,
>)
    requires
        resolve_wf(*res),
        forall|k: int| 0 <= k < items@.len() ==> item_within(*res, (#[trigger] items@[k]).1),
    ensures
        match r {
            Ok(xs) => items_of(*res, items@) == Ok::<Seq<InterfaceView>, Seq<char>>(
                crate::canonical::ir::interfaces_view(xs@),
            ),
            Err(e) => items_of(*res, items@) == Err::<Seq<InterfaceView>, Seq<char>>(e@),
        },
{
    let ghost rs = item_results(*res, items@);
    let mut out: Vec<crate::canonical::ir::CanonicalInterface> = Vec::new();
    proof {
        lemma_none_yet(rs);
    }
    assert(crate::canonical::ir::interfaces_view(out@) =~= Seq::<InterfaceView>::empty());
    for i in 0..items.len()
        invariant
            rs == item_results(*res, items@),
            resolve_wf(*res),
            forall|k: int| 0 <= k < items@.len() ==> item_within(*res, (#[trigger] items@[k]).1),
            all_or_first_failure(rs.take(i as int)) == Ok::<Seq<InterfaceView>, Seq<char>>(
                crate::canonical::ir::interfaces_view(out@),
            ),
    {
        proof {
            lemma_next(rs, i as int);
        }
        let ghost before = out@;
        match canonical_world_item(res, &items[i].0, &items[i].1) {
            Ok(x) => {
                out.push(x);
                assert(crate::canonical::ir::interfaces_view(out@) =~= crate::canonical::ir::interfaces_view(
                    before,
                ).push(crate::canonical::ir::interface_view(x)));
            },
            Err(e) => {
                proof {
                    lemma_failure_stays(rs, i + 1);
                }
                return Err(e);
            },
        }
    }
    assert(rs.take(rs.len() as int) =~= rs);
    Ok(out)
}

/// The canonical form of the world at `w`.
fn canonical_world(res: &WitResolve, w: usize) -> (r: Result<
    crate::canonical::ir::CanonicalWorld,
    CanonicalWitError,
>)
    requires
        resolve_wf(*res),
        w < res.worlds@.len(),
    ensures
        match r {
            Ok(x) => world_of(*res, res.worlds@[w as int]) == Ok::<WorldView, Seq<char>>(
                crate::canonical::ir::world_view(x),
            ),
            Err(e) => world_of(*res, res.worlds@[w as int]) == Err::<WorldView, Seq<char>>(e@),
        },
{
    let world = &res.worlds[w];
    assert(world_within(*res, *world));
    let package = match world.package {
        Some(p) => {
            let pk = &res.packages[p];
            Some(
                crate::canonical::ir::CanonicalPackageRef {
                    namespace: pk.namespace.clone(),
                    name: pk.name.clone(),
                    version: copy_opt_string(&pk.version),
                },
            )
        },
        None => None,
    };
    let imports = match canonical_world_items(res, &world.imports) {
        Ok(xs) => xs,
        Err(e) => {
            return Err(e);
        },
    };
    let exports = match canonical_world_items(res, &world.exports) {
        Ok(xs) => xs,
        Err(e) => {
            return Err(e);
        },
    };
    Ok(
        crate::canonical::ir::CanonicalWorld {
            package,
            name: world.name.clone(),
            docs: copy_opt_string(&world.docs),
            imports,
            exports,
        },
    )
}

/// The position of the world named `world_name` in the package `package`.
fn find_world(res: &WitResolve, package: usize, world_name: &str) -> (r: Result<
    usize,
    CanonicalWitError,
>)
    ensures
        match r {
            Ok(w) => find_world_from(res.worlds@, package, world_name@, 0) == Some(w as int),
            Err(e) => find_world_from(res.worlds@, package, world_name@, 0) is None && e@
                == missing_world_message(world_name@),
        },
{
    let mut i: usize = 0;
    while i < res.worlds.len()
        invariant
            i <= res.worlds@.len(),
            find_world_from(res.worlds@, package, world_name@, 0) == find_world_from(
                res.worlds@,
                package,
                world_name@,
                i as int,
            ),
        decreases res.worlds@.len() - i,
    {
        let world = &res.worlds[i];
        let same_package = match world.package {
            Some(p) => p == package,
            None => false,
        };
        if same_package && crate::text::str_eq(world.name.as_str(), world_name) {
            return Ok(i);
        }
        i = i + 1;
    }
    let mut m = "world '".to_owned();
    string_push_str(&mut m, world_name);
    string_push_str(&mut m, "' was not found");
    Err(CanonicalWitError::new(m))
}

/// Imports the world named `world_name` of the package `package` from
/// resolved WIT documents into the canonical description; see
/// `canonical_world_of`.
pub fn canonical_world_from_resolve(resolve: &WitResolve, package: usize, world_name: &str) -> (r: Result<
    crate::canonical::ir::CanonicalWorld,
    CanonicalWitError,
>)
    requires
        resolve_wf(*resolve),
    ensures
        match r {
            Ok(x) => canonical_world_of(*resolve, package, world_name@) == Ok::<WorldView, Seq<char>>(
                crate::canonical::ir::world_view(x),
            ),
            Err(e) => canonical_world_of(*resolve, package, world_name@) == Err::<WorldView, Seq<char>>(
                e@,
            ),
        },
{
    let w = match find_world(resolve, package, world_name) {
        Ok(w) => w,
        Err(e) => {
            return Err(e);
        },
    };
    proof {
        lemma_found_world_in_range(resolve.worlds@, package, world_name@, 0);
    }
    canonical_world(resolve, w)
}

/// Whether a type reaches no further than `b`.
fn rank_within(ty: &WitType, b: usize) -> (r: bool)
    ensures
        r == (rank(*ty) <= b),
{
    match ty {
        WitType::Id(j) => *j < b,
        _ => true,
    }
}

/// Whether an optional type reaches no further than `b`.
fn opt_rank_within(ty: &Option<WitType>, b: usize) -> (r: bool)
    ensures
        r == (opt_rank(*ty) <= b),
{
    match ty {
        Some(t) => rank_within(t, b),
        None => true,
    }
}

/// Whether every type a shape refers to reaches no further than `b`.
#[verifier::loop_isolation(false)]
fn kind_is_within(kind: &WitTypeDefKind, b: usize) -> (r: bool)
    ensures
        r == kind_within(*kind, b as int),
{
    match kind {
        WitTypeDefKind::Record(fs) => {
            for i in 0..fs.len()
                invariant
                    forall|k: int| 0 <= k < i ==> rank(#[trigger] fs@[k].ty) <= b,
            {
                if !rank_within(&fs[i].ty, b) {
                    return false;
                }
            }
            true
        },
        WitTypeDefKind::Tuple(tys) => {
            for i in 0..tys.len()
                invariant
                    forall|k: int| 0 <= k < i ==> rank(#[trigger] tys@[k]) <= b,
            {
                if !rank_within(&tys[i], b) {
                    return false;
                }
            }
            true
        },
        WitTypeDefKind::Variant(cs) => {
            for i in 0..cs.len()
                invariant
                    forall|k: int| 0 <= k < i ==> opt_rank(#[trigger] cs@[k].ty) <= b,
            {
                if !opt_rank_within(&cs[i].ty, b) {
                    return false;
                }
            }
            true
        },
        WitTypeDefKind::Option(t) => rank_within(t, b),
        WitTypeDefKind::Result(ok, err) => opt_rank_within(ok, b) && opt_rank_within(err, b),
        WitTypeDefKind::List(t) => rank_within(t, b),
        WitTypeDefKind::Type(t) => rank_within(t, b),
        _ => true,
    }
}

/// Whether a function's types reach no further than `n`.
fn function_is_within(f: &WitFunction, n: usize) -> (r: bool)
    ensures
        r == function_within(*f, n as int),
{
    for i in 0..f.params.len()
        invariant
            forall|k: int| 0 <= k < i ==> rank(#[trigger] f.params@[k].1) <= n,
    {
        if !rank_within(&f.params[i].1, n) {
            return false;
        }
    }
    opt_rank_within(&f.result, n)
}

/// Whether an interface's type ids and function types are below `n`.
fn interface_is_within(iface: &WitInterface, n: usize) -> (r: bool)
    ensures
        r == interface_within(*iface, n as int),
{
    for i in 0..iface.types.len()
        invariant
            forall|k: int| 0 <= k < i ==> (#[trigger] iface.types@[k]) < n,
    {
        if iface.types[i] >= n {
            return false;
        }
    }
    for i in 0..iface.functions.len()
        invariant
            forall|k: int| 0 <= k < iface.types@.len() ==> (#[trigger] iface.types@[k]) < n,
            forall|k: int| 0 <= k < i ==> function_within(#[trigger] iface.functions@[k], n as int),
    {
        if !function_is_within(&iface.functions[i], n) {
            return false;
        }
    }
    true
}

/// Whether the items of a world's imports or exports are in range.
fn items_are_within(res: &WitResolve, items: &Vec<(WitWorldKey, WitWorldItem)>) -> (r: bool)
    ensures
        r == forall|k: int| 0 <= k < items@.len() ==> item_within(*res, (#[trigger] items@[k]).1),
{
    for i in 0..items.len()
        invariant
            forall|k: int| 0 <= k < i ==> item_within(*res, (#[trigger] items@[k]).1),
    {
        let ok = match &items[i].1 {
            WitWorldItem::Interface(id) => *id < res.interfaces.len(),
            WitWorldItem::Function(f) => function_is_within(f, res.types.len()),
            WitWorldItem::Type => true,
        };
        if !ok {
            return false;
        }
    }
    true
}

/// Whether resolved WIT documents are well formed (see `resolve_wf`): every
/// id in range and the type definitions in dependency order.
pub fn resolve_is_wf(res: &WitResolve) -> (r: bool)
    ensures
        r == resolve_wf(*res),
{
    for t in 0..res.types.len()
        invariant
            forall|k: int| 0 <= k < t ==> kind_within(#[trigger] res.types@[k].kind, k),
    {
        if !kind_is_within(&res.types[t].kind, t) {
            return false;
        }
    }
    for i in 0..res.interfaces.len()
        invariant
            types_ordered(res.types@),
            forall|k: int|
                0 <= k < i ==> interface_within(#[trigger] res.interfaces@[k], res.types@.len() as int),
    {
        if !interface_is_within(&res.interfaces[i], res.types.len()) {
            return false;
        }
    }
    for i in 0..res.worlds.len()
        invariant
            types_ordered(res.types@),
            forall|k: int|
                0 <= k < res.interfaces@.len() ==> interface_within(
                    #[trigger] res.interfaces@[k],
                    res.types@.len() as int,
                ),
            forall|k: int| 0 <= k < i ==> world_within(*res, #[trigger] res.worlds@[k]),
    {
        let w = &res.worlds[i];
        let package_ok = match w.package {
            Some(p) => p < res.packages.len(),
            None => true,
        };
        if !package_ok || !items_are_within(res, &w.imports) || !items_are_within(res, &w.exports) {
            return false;
        }
    }
    true
}

/// The message for resolved WIT documents that are not well formed.
pub open spec fn malformed_resolve_message() -> Seq<char> {
    "resolved WIT documents are malformed: an id is out of range or a type refers ahead"@
}

/// Imports the world named `world_name` of package `package` from resolved
/// documents that are first checked to be well formed: malformed documents
/// give an error saying so; otherwise this is
/// `canonical_world_from_resolve`.
pub fn import_checked_world(resolve: &WitResolve, package: usize, world_name: &str) -> (r: Result<
    crate::canonical::ir::CanonicalWorld,
    CanonicalWitError,
>)
    ensures
        !resolve_wf(*resolve) ==> (r matches Err(e) && e@ == malformed_resolve_message()),
        resolve_wf(*resolve) ==> match r {
            Ok(x) => canonical_world_of(*resolve, package, world_name@) == Ok::<WorldView, Seq<char>>(
                crate::canonical::ir::world_view(x),
            ),
            Err(e) => canonical_world_of(*resolve, package, world_name@) == Err::<WorldView, Seq<char>>(
                e@,
            ),
        },
{
    if !resolve_is_wf(resolve) {
        proof {
            reveal_strlit("resolved WIT documents are malformed: an id is out of range or a type refers ahead");
        }
        return Err(
            CanonicalWitError::new(
                "resolved WIT documents are malformed: an id is out of range or a type refers ahead".to_owned(),
            ),
        );
    }
    canonical_world_from_resolve(resolve, package, world_name)
}

proof fn lemma_found_world_in_range(worlds: Seq<WitWorld>, package: usize, name: Seq<char>, i: int)
    ensures
        find_world_from(worlds, package, name, i) matches Some(w) ==> i <= w < worlds.len(),
    decreases worlds.len() - i,
{
    if 0 <= i < worlds.len() && !world_matches(worlds[i], package, name) {
        lemma_found_world_in_range(worlds, package, name, i + 1);
    }
}


/// No item comes after a later one by name.
pub open spec fn ordered_by_name<T: NameKeyed>(s: Seq<T>) -> bool {
    forall|i: int, j: int| 0 <= i < j < s.len() ==> !lex_lt(#[trigger] s[j].sort_key(), #[trigger] s[i].sort_key())
}

proof fn lemma_upper_bound<T: NameKeyed>(s: Seq<T>, k: Seq<char>, i: int)
    requires
        0 <= i <= s.len(),
    ensures
        i <= upper_bound(s, k, i) <= s.len(),
        forall|m: int| i <= m < upper_bound(s, k, i) ==> !lex_lt(k, #[trigger] s[m].sort_key()),
        upper_bound(s, k, i) < s.len() ==> lex_lt(k, s[upper_bound(s, k, i)].sort_key()),
    decreases s.len() - i,
{
    if i < s.len() && !lex_lt(k, s[i].sort_key()) {
        lemma_upper_bound(s, k, i + 1);
    }
}

proof fn lemma_insert_keeps_order<T: NameKeyed>(s: Seq<T>, x: T)
    requires
        ordered_by_name(s),
    ensures
        ordered_by_name(insert_by_name(s, x)),
        insert_by_name(s, x).len() == s.len() + 1,
{
    let k = x.sort_key();
    let u = upper_bound(s, k, 0);
    lemma_upper_bound(s, k, 0);
    let q = s.insert(u, x);
    assert forall|i: int, j: int| 0 <= i < j < q.len() implies !lex_lt(
        #[trigger] q[j].sort_key(),
        #[trigger] q[i].sort_key(),
    ) by {
        if j < u {
            assert(q[i] == s[i] && q[j] == s[j]);
        } else if j == u {
            assert(q[i] == s[i]);
            assert(!lex_lt(k, s[i].sort_key()));
        } else if i < u {
            assert(q[i] == s[i] && q[j] == s[j - 1]);
        } else if i == u {
            assert(q[j] == s[j - 1]);
            assert(lex_lt(k, s[u].sort_key()));
            if lex_lt(s[j - 1].sort_key(), k) {
                lemma_lex_transitive(s[j - 1].sort_key(), k, s[u].sort_key());
                if j - 1 == u {
                    lemma_lex_irreflexive(s[u].sort_key());
                }
            }
        } else {
            assert(q[i] == s[i - 1] && q[j] == s[j - 1]);
        }
    }
}

/// Ordering by name puts no item after one whose name comes after its own,
/// and keeps every item.
pub proof fn lemma_sorted_by_name_is_ordered<T: NameKeyed>(s: Seq<T>)
    ensures
        ordered_by_name(sorted_by_name(s)),
        sorted_by_name(s).len() == s.len(),
    decreases s.len(),
{
    if s.len() > 0 {
        lemma_sorted_by_name_is_ordered(s.drop_last());
        lemma_insert_keeps_order(sorted_by_name(s.drop_last()), s.last());
    }
}

/// An imported interface lists its types and its functions in name order.
pub proof fn lemma_interface_members_ordered(types: Seq<WitTypeDef>, iface: WitInterface, name: Seq<char>)
    ensures
        interface_of(types, iface, name) matches Ok(v) ==> ordered_by_name(v.types) && ordered_by_name(
            v.functions,
        ),
{
    if let Ok(ts) = type_defs_of(types, iface.types@) {
        lemma_sorted_by_name_is_ordered(ts);
    }
    if let Ok(fs) = functions_of(types, iface.functions@) {
        lemma_sorted_by_name_is_ordered(fs);
    }
}

} // verus!
