//! The canonical interface description of a skill: its world, the
//! interfaces it exports and imports, their functions and types.
use vstd::prelude::*;

verus! {

/// The package a world belongs to.
#[derive(Debug, Clone, PartialEq, Eq)]
pub struct CanonicalPackageRef {
    pub namespace: String,
    pub name: String,
    pub version: Option<String>,
}

/// A world: the interfaces a component imports and exports.
#[derive(Debug, Clone, PartialEq, Eq)]
pub struct CanonicalWorld {
    pub package: Option<CanonicalPackageRef>,
    pub name: String,
    pub docs: Option<String>,
    pub imports: Vec<CanonicalInterface>,
    pub exports: Vec<CanonicalInterface>,
}

/// A named set of functions and the types they use.
#[derive(Debug, Clone, PartialEq, Eq)]
pub struct CanonicalInterface {
    pub name: String,
    pub docs: Option<String>,
    pub functions: Vec<CanonicalFunction>,
    pub types: Vec<CanonicalTypeDef>,
}

/// A function of an interface.
#[derive(Debug, Clone, PartialEq, Eq)]
pub struct CanonicalFunction {
    pub name: String,
    pub docs: Option<String>,
    pub params: Vec<CanonicalParam>,
    pub result: CanonicalFunctionResult,
}

/// A named, typed parameter (or named result).
#[derive(Debug, Clone, PartialEq, Eq)]
pub struct CanonicalParam {
    pub name: String,
    pub ty: CanonicalTypeRef,
}

/// What a function returns.
#[derive(Debug, Clone, PartialEq, Eq)]
pub enum CanonicalFunctionResult {
    Nothing,
    Scalar(CanonicalTypeRef),
    Named(Vec<CanonicalParam>),
}

/// A named type definition.
#[derive(Debug, Clone, PartialEq, Eq)]
pub struct CanonicalTypeDef {
    pub name: String,
    pub docs: Option<String>,
    pub kind: CanonicalTypeDefKind,
}

/// The shape of a named type.
#[derive(Debug, Clone, PartialEq, Eq)]
pub enum CanonicalTypeDefKind {
    Alias(CanonicalTypeRef),
    Record(CanonicalRecord),
    Enum(Vec<CanonicalEnumCase>),
    Variant(Vec<CanonicalVariantCase>),
    Flags(Vec<String>),
}

/// The fields of a record type.
#[derive(Debug, Clone, PartialEq, Eq)]
pub struct CanonicalRecord {
    pub fields: Vec<CanonicalField>,
}

/// A field of a record type.
#[derive(Debug, Clone, PartialEq, Eq)]
pub struct CanonicalField {
    pub name: String,
    pub docs: Option<String>,
    pub ty: CanonicalTypeRef,
}

/// A case of an enum type.
#[derive(Debug, Clone, PartialEq, Eq)]
pub struct CanonicalEnumCase {
    pub name: String,
    pub docs: Option<String>,
}

/// A case of a variant type, with its payload type if it has one.
#[derive(Debug, Clone, PartialEq, Eq)]
pub struct CanonicalVariantCase {
    pub name: String,
    pub docs: Option<String>,
    pub ty: Option<CanonicalTypeRef>,
}

/// A reference to a type: a primitive, a named definition, or a structural
/// combination of them.
#[derive(Debug, PartialEq, Eq)]
pub enum CanonicalTypeRef {
    Primitive(CanonicalPrimitiveType),
    Named(String),
    List(Box<CanonicalTypeRef>),
    Option(Box<CanonicalTypeRef>),
    Result { ok: Option<Box<CanonicalTypeRef>>, err: Option<Box<CanonicalTypeRef>> },
    Tuple(Vec<CanonicalTypeRef>),
}

/// The primitive types.
#[derive(Debug, Clone, Copy, PartialEq, Eq, Structural)]
pub enum CanonicalPrimitiveType {
    Bool,
    S8,
    S16,
    S32,
    S64,
    U8,
    U16,
    U32,
    U64,
    Float32,
    Float64,
    Char,
    String,
}

/// A fully resolved type, with named definitions inlined.
#[derive(Debug, PartialEq, Eq)]
pub enum CanonicalType {
    Primitive(CanonicalPrimitiveType),
    List(Box<CanonicalType>),
    Option(Box<CanonicalType>),
    Result { ok: Option<Box<CanonicalType>>, err: Option<Box<CanonicalType>> },
    Tuple(Vec<CanonicalType>),
    Named(CanonicalTypeDef),
}

/// A copy of an optional string.
pub fn copy_opt_string(s: &Option<String>) -> (r: Option<String>)
    ensures
        r == *s,
{
    match s {
        Some(v) => Some(v.clone()),
        None => None,
    }
}

/// A copy of a list of strings.
pub fn copy_strings(v: &Vec<String>) -> (r: Vec<String>)
    ensures
        r@ == v@,
{
    let mut out: Vec<String> = Vec::new();
    for i in 0..v.len()
        invariant
            out@ == v@.take(i as int),
    {
        out.push(v[i].clone());
        assert(out@ =~= v@.take(i + 1));
    }
    assert(out@ =~= v@);
    out
}

impl CanonicalTypeRef {
    /// The two references describe the same type: equal primitives and names,
    /// and the same structure all the way down.
    pub open spec fn same(self, other: CanonicalTypeRef) -> bool
        decreases self,
    {
        match self {
            CanonicalTypeRef::Primitive(p) => other == CanonicalTypeRef::Primitive(p),
            CanonicalTypeRef::Named(n) => other matches CanonicalTypeRef::Named(m) && m == n,
            CanonicalTypeRef::List(a) => other matches CanonicalTypeRef::List(b) && (*a).same(*b),
            CanonicalTypeRef::Option(a) => other matches CanonicalTypeRef::Option(b) && (*a).same(
                *b,
            ),
            CanonicalTypeRef::Result { ok, err } => other matches CanonicalTypeRef::Result {
                ok: ok2,
                err: err2,
            } && (match (ok, ok2) {
                (Some(a), Some(b)) => (*a).same(*b),
                (None, None) => true,
                _ => false,
            }) && (match (err, err2) {
                (Some(a), Some(b)) => (*a).same(*b),
                (None, None) => true,
                _ => false,
            }),
            CanonicalTypeRef::Tuple(xs) => other matches CanonicalTypeRef::Tuple(ys) && xs@.len()
                == ys@.len() && forall|i: int|
                0 <= i < xs@.len() ==> (#[trigger] xs@[i]).same(ys@[i]),
        }
    }

    /// A copy of this type reference.
    pub fn copy(&self) -> (r: CanonicalTypeRef)
        ensures
            r.same(*self),
        decreases self,
    {
        match self {
            CanonicalTypeRef::Primitive(p) => CanonicalTypeRef::Primitive(*p),
            CanonicalTypeRef::Named(n) => CanonicalTypeRef::Named(n.clone()),
            CanonicalTypeRef::List(inner) => CanonicalTypeRef::List(Box::new((**inner).copy())),
            CanonicalTypeRef::Option(inner) => CanonicalTypeRef::Option(
                Box::new((**inner).copy()),
            ),
            CanonicalTypeRef::Result { ok, err } => {
                let ok2 = match ok {
                    Some(t) => Some(Box::new((**t).copy())),
                    None => None,
                };
                let err2 = match err {
                    Some(t) => Some(Box::new((**t).copy())),
                    None => None,
                };
                CanonicalTypeRef::Result { ok: ok2, err: err2 }
            },
            CanonicalTypeRef::Tuple(items) => {
                let mut out: Vec<CanonicalTypeRef> = Vec::new();
                for i in 0..items.len()
                    invariant
                        out@.len() == i,
                        i <= items@.len(),
                        *self == CanonicalTypeRef::Tuple(*items),
                        forall|j: int| 0 <= j < i ==> (#[trigger] out@[j]).same(items@[j]),
                {
                    proof {
                        assert(decreases_to!(items => items@));
                        assert(decreases_to!(items@ => items@[i as int]));
                        assert(decreases_to!(*self => (*self)->Tuple_0));
                        assert(decreases_to!(*self => items@[i as int]));
                    }
                    out.push(items[i].copy());
                }
                CanonicalTypeRef::Tuple(out)
            },
        }
    }
}

impl Clone for CanonicalTypeRef {
    fn clone(&self) -> (r: Self)
        ensures
            r.same(*self),
    {
        self.copy()
    }
}

/// Two parameter lists agree name by name and type by type.
pub open spec fn same_params(a: Seq<CanonicalParam>, b: Seq<CanonicalParam>) -> bool {
    &&& a.len() == b.len()
    &&& forall|i: int| 0 <= i < a.len() ==> (#[trigger] a[i]).name == b[i].name && a[i].ty.same(b[i].ty)
}

/// A copy of a list of parameters.
pub fn copy_params(v: &Vec<CanonicalParam>) -> (r: Vec<CanonicalParam>)
    ensures
        same_params(r@, v@),
{
    let mut out: Vec<CanonicalParam> = Vec::new();
    for i in 0..v.len()
        invariant
            out@.len() == i,
            i <= v@.len(),
            forall|j: int| 0 <= j < i ==> (#[trigger] out@[j]).name == v@[j].name && out@[j].ty.same(v@[j].ty),
    {
        out.push(CanonicalParam { name: v[i].name.clone(), ty: v[i].ty.copy() });
    }
    out
}

impl CanonicalFunctionResult {
    /// Both describe the same result.
    pub open spec fn same(self, other: CanonicalFunctionResult) -> bool {
        match self {
            CanonicalFunctionResult::Nothing => other is Nothing,
            CanonicalFunctionResult::Scalar(t) => other matches CanonicalFunctionResult::Scalar(u)
                && t.same(u),
            CanonicalFunctionResult::Named(ps) => other matches CanonicalFunctionResult::Named(qs)
                && same_params(ps@, qs@),
        }
    }

    /// A copy of this result description.
    pub fn copy(&self) -> (r: CanonicalFunctionResult)
        ensures
            r.same(*self),
    {
        match self {
            CanonicalFunctionResult::Nothing => CanonicalFunctionResult::Nothing,
            CanonicalFunctionResult::Scalar(t) => CanonicalFunctionResult::Scalar(t.copy()),
            CanonicalFunctionResult::Named(ps) => CanonicalFunctionResult::Named(copy_params(ps)),
        }
    }
}

impl CanonicalTypeDefKind {
    /// Both describe the same shape.
    pub open spec fn same(self, other: CanonicalTypeDefKind) -> bool {
        match self {
            CanonicalTypeDefKind::Alias(t) => other matches CanonicalTypeDefKind::Alias(u) && t.same(
                u,
            ),
            CanonicalTypeDefKind::Record(rec) => other matches CanonicalTypeDefKind::Record(rec2)
                && rec.fields@.len() == rec2.fields@.len() && forall|i: int|
                0 <= i < rec.fields@.len() ==> (#[trigger] rec.fields@[i]).name == rec2.fields@[i].name
                    && rec.fields@[i].docs == rec2.fields@[i].docs && rec.fields@[i].ty.same(
                    rec2.fields@[i].ty,
                ),
            CanonicalTypeDefKind::Enum(cases) => other matches CanonicalTypeDefKind::Enum(cases2)
                && cases@ == cases2@,
            CanonicalTypeDefKind::Variant(cases) => other matches CanonicalTypeDefKind::Variant(
                cases2,
            ) && cases@.len() == cases2@.len() && forall|i: int|
                0 <= i < cases@.len() ==> (#[trigger] cases@[i]).name == cases2@[i].name
                    && cases@[i].docs == cases2@[i].docs && (match (cases@[i].ty, cases2@[i].ty) {
                    (Some(a), Some(b)) => a.same(b),
                    (None, None) => true,
                    _ => false,
                }),
            CanonicalTypeDefKind::Flags(flags) => other matches CanonicalTypeDefKind::Flags(flags2)
                && flags@ == flags2@,
        }
    }

    /// A copy of this type shape.
    pub fn copy(&self) -> (r: CanonicalTypeDefKind)
        ensures
            r.same(*self),
    {
        match self {
            CanonicalTypeDefKind::Alias(t) => CanonicalTypeDefKind::Alias(t.copy()),
            CanonicalTypeDefKind::Record(rec) => {
                let mut out: Vec<CanonicalField> = Vec::new();
                for i in 0..rec.fields.len()
                    invariant
                        out@.len() == i,
                        i <= rec.fields@.len(),
                        forall|j: int|
                            0 <= j < i ==> (#[trigger] out@[j]).name == rec.fields@[j].name
                                && out@[j].docs == rec.fields@[j].docs && out@[j].ty.same(
                                rec.fields@[j].ty,
                            ),
                {
                    let f = &rec.fields[i];
                    out.push(
                        CanonicalField {
                            name: f.name.clone(),
                            docs: copy_opt_string(&f.docs),
                            ty: f.ty.copy(),
                        },
                    );
                }
                CanonicalTypeDefKind::Record(CanonicalRecord { fields: out })
            },
            CanonicalTypeDefKind::Enum(cases) => {
                let mut out: Vec<CanonicalEnumCase> = Vec::new();
                for i in 0..cases.len()
                    invariant
                        out@ == cases@.take(i as int),
                {
                    out.push(
                        CanonicalEnumCase {
                            name: cases[i].name.clone(),
                            docs: copy_opt_string(&cases[i].docs),
                        },
                    );
                    assert(out@ =~= cases@.take(i + 1));
                }
                assert(out@ =~= cases@);
                CanonicalTypeDefKind::Enum(out)
            },
            CanonicalTypeDefKind::Variant(cases) => {
                let mut out: Vec<CanonicalVariantCase> = Vec::new();
                for i in 0..cases.len()
                    invariant
                        out@.len() == i,
                        i <= cases@.len(),
                        forall|j: int|
                            0 <= j < i ==> (#[trigger] out@[j]).name == cases@[j].name
                                && out@[j].docs == cases@[j].docs && (match (
                                out@[j].ty,
                                cases@[j].ty,
                            ) {
                                (Some(a), Some(b)) => a.same(b),
                                (None, None) => true,
                                _ => false,
                            }),
                {
                    let c = &cases[i];
                    let ty = match &c.ty {
                        Some(t) => Some(t.copy()),
                        None => None,
                    };
                    out.push(
                        CanonicalVariantCase {
                            name: c.name.clone(),
                            docs: copy_opt_string(&c.docs),
                            ty,
                        },
                    );
                }
                CanonicalTypeDefKind::Variant(out)
            },
            CanonicalTypeDefKind::Flags(flags) => CanonicalTypeDefKind::Flags(copy_strings(flags)),
        }
    }
}

impl CanonicalTypeDef {
    /// Both define the same type under the same name.
    pub open spec fn same(self, other: CanonicalTypeDef) -> bool {
        &&& self.name == other.name
        &&& self.docs == other.docs
        &&& self.kind.same(other.kind)
    }

    /// A copy of this type definition.
    pub fn copy(&self) -> (r: CanonicalTypeDef)
        ensures
            r.same(*self),
    {
        CanonicalTypeDef {
            name: self.name.clone(),
            docs: copy_opt_string(&self.docs),
            kind: self.kind.copy(),
        }
    }
}


/// A type reference with its names as character sequences and its tuples as
/// `Seq`s.
pub enum TypeRefView {
    Primitive(CanonicalPrimitiveType),
    Named(Seq<char>),
    List(Box<TypeRefView>),
    Option(Box<TypeRefView>),
    Result(Option<Box<TypeRefView>>, Option<Box<TypeRefView>>),
    Tuple(Seq<TypeRefView>),
}

/// The view of a type reference.
pub open spec fn type_ref_view(t: CanonicalTypeRef) -> TypeRefView
    decreases t,
{
    match t {
        CanonicalTypeRef::Primitive(p) => TypeRefView::Primitive(p),
        CanonicalTypeRef::Named(n) => TypeRefView::Named(n@),
        CanonicalTypeRef::List(a) => TypeRefView::List(Box::new(type_ref_view(*a))),
        CanonicalTypeRef::Option(a) => TypeRefView::Option(Box::new(type_ref_view(*a))),
        CanonicalTypeRef::Result { ok, err } => TypeRefView::Result(
            match ok {
                Some(a) => Some(Box::new(type_ref_view(*a))),
                None => None,
            },
            match err {
                Some(a) => Some(Box::new(type_ref_view(*a))),
                None => None,
            },
        ),
        CanonicalTypeRef::Tuple(xs) => TypeRefView::Tuple(type_ref_views(xs@)),
    }
}

/// The views of a list of type references, one by one.
pub open spec fn type_ref_views(xs: Seq<CanonicalTypeRef>) -> Seq<TypeRefView>
    decreases xs,
{
    Seq::new(
        xs.len(),
        |i: int|
            if 0 <= i < xs.len() {
                type_ref_view(xs[i])
            } else {
                TypeRefView::Tuple(Seq::empty())
            },
    )
}

/// An optional string as an optional character sequence.
pub open spec fn opt_view(s: Option<String>) -> Option<Seq<char>> {
    match s {
        Some(v) => Some(v@),
        None => None,
    }
}

/// A record field as plain values.
pub struct FieldView {
    pub name: Seq<char>,
    pub docs: Option<Seq<char>>,
    pub ty: TypeRefView,
}

/// A variant case as plain values.
pub struct VariantCaseView {
    pub name: Seq<char>,
    pub docs: Option<Seq<char>>,
    pub ty: Option<TypeRefView>,
}

/// The shape of a named type as plain values; an enum case is its name and
/// docs.
pub enum TypeDefKindView {
    Alias(TypeRefView),
    Record(Seq<FieldView>),
    Enum(Seq<(Seq<char>, Option<Seq<char>>)>),
    Variant(Seq<VariantCaseView>),
    Flags(Seq<Seq<char>>),
}

/// A named type definition as plain values.
pub struct TypeDefView {
    pub name: Seq<char>,
    pub docs: Option<Seq<char>>,
    pub kind: TypeDefKindView,
}

/// What a function returns, as plain values; a parameter is its name and
/// type.
pub enum FunctionResultView {
    Nothing,
    Scalar(TypeRefView),
    Named(Seq<(Seq<char>, TypeRefView)>),
}

/// A function as plain values.
pub struct FunctionView {
    pub name: Seq<char>,
    pub docs: Option<Seq<char>>,
    pub params: Seq<(Seq<char>, TypeRefView)>,
    pub result: FunctionResultView,
}

/// An interface as plain values.
pub struct InterfaceView {
    pub name: Seq<char>,
    pub docs: Option<Seq<char>>,
    pub functions: Seq<FunctionView>,
    pub types: Seq<TypeDefView>,
}

/// A package reference as plain values.
pub struct PackageRefView {
    pub namespace: Seq<char>,
    pub name: Seq<char>,
    pub version: Option<Seq<char>>,
}

/// A world as plain values.
pub struct WorldView {
    pub package: Option<PackageRefView>,
    pub name: Seq<char>,
    pub docs: Option<Seq<char>>,
    pub imports: Seq<InterfaceView>,
    pub exports: Seq<InterfaceView>,
}

/// The view of a record field.
pub open spec fn field_view(f: CanonicalField) -> FieldView {
    FieldView { name: f.name@, docs: opt_view(f.docs), ty: type_ref_view(f.ty) }
}

/// The view of a variant case.
pub open spec fn variant_case_view(c: CanonicalVariantCase) -> VariantCaseView {
    VariantCaseView {
        name: c.name@,
        docs: opt_view(c.docs),
        ty: match c.ty {
            Some(t) => Some(type_ref_view(t)),
            None => None,
        },
    }
}

/// The view of an enum case.
pub open spec fn enum_case_view(c: CanonicalEnumCase) -> (Seq<char>, Option<Seq<char>>) {
    (c.name@, opt_view(c.docs))
}

/// The views of a list of record fields.
pub open spec fn fields_view(fs: Seq<CanonicalField>) -> Seq<FieldView> {
    fs.map_values(|f: CanonicalField| field_view(f))
}

/// The views of a list of enum cases.
pub open spec fn enum_cases_view(cs: Seq<CanonicalEnumCase>) -> Seq<(Seq<char>, Option<Seq<char>>)> {
    cs.map_values(|c: CanonicalEnumCase| enum_case_view(c))
}

/// The views of a list of variant cases.
pub open spec fn variant_cases_view(cs: Seq<CanonicalVariantCase>) -> Seq<VariantCaseView> {
    cs.map_values(|c: CanonicalVariantCase| variant_case_view(c))
}

/// A list of strings as character sequences.
pub open spec fn strings_view(fs: Seq<String>) -> Seq<Seq<char>> {
    fs.map_values(|f: String| f@)
}

/// The view of a type shape.
pub open spec fn kind_view(k: CanonicalTypeDefKind) -> TypeDefKindView {
    match k {
        CanonicalTypeDefKind::Alias(t) => TypeDefKindView::Alias(type_ref_view(t)),
        CanonicalTypeDefKind::Record(r) => TypeDefKindView::Record(fields_view(r.fields@)),
        CanonicalTypeDefKind::Enum(cs) => TypeDefKindView::Enum(enum_cases_view(cs@)),
        CanonicalTypeDefKind::Variant(cs) => TypeDefKindView::Variant(variant_cases_view(cs@)),
        CanonicalTypeDefKind::Flags(fs) => TypeDefKindView::Flags(strings_view(fs@)),
    }
}

/// The view of a type definition.
pub open spec fn type_def_view(t: CanonicalTypeDef) -> TypeDefView {
    TypeDefView { name: t.name@, docs: opt_view(t.docs), kind: kind_view(t.kind) }
}

/// The view of a parameter.
pub open spec fn param_view(p: CanonicalParam) -> (Seq<char>, TypeRefView) {
    (p.name@, type_ref_view(p.ty))
}

/// The views of a list of parameters.
pub open spec fn params_view(ps: Seq<CanonicalParam>) -> Seq<(Seq<char>, TypeRefView)> {
    ps.map_values(|p: CanonicalParam| param_view(p))
}

/// The view of a function result.
pub open spec fn result_view(r: CanonicalFunctionResult) -> FunctionResultView {
    match r {
        CanonicalFunctionResult::Nothing => FunctionResultView::Nothing,
        CanonicalFunctionResult::Scalar(t) => FunctionResultView::Scalar(type_ref_view(t)),
        CanonicalFunctionResult::Named(ps) => FunctionResultView::Named(params_view(ps@)),
    }
}

/// The view of a function.
pub open spec fn function_view(f: CanonicalFunction) -> FunctionView {
    FunctionView {
        name: f.name@,
        docs: opt_view(f.docs),
        params: params_view(f.params@),
        result: result_view(f.result),
    }
}

/// The views of a list of functions.
pub open spec fn functions_view(fs: Seq<CanonicalFunction>) -> Seq<FunctionView> {
    fs.map_values(|f: CanonicalFunction| function_view(f))
}

/// The views of a list of type definitions.
pub open spec fn type_defs_view(ts: Seq<CanonicalTypeDef>) -> Seq<TypeDefView> {
    ts.map_values(|t: CanonicalTypeDef| type_def_view(t))
}

/// The view of an interface.
pub open spec fn interface_view(i: CanonicalInterface) -> InterfaceView {
    InterfaceView {
        name: i.name@,
        docs: opt_view(i.docs),
        functions: functions_view(i.functions@),
        types: type_defs_view(i.types@),
    }
}

/// The views of a list of interfaces.
pub open spec fn interfaces_view(is: Seq<CanonicalInterface>) -> Seq<InterfaceView> {
    is.map_values(|i: CanonicalInterface| interface_view(i))
}

/// The view of a package reference.
pub open spec fn package_ref_view(p: CanonicalPackageRef) -> PackageRefView {
    PackageRefView { namespace: p.namespace@, name: p.name@, version: opt_view(p.version) }
}

/// The view of a world.
pub open spec fn world_view(w: CanonicalWorld) -> WorldView {
    WorldView {
        package: match w.package {
            Some(p) => Some(package_ref_view(p)),
            None => None,
        },
        name: w.name@,
        docs: opt_view(w.docs),
        imports: interfaces_view(w.imports@),
        exports: interfaces_view(w.exports@),
    }
}

} // verus!
