//! The Python surface of a canonical world: type annotations, value
//! literals, and the stub module a model reads.
use vstd::prelude::*;

use crate::assoc::{assoc_insert, has_key, lookup, sorted_keys};
use crate::canonical::ir::{
    copy_opt_string, CanonicalField, CanonicalFunction, CanonicalFunctionResult,
    CanonicalInterface, CanonicalParam, CanonicalPrimitiveType, CanonicalTypeDef,
    CanonicalTypeDefKind, CanonicalTypeRef, CanonicalVariantCase, CanonicalEnumCase,
    CanonicalWorld,
};
use crate::canonical::naming::{
    ascii_upper, python_class_name, python_function_name, python_module_name, python_name,
    python_type_name, to_ascii_upper,
};
use crate::domain::value::Value;
use crate::text::{
    chars_of, debug_quote, debug_str, join, join_strings, lines_of, signed_decimal,
    signed_decimal_text, split_lines, string_from_chars, string_push, string_push_str, trim,
    trimmed_chars,
};

verus! {

/// The Python type a primitive is written as.
pub open spec fn primitive_text(p: CanonicalPrimitiveType) -> Seq<char> {
    match p {
        CanonicalPrimitiveType::Bool => "bool"@,
        CanonicalPrimitiveType::Float32 | CanonicalPrimitiveType::Float64 => "float"@,
        CanonicalPrimitiveType::Char | CanonicalPrimitiveType::String => "str"@,
        _ => "int"@,
    }
}

/// The Python annotation of a type reference.
pub open spec fn annotation(ty: CanonicalTypeRef) -> Seq<char>
    decreases ty,
{
    match ty {
        CanonicalTypeRef::Primitive(p) => primitive_text(p),
        CanonicalTypeRef::Named(n) => python_class_name(n@),
        CanonicalTypeRef::List(inner) => "list["@ + annotation(*inner) + "]"@,
        CanonicalTypeRef::Option(inner) => "Optional["@ + annotation(*inner) + "]"@,
        CanonicalTypeRef::Result { ok, err } => "tuple["@ + match ok {
            Some(t) => annotation(*t),
            None => "None"@,
        } + ", "@ + match err {
            Some(t) => annotation(*t),
            None => "None"@,
        } + "]"@,
        CanonicalTypeRef::Tuple(items) => "tuple["@ + join(annotations(items@), ", "@) + "]"@,
    }
}

/// The annotations of a list of type references, one by one.
pub open spec fn annotations(items: Seq<CanonicalTypeRef>) -> Seq<Seq<char>>
    decreases items,
{
    Seq::new(
        items.len(),
        |i: int|
            if 0 <= i < items.len() {
                annotation(items[i])
            } else {
                Seq::empty()
            },
    )
}

fn primitive_annotation(p: &CanonicalPrimitiveType) -> (r: String)
    ensures
        r@ == primitive_text(*p),
{
    match p {
        CanonicalPrimitiveType::Bool => "bool".to_owned(),
        CanonicalPrimitiveType::Float32 | CanonicalPrimitiveType::Float64 => "float".to_owned(),
        CanonicalPrimitiveType::Char | CanonicalPrimitiveType::String => "str".to_owned(),
        _ => "int".to_owned(),
    }
}

/// The Python annotation of a type reference.
pub fn python_annotation(ty: &CanonicalTypeRef) -> (r: String)
    ensures
        r@ == annotation(*ty),
    decreases ty,
{
    match ty {
        CanonicalTypeRef::Primitive(p) => primitive_annotation(p),
        CanonicalTypeRef::Named(n) => python_type_name(n.as_str()),
        CanonicalTypeRef::List(inner) => {
            let mut s = "list[".to_owned();
            let a = python_annotation(&**inner);
            string_push_str(&mut s, a.as_str());
            string_push_str(&mut s, "]");
            s
        },
        CanonicalTypeRef::Option(inner) => {
            let mut s = "Optional[".to_owned();
            let a = python_annotation(&**inner);
            string_push_str(&mut s, a.as_str());
            string_push_str(&mut s, "]");
            s
        },
        CanonicalTypeRef::Result { ok, err } => {
            let mut s = "tuple[".to_owned();
            let a = match ok {
                Some(t) => python_annotation(&**t),
                None => "None".to_owned(),
            };
            let b = match err {
                Some(t) => python_annotation(&**t),
                None => "None".to_owned(),
            };
            string_push_str(&mut s, a.as_str());
            string_push_str(&mut s, ", ");
            string_push_str(&mut s, b.as_str());
            string_push_str(&mut s, "]");
            s
        },
        CanonicalTypeRef::Tuple(items) => {
            let ghost parts = annotations(items@);
            let mut texts: Vec<String> = Vec::new();
            for i in 0..items.len()
                invariant
                    *ty == CanonicalTypeRef::Tuple(*items),
                    texts@.len() == i,
                    forall|j: int| 0 <= j < i ==> (#[trigger] texts@[j])@ == annotation(items@[j]),
            {
                proof {
                    assert(decreases_to!(items => items@));
                    assert(decreases_to!(items@ => items@[i as int]));
                    assert(decreases_to!(*ty => (*ty)->Tuple_0));
                    assert(decreases_to!(*ty => items@[i as int]));
                }
                texts.push(python_annotation(&items[i]));
            }
            assert(texts@.map_values(|p: String| p@) =~= parts);
            let mut s = "tuple[".to_owned();
            let inner = join_strings(&texts, ", ");
            string_push_str(&mut s, inner.as_str());
            string_push_str(&mut s, "]");
            s
        },
    }
}

/// The Python literal for a value.
pub open spec fn value_text(v: Value) -> Seq<char>
    decreases v,
{
    match v {
        Value::Null => "None"@,
        Value::Bool(b) => if b {
            "True"@
        } else {
            "False"@
        },
        Value::Int(n) => signed_decimal(n as int),
        Value::String(s) => debug_str(s@),
        Value::List(items) => "["@ + join(value_texts(items@), ", "@) + "]"@,
        Value::Tuple(items) => if items@.len() == 1 {
            "("@ + value_text(items@[0]) + ",)"@
        } else {
            "("@ + join(value_texts(items@), ", "@) + ")"@
        },
        Value::Dict(entries) => "{"@ + join(entry_texts(entries@), ", "@) + "}"@,
        Value::Record { name, fields } => python_class_name(name@) + "("@ + join(
            field_texts(fields@),
            ", "@,
        ) + ")"@,
    }
}

/// The literals of a list of values, one by one.
pub open spec fn value_texts(items: Seq<Value>) -> Seq<Seq<char>>
    decreases items,
{
    Seq::new(
        items.len(),
        |i: int|
            if 0 <= i < items.len() {
                value_text(items[i])
            } else {
                Seq::empty()
            },
    )
}

/// The `key: value` pairs of a dictionary literal, key quoted.
pub open spec fn entry_texts(entries: Seq<(String, Value)>) -> Seq<Seq<char>>
    decreases entries,
{
    Seq::new(
        entries.len(),
        |i: int|
            if 0 <= i < entries.len() {
                debug_str(entries[i].0@) + ": "@ + value_text(entries[i].1)
            } else {
                Seq::empty()
            },
    )
}

/// The `name=value` keyword arguments of a record constructor.
pub open spec fn field_texts(fields: Seq<(String, Value)>) -> Seq<Seq<char>>
    decreases fields,
{
    Seq::new(
        fields.len(),
        |i: int|
            if 0 <= i < fields.len() {
                python_name(fields[i].0@) + "="@ + value_text(fields[i].1)
            } else {
                Seq::empty()
            },
    )
}

/// The Python literal for a value: `None`, `True`/`False`, decimal integers,
/// quoted strings, lists, tuples (a one-element tuple with its trailing
/// comma), dictionaries with quoted keys, and records as constructor calls of
/// their class with keyword arguments.
pub fn render_python_value(value: &Value) -> (r: String)
    ensures
        r@ == value_text(*value),
    decreases value,
{
    match value {
        Value::Null => "None".to_owned(),
        Value::Bool(b) => if *b {
            "True".to_owned()
        } else {
            "False".to_owned()
        },
        Value::Int(n) => signed_decimal_text(*n),
        Value::String(s) => debug_quote(s.as_str()),
        Value::List(items) => {
            let parts = render_values(items, value);
            let mut s = "[".to_owned();
            let inner = join_strings(&parts, ", ");
            string_push_str(&mut s, inner.as_str());
            string_push_str(&mut s, "]");
            s
        },
        Value::Tuple(items) => {
            let parts = render_values(items, value);
            let mut s = "(".to_owned();
            if parts.len() == 1 {
                string_push_str(&mut s, parts[0].as_str());
                string_push_str(&mut s, ",)");
            } else {
                let inner = join_strings(&parts, ", ");
                string_push_str(&mut s, inner.as_str());
                string_push_str(&mut s, ")");
            }
            s
        },
        Value::Dict(entries) => {
            let mut parts: Vec<String> = Vec::new();
            for i in 0..entries.len()
                invariant
                    *value == Value::Dict(*entries),
                    parts@.len() == i,
                    forall|j: int|
                        0 <= j < i ==> (#[trigger] parts@[j])@ == entry_texts(entries@)[j],
            {
                proof {
                    assert(decreases_to!(entries => entries@));
                    assert(decreases_to!(entries@ => entries@[i as int]));
                    assert(decreases_to!(entries@[i as int] => entries@[i as int].1));
                    assert(decreases_to!(*value => (*value)->Dict_0));
                    assert(decreases_to!(*value => entries@[i as int].1));
                }
                let mut p = debug_quote(entries[i].0.as_str());
                string_push_str(&mut p, ": ");
                let v = render_python_value(&entries[i].1);
                string_push_str(&mut p, v.as_str());
                parts.push(p);
            }
            assert(parts@.map_values(|p: String| p@) =~= entry_texts(entries@));
            let mut s = "{".to_owned();
            let inner = join_strings(&parts, ", ");
            string_push_str(&mut s, inner.as_str());
            string_push_str(&mut s, "}");
            s
        },
        Value::Record { name, fields } => {
            let mut parts: Vec<String> = Vec::new();
            for i in 0..fields.len()
                invariant
                    *value == (Value::Record { name: *name, fields: *fields }),
                    parts@.len() == i,
                    forall|j: int|
                        0 <= j < i ==> (#[trigger] parts@[j])@ == field_texts(fields@)[j],
            {
                proof {
                    assert(decreases_to!(fields => fields@));
                    assert(decreases_to!(fields@ => fields@[i as int]));
                    assert(decreases_to!(fields@[i as int] => fields@[i as int].1));
                    assert(decreases_to!(*value => (*value)->fields));
                    assert(decreases_to!(*value => fields@[i as int].1));
                }
                let mut p = python_function_name(fields[i].0.as_str());
                string_push_str(&mut p, "=");
                let v = render_python_value(&fields[i].1);
                string_push_str(&mut p, v.as_str());
                parts.push(p);
            }
            assert(parts@.map_values(|p: String| p@) =~= field_texts(fields@));
            let mut s = python_type_name(name.as_str());
            string_push_str(&mut s, "(");
            let inner = join_strings(&parts, ", ");
            string_push_str(&mut s, inner.as_str());
            string_push_str(&mut s, ")");
            s
        },
    }
}

fn render_values(items: &Vec<Value>, whole: &Value) -> (r: Vec<String>)
    requires
        forall|i: int| 0 <= i < items@.len() ==> decreases_to!(*whole => #[trigger] items@[i]),
    ensures
        r@.len() == items@.len(),
        forall|j: int| 0 <= j < items@.len() ==> (#[trigger] r@[j])@ == value_text(items@[j]),
        r@.map_values(|p: String| p@) == value_texts(items@),
    decreases whole, 0nat,
{
    let mut parts: Vec<String> = Vec::new();
    for i in 0..items.len()
        invariant
            forall|i: int| 0 <= i < items@.len() ==> decreases_to!(*whole => #[trigger] items@[i]),
            parts@.len() == i,
            forall|j: int| 0 <= j < i ==> (#[trigger] parts@[j])@ == value_text(items@[j]),
    {
        parts.push(render_python_value(&items[i]));
    }
    assert(parts@.map_values(|p: String| p@) =~= value_texts(items@));
    parts
}

/// The lines of a documentation text: each line trimmed, blank ones dropped.
pub open spec fn doc_lines(lines: Seq<Seq<char>>) -> Seq<Seq<char>>
    decreases lines.len(),
{
    if lines.len() == 0 {
        Seq::empty()
    } else {
        let prev = doc_lines(lines.drop_last());
        let t = trim(lines.last());
        if t.len() == 0 {
            prev
        } else {
            prev.push(t)
        }
    }
}

/// The non-blank lines of `docs`, trimmed.
pub open spec fn docs_lines(docs: Seq<char>) -> Seq<Seq<char>> {
    doc_lines(lines_of(docs))
}

/// `n` spaces.
pub open spec fn spaces(n: nat) -> Seq<char> {
    Seq::new(n, |i: int| ' ')
}

/// Each line with `p` in front.
pub open spec fn prefixed(lines: Seq<Seq<char>>, p: Seq<char>) -> Seq<Seq<char>> {
    Seq::new(lines.len(), |i: int| p + lines[i])
}

/// `docs` as a Python docstring indented by `indent` spaces: nothing for
/// blank docs, one line between triple quotes for a one-line text, else the
/// lines between lines of triple quotes.
pub open spec fn docstring_lines(docs: Seq<char>, indent: nat) -> Seq<Seq<char>> {
    let lines = docs_lines(docs);
    let p = spaces(indent);
    let q = "\"\"\""@;
    if lines.len() == 0 {
        Seq::empty()
    } else if lines.len() == 1 {
        seq![p + q + lines[0] + q]
    } else {
        seq![p + q] + prefixed(lines, p) + seq![p + q]
    }
}

/// `docs` as `# ` comment lines indented by `indent` spaces.
pub open spec fn comment_lines(docs: Seq<char>, indent: nat) -> Seq<Seq<char>> {
    prefixed(docs_lines(docs), spaces(indent) + "# "@)
}

/// The docstring of optional docs.
pub open spec fn opt_docstring(docs: Option<String>, indent: nat) -> Seq<Seq<char>> {
    match docs {
        Some(d) => docstring_lines(d@, indent),
        None => Seq::empty(),
    }
}

/// The comment lines of optional docs.
pub open spec fn opt_comments(docs: Option<String>, indent: nat) -> Seq<Seq<char>> {
    match docs {
        Some(d) => comment_lines(d@, indent),
        None => Seq::empty(),
    }
}

/// The strings' characters, one by one.
pub open spec fn texts(v: Seq<String>) -> Seq<Seq<char>> {
    v.map_values(|s: String| s@)
}

/// `more` added at the end of `out`.
fn extend_lines(out: &mut Vec<String>, more: &Vec<String>)
    ensures
        texts(final(out)@) == texts(old(out)@) + texts(more@),
{
    let ghost start = texts(out@);
    for i in 0..more.len()
        invariant
            texts(out@) == start + texts(more@).take(i as int),
    {
        let ghost before = out@;
        out.push(more[i].clone());
        assert(texts(out@) =~= texts(before).push(more@[i as int]@));
        assert(texts(more@).take(i + 1) =~= texts(more@).take(i as int).push(more@[i as int]@));
    }
    assert(texts(more@).take(more@.len() as int) =~= texts(more@));
}

/// The non-blank lines of `docs`, trimmed.
fn split_doc_lines(docs: &str) -> (r: Vec<String>)
    ensures
        texts(r@) == docs_lines(docs@),
{
    let lines = split_lines(docs);
    let ghost ls = lines@.map_values(|l: Vec<char>| l@);
    let mut out: Vec<String> = Vec::new();
    for i in 0..lines.len()
        invariant
            ls == lines@.map_values(|l: Vec<char>| l@),
            texts(out@) == doc_lines(ls.take(i as int)),
    {
        let ghost t = ls.take(i + 1);
        assert(t.drop_last() =~= ls.take(i as int));
        let whole = string_from_chars(lines[i].as_slice());
        let trimmed = trimmed_chars(whole.as_str());
        if trimmed.len() > 0 {
            let ghost before = out@;
            out.push(string_from_chars(trimmed.as_slice()));
            assert(texts(out@) =~= texts(before).push(trimmed@));
        }
    }
    assert(ls.take(ls.len() as int) =~= ls);
    out
}

fn spaces_text(n: usize) -> (r: String)
    ensures
        r@ == spaces(n as nat),
{
    let mut s = String::new();
    for i in 0..n
        invariant
            s@ == spaces(i as nat),
    {
        string_push(&mut s, ' ');
        assert(s@ =~= spaces((i + 1) as nat));
    }
    s
}

fn prefix_lines(lines: &Vec<String>, p: &str) -> (r: Vec<String>)
    ensures
        texts(r@) == prefixed(texts(lines@), p@),
{
    let mut out: Vec<String> = Vec::new();
    for i in 0..lines.len()
        invariant
            out@.len() == i,
            forall|j: int| 0 <= j < i ==> (#[trigger] out@[j])@ == p@ + lines@[j]@,
    {
        let mut l = p.to_owned();
        string_push_str(&mut l, lines[i].as_str());
        out.push(l);
    }
    assert(texts(out@) =~= prefixed(texts(lines@), p@));
    out
}

fn render_docstring(docs: &str, indent: usize) -> (r: Vec<String>)
    ensures
        texts(r@) == docstring_lines(docs@, indent as nat),
{
    let prefix = spaces_text(indent);
    let lines = split_doc_lines(docs);
    proof {
        reveal_strlit("\"\"\"");
    }
    if lines.len() == 0 {
        let r: Vec<String> = Vec::new();
        assert(texts(r@) =~= Seq::<Seq<char>>::empty());
        return r;
    }
    if lines.len() == 1 {
        let mut l = prefix.clone();
        string_push_str(&mut l, "\"\"\"");
        string_push_str(&mut l, lines[0].as_str());
        string_push_str(&mut l, "\"\"\"");
        let r = vec![l];
        assert(texts(r@) =~= docstring_lines(docs@, indent as nat));
        return r;
    }
    let mut quote = prefix.clone();
    string_push_str(&mut quote, "\"\"\"");
    let mut r: Vec<String> = vec![quote.clone()];
    let body = prefix_lines(&lines, prefix.as_str());
    extend_lines(&mut r, &body);
    let closing = vec![quote];
    assert(texts(closing@) =~= seq![closing@[0]@]);
    extend_lines(&mut r, &closing);
    assert(texts(r@) =~= docstring_lines(docs@, indent as nat));
    r
}

fn render_comment_block(docs: &str, indent: usize) -> (r: Vec<String>)
    ensures
        texts(r@) == comment_lines(docs@, indent as nat),
{
    let mut prefix = spaces_text(indent);
    string_push_str(&mut prefix, "# ");
    let lines = split_doc_lines(docs);
    prefix_lines(&lines, prefix.as_str())
}

fn optional_docstring(docs: &Option<String>, indent: usize) -> (r: Vec<String>)
    ensures
        texts(r@) == opt_docstring(*docs, indent as nat),
{
    match docs {
        Some(d) => render_docstring(d.as_str(), indent),
        None => {
            let r: Vec<String> = Vec::new();
            assert(texts(r@) =~= Seq::<Seq<char>>::empty());
            r
        },
    }
}

fn optional_comments(docs: &Option<String>, indent: usize) -> (r: Vec<String>)
    ensures
        texts(r@) == opt_comments(*docs, indent as nat),
{
    match docs {
        Some(d) => render_comment_block(d.as_str(), indent),
        None => {
            let r: Vec<String> = Vec::new();
            assert(texts(r@) =~= Seq::<Seq<char>>::empty());
            r
        },
    }
}

/// The class line of a type definition, e.g. `class Mission:`.
pub open spec fn class_line(name: Seq<char>, suffix: Seq<char>) -> Seq<char> {
    "class "@ + python_class_name(name) + suffix
}

/// The lines of a record's fields: each field's comments, then
/// `name: annotation`.
pub open spec fn field_lines(fields: Seq<CanonicalField>) -> Seq<Seq<char>>
    decreases fields.len(),
{
    if fields.len() == 0 {
        Seq::empty()
    } else {
        let f = fields.last();
        field_lines(fields.drop_last()) + opt_comments(f.docs, 4) + seq![
            "    "@ + python_name(f.name@) + ": "@ + annotation(f.ty),
        ]
    }
}

/// The lines of an enum's cases: each case's comments, then the upper-case
/// class name of the case bound to its quoted canonical name.
pub open spec fn enum_case_lines(cases: Seq<CanonicalEnumCase>) -> Seq<Seq<char>>
    decreases cases.len(),
{
    if cases.len() == 0 {
        Seq::empty()
    } else {
        let c = cases.last();
        enum_case_lines(cases.drop_last()) + opt_comments(c.docs, 4) + seq![
            "    "@ + python_class_name(c.name@).map_values(|x: char| ascii_upper(x)) + " = "@
                + debug_str(c.name@),
        ]
    }
}

/// The field line of a variant case: an optional payload, or a flag.
pub open spec fn variant_case_line(c: CanonicalVariantCase) -> Seq<char> {
    match c.ty {
        Some(t) => "    "@ + python_name(c.name@) + ": Optional["@ + annotation(t) + "] = None"@,
        None => "    "@ + python_name(c.name@) + ": bool = False"@,
    }
}

/// The lines of a variant's cases: each case's comments, then its field.
pub open spec fn variant_case_lines(cases: Seq<CanonicalVariantCase>) -> Seq<Seq<char>>
    decreases cases.len(),
{
    if cases.len() == 0 {
        Seq::empty()
    } else {
        let c = cases.last();
        variant_case_lines(cases.drop_last()) + opt_comments(c.docs, 4) + seq![
            variant_case_line(c),
        ]
    }
}

/// The lines of a set of flags: a `bool` field for each.
pub open spec fn flag_lines(flags: Seq<String>) -> Seq<Seq<char>> {
    Seq::new(flags.len(), |i: int| "    "@ + python_name(flags[i]@) + ": bool = False"@)
}

/// A variant case renders as a dataclass field of the same name: with a
/// payload of type `t`, as the field a record would have for an optional
/// `t`, defaulting to `None`; without one, as the boolean field a flag of
/// that name would have. Its comments come first, as a record field's do.
pub proof fn lemma_variant_case_is_a_field(c: CanonicalVariantCase)
    ensures
        variant_case_lines(seq![c]).len() == opt_comments(c.docs, 4).len() + 1,
        variant_case_lines(seq![c]).take(opt_comments(c.docs, 4).len() as int) == opt_comments(c.docs, 4),
        c.ty matches Some(t) ==> {
            let f = CanonicalField { name: c.name, docs: c.docs, ty: CanonicalTypeRef::Option(Box::new(t)) };
            &&& field_lines(seq![f]).len() == variant_case_lines(seq![c]).len()
            &&& variant_case_lines(seq![c]).last() == field_lines(seq![f]).last() + " = None"@
            &&& variant_case_lines(seq![c]).last() == "    "@ + python_name(c.name@) + ": Optional["@
                + annotation(t) + "] = None"@
        },
        c.ty is None ==> variant_case_lines(seq![c]).last() == flag_lines(seq![c.name]).last(),
{
    let s = seq![c];
    assert(s.drop_last() =~= Seq::<CanonicalVariantCase>::empty());
    assert(s.last() == c);
    assert(variant_case_lines(s.drop_last()) == Seq::<Seq<char>>::empty());
    assert(variant_case_lines(s) =~= opt_comments(c.docs, 4) + seq![variant_case_line(c)]);
    assert(variant_case_lines(s).take(opt_comments(c.docs, 4).len() as int) =~= opt_comments(c.docs, 4));
    if let Some(t) = c.ty {
        let f = CanonicalField { name: c.name, docs: c.docs, ty: CanonicalTypeRef::Option(Box::new(t)) };
        assert(seq![f].drop_last() =~= Seq::<CanonicalField>::empty());
        assert(seq![f].last() == f);
        assert(field_lines(seq![f].drop_last()) == Seq::<Seq<char>>::empty());
        assert(field_lines(seq![f]) =~= opt_comments(c.docs, 4) + seq![
            "    "@ + python_name(c.name@) + ": "@ + annotation(f.ty),
        ]);
        assert(annotation(f.ty) == "Optional["@ + annotation(t) + "]"@);
        reveal_strlit(": Optional[");
        reveal_strlit(": ");
        reveal_strlit("Optional[");
        reveal_strlit("] = None");
        reveal_strlit("]");
        reveal_strlit(" = None");
        assert(variant_case_line(c) =~= ("    "@ + python_name(c.name@) + ": "@ + annotation(f.ty))
            + " = None"@);
    } else {
        assert(flag_lines(seq![c.name]).last() == "    "@ + python_name(c.name@) + ": bool = False"@);
    }
}

/// A class body: `pass` when it has no members.
pub open spec fn members_or_pass(n: nat, members: Seq<Seq<char>>) -> Seq<Seq<char>> {
    if n == 0 {
        seq!["    pass"@]
    } else {
        members
    }
}

/// The Python lines of a type definition: an alias becomes a `TypeAlias`, a
/// record a dataclass of its fields, an enum an `Enum` class, a variant a
/// dataclass with an optional field per case, flags a dataclass of booleans.
pub open spec fn type_def_lines(ty: CanonicalTypeDef) -> Seq<Seq<char>> {
    match ty.kind {
        CanonicalTypeDefKind::Alias(alias) => opt_comments(ty.docs, 0) + seq![
            python_class_name(ty.name@) + ": TypeAlias = "@ + annotation(alias),
        ],
        CanonicalTypeDefKind::Record(rec) => seq!["@dataclass"@, class_line(ty.name@, ":"@)]
            + opt_docstring(ty.docs, 4) + members_or_pass(
            rec.fields@.len(),
            field_lines(rec.fields@),
        ),
        CanonicalTypeDefKind::Enum(cases) => seq![class_line(ty.name@, "(Enum):"@)]
            + opt_docstring(ty.docs, 4) + members_or_pass(
            cases@.len(),
            enum_case_lines(cases@),
        ),
        CanonicalTypeDefKind::Variant(cases) => seq!["@dataclass"@, class_line(ty.name@, ":"@)]
            + opt_docstring(ty.docs, 4) + members_or_pass(
            cases@.len(),
            variant_case_lines(cases@),
        ),
        CanonicalTypeDefKind::Flags(flags) => seq!["@dataclass"@, class_line(ty.name@, ":"@)]
            + opt_docstring(ty.docs, 4) + members_or_pass(flags@.len(), flag_lines(flags@)),
    }
}

/// The Python source of a type definition.
pub open spec fn type_def_text(ty: CanonicalTypeDef) -> Seq<char> {
    join(type_def_lines(ty), "\n"@)
}

/// The Python source of an interface's types, separated by blank lines.
pub open spec fn exports_text(interface: CanonicalInterface) -> Seq<char> {
    join(
        Seq::new(interface.types@.len(), |i: int| type_def_text(interface.types@[i])),
        "\n\n"@,
    )
}

fn class_header(name: &str, suffix: &str) -> (r: String)
    ensures
        r@ == class_line(name@, suffix@),
{
    let mut s = "class ".to_owned();
    let n = python_type_name(name);
    string_push_str(&mut s, n.as_str());
    string_push_str(&mut s, suffix);
    s
}

fn push_line(lines: &mut Vec<String>, line: String)
    ensures
        texts(final(lines)@) == texts(old(lines)@).push(line@),
{
    lines.push(line);
    assert(texts(lines@) =~= texts(old(lines)@).push(line@));
}

fn record_field_lines(fields: &Vec<CanonicalField>) -> (r: Vec<String>)
    ensures
        texts(r@) == field_lines(fields@),
{
    let mut out: Vec<String> = Vec::new();
    for i in 0..fields.len()
        invariant
            texts(out@) == field_lines(fields@.take(i as int)),
    {
        let ghost t = fields@.take(i + 1);
        assert(t.drop_last() =~= fields@.take(i as int));
        let f = &fields[i];
        let comments = optional_comments(&f.docs, 4);
        extend_lines(&mut out, &comments);
        let mut l = "    ".to_owned();
        let n = python_function_name(f.name.as_str());
        string_push_str(&mut l, n.as_str());
        string_push_str(&mut l, ": ");
        let a = python_annotation(&f.ty);
        string_push_str(&mut l, a.as_str());
        push_line(&mut out, l);
    }
    assert(fields@.take(fields@.len() as int) =~= fields@);
    out
}

fn upper_text(s: &str) -> (r: String)
    ensures
        r@ == s@.map_values(|x: char| ascii_upper(x)),
{
    let cs = chars_of(s);
    let mut out = String::new();
    for i in 0..cs.len()
        invariant
            cs@ == s@,
            out@ == cs@.take(i as int).map_values(|x: char| ascii_upper(x)),
    {
        string_push(&mut out, to_ascii_upper(cs[i]));
        assert(out@ =~= cs@.take(i + 1).map_values(|x: char| ascii_upper(x)));
    }
    assert(cs@.take(cs@.len() as int) =~= cs@);
    out
}

fn enum_lines(cases: &Vec<CanonicalEnumCase>) -> (r: Vec<String>)
    ensures
        texts(r@) == enum_case_lines(cases@),
{
    let mut out: Vec<String> = Vec::new();
    for i in 0..cases.len()
        invariant
            texts(out@) == enum_case_lines(cases@.take(i as int)),
    {
        let ghost t = cases@.take(i + 1);
        assert(t.drop_last() =~= cases@.take(i as int));
        let c = &cases[i];
        let comments = optional_comments(&c.docs, 4);
        extend_lines(&mut out, &comments);
        let mut l = "    ".to_owned();
        let class = python_type_name(c.name.as_str());
        let upper = upper_text(class.as_str());
        string_push_str(&mut l, upper.as_str());
        string_push_str(&mut l, " = ");
        let quoted = debug_quote(c.name.as_str());
        string_push_str(&mut l, quoted.as_str());
        push_line(&mut out, l);
    }
    assert(cases@.take(cases@.len() as int) =~= cases@);
    out
}

fn variant_lines(cases: &Vec<CanonicalVariantCase>) -> (r: Vec<String>)
    ensures
        texts(r@) == variant_case_lines(cases@),
{
    let mut out: Vec<String> = Vec::new();
    for i in 0..cases.len()
        invariant
            texts(out@) == variant_case_lines(cases@.take(i as int)),
    {
        let ghost t = cases@.take(i + 1);
        assert(t.drop_last() =~= cases@.take(i as int));
        let c = &cases[i];
        let comments = optional_comments(&c.docs, 4);
        extend_lines(&mut out, &comments);
        let mut l = "    ".to_owned();
        let n = python_function_name(c.name.as_str());
        string_push_str(&mut l, n.as_str());
        match &c.ty {
            Some(ty) => {
                string_push_str(&mut l, ": Optional[");
                let a = python_annotation(ty);
                string_push_str(&mut l, a.as_str());
                string_push_str(&mut l, "] = None");
            },
            None => {
                string_push_str(&mut l, ": bool = False");
            },
        }
        push_line(&mut out, l);
    }
    assert(cases@.take(cases@.len() as int) =~= cases@);
    out
}

fn flags_lines(flags: &Vec<String>) -> (r: Vec<String>)
    ensures
        texts(r@) == flag_lines(flags@),
{
    let mut out: Vec<String> = Vec::new();
    for i in 0..flags.len()
        invariant
            out@.len() == i,
            forall|j: int|
                0 <= j < i ==> (#[trigger] out@[j])@ == "    "@ + python_name(flags@[j]@)
                    + ": bool = False"@,
    {
        let mut l = "    ".to_owned();
        let n = python_function_name(flags[i].as_str());
        string_push_str(&mut l, n.as_str());
        string_push_str(&mut l, ": bool = False");
        out.push(l);
    }
    assert(texts(out@) =~= flag_lines(flags@));
    out
}

/// The Python source of a type definition.
fn render_type_def(ty: &CanonicalTypeDef) -> (r: String)
    ensures
        r@ == type_def_text(*ty),
{
    let mut lines: Vec<String> = Vec::new();
    match &ty.kind {
        CanonicalTypeDefKind::Alias(alias) => {
            let comments = optional_comments(&ty.docs, 0);
            extend_lines(&mut lines, &comments);
            let mut l = python_type_name(ty.name.as_str());
            string_push_str(&mut l, ": TypeAlias = ");
            let a = python_annotation(alias);
            string_push_str(&mut l, a.as_str());
            push_line(&mut lines, l);
        },
        CanonicalTypeDefKind::Record(rec) => {
            push_line(&mut lines, "@dataclass".to_owned());
            push_line(&mut lines, class_header(ty.name.as_str(), ":"));
            let doc = optional_docstring(&ty.docs, 4);
            extend_lines(&mut lines, &doc);
            if rec.fields.len() == 0 {
                push_line(&mut lines, "    pass".to_owned());
            } else {
                let body = record_field_lines(&rec.fields);
                extend_lines(&mut lines, &body);
            }
        },
        CanonicalTypeDefKind::Enum(cases) => {
            push_line(&mut lines, class_header(ty.name.as_str(), "(Enum):"));
            let doc = optional_docstring(&ty.docs, 4);
            extend_lines(&mut lines, &doc);
            if cases.len() == 0 {
                push_line(&mut lines, "    pass".to_owned());
            } else {
                let body = enum_lines(cases);
                extend_lines(&mut lines, &body);
            }
        },
        CanonicalTypeDefKind::Variant(cases) => {
            push_line(&mut lines, "@dataclass".to_owned());
            push_line(&mut lines, class_header(ty.name.as_str(), ":"));
            let doc = optional_docstring(&ty.docs, 4);
            extend_lines(&mut lines, &doc);
            if cases.len() == 0 {
                push_line(&mut lines, "    pass".to_owned());
            } else {
                let body = variant_lines(cases);
                extend_lines(&mut lines, &body);
            }
        },
        CanonicalTypeDefKind::Flags(flags) => {
            push_line(&mut lines, "@dataclass".to_owned());
            push_line(&mut lines, class_header(ty.name.as_str(), ":"));
            let doc = optional_docstring(&ty.docs, 4);
            extend_lines(&mut lines, &doc);
            if flags.len() == 0 {
                push_line(&mut lines, "    pass".to_owned());
            } else {
                let body = flags_lines(flags);
                extend_lines(&mut lines, &body);
            }
        },
    }
    assert(texts(lines@) =~= type_def_lines(*ty));
    join_strings(&lines, "\n")
}

/// The Python source of an interface's types.
fn render_python_exports(interface: &CanonicalInterface) -> (r: String)
    ensures
        r@ == exports_text(*interface),
{
    let mut sections: Vec<String> = Vec::new();
    for i in 0..interface.types.len()
        invariant
            sections@.len() == i,
            forall|j: int|
                0 <= j < i ==> (#[trigger] sections@[j])@ == type_def_text(interface.types@[j]),
    {
        sections.push(render_type_def(&interface.types[i]));
    }
    assert(texts(sections@) =~= Seq::new(
        interface.types@.len(),
        |i: int| type_def_text(interface.types@[i]),
    ));
    join_strings(&sections, "\n\n")
}

/// A parameter of a function on the Python surface.
#[derive(Debug, Clone, PartialEq, Eq)]
pub struct CanonicalPythonParam {
    pub canonical_name: String,
    pub python_name: String,
    pub annotation: String,
}

/// A function on the Python surface.
#[derive(Debug, Clone, PartialEq, Eq)]
pub struct CanonicalPythonFunction {
    pub canonical_name: String,
    pub python_name: String,
    pub docs: Option<String>,
    pub params: Vec<CanonicalPythonParam>,
    pub return_annotation: String,
}

/// The Python surface of a world: its module name, its exported functions
/// and, by canonical name, the class name of each exported type (in
/// ascending canonical name order, each once).
#[derive(Debug, Clone, PartialEq, Eq)]
pub struct CanonicalPythonBindings {
    pub module_name: String,
    pub functions: Vec<CanonicalPythonFunction>,
    pub type_names: Vec<(String, String)>,
}

/// The annotations of the types of a list of parameters.
pub open spec fn param_annotations(params: Seq<CanonicalParam>) -> Seq<Seq<char>> {
    Seq::new(params.len(), |i: int| annotation(params[i].ty))
}

/// The Python annotation of what a function returns: `None` for nothing, the
/// annotation of a single result, a tuple of several.
pub open spec fn result_annotation(result: CanonicalFunctionResult) -> Seq<char> {
    match result {
        CanonicalFunctionResult::Nothing => "None"@,
        CanonicalFunctionResult::Scalar(t) => annotation(t),
        CanonicalFunctionResult::Named(params) => if params@.len() == 0 {
            "None"@
        } else if params@.len() == 1 {
            annotation(params@[0].ty)
        } else {
            "tuple["@ + join(param_annotations(params@), ", "@) + "]"@
        },
    }
}

/// `b` is the Python form of parameter `p`.
pub open spec fn param_binding(b: CanonicalPythonParam, p: CanonicalParam) -> bool {
    &&& b.canonical_name@ == p.name@
    &&& b.python_name@ == python_name(p.name@)
    &&& b.annotation@ == annotation(p.ty)
}

/// `b` is the Python form of function `f`.
pub open spec fn function_binding(b: CanonicalPythonFunction, f: CanonicalFunction) -> bool {
    &&& b.canonical_name@ == f.name@
    &&& b.python_name@ == python_name(f.name@)
    &&& b.docs == f.docs
    &&& b.params@.len() == f.params@.len()
    &&& forall|j: int| 0 <= j < f.params@.len() ==> param_binding(#[trigger] b.params@[j], f.params@[j])
    &&& b.return_annotation@ == result_annotation(f.result)
}

/// Some type of the list has this canonical name.
pub open spec fn names_type(types: Seq<CanonicalTypeDef>, k: Seq<char>) -> bool {
    exists|i: int| 0 <= i < types.len() && (#[trigger] types[i]).name@ == k
}

/// The Python annotation of what a function returns.
pub fn python_function_result_annotation(result: &CanonicalFunctionResult) -> (r: String)
    ensures
        r@ == result_annotation(*result),
{
    match result {
        CanonicalFunctionResult::Nothing => "None".to_owned(),
        CanonicalFunctionResult::Scalar(t) => python_annotation(t),
        CanonicalFunctionResult::Named(params) => {
            if params.len() == 0 {
                "None".to_owned()
            } else if params.len() == 1 {
                python_annotation(&params[0].ty)
            } else {
                let mut parts: Vec<String> = Vec::new();
                for i in 0..params.len()
                    invariant
                        parts@.len() == i,
                        forall|j: int|
                            0 <= j < i ==> (#[trigger] parts@[j])@ == annotation(params@[j].ty),
                {
                    parts.push(python_annotation(&params[i].ty));
                }
                assert(texts(parts@) =~= param_annotations(params@));
                let mut s = "tuple[".to_owned();
                let inner = join_strings(&parts, ", ");
                string_push_str(&mut s, inner.as_str());
                string_push_str(&mut s, "]");
                s
            }
        },
    }
}

fn bind_function(f: &CanonicalFunction) -> (r: CanonicalPythonFunction)
    ensures
        function_binding(r, *f),
{
    let mut params: Vec<CanonicalPythonParam> = Vec::new();
    for j in 0..f.params.len()
        invariant
            params@.len() == j,
            forall|k: int| 0 <= k < j ==> param_binding(#[trigger] params@[k], f.params@[k]),
    {
        let p = &f.params[j];
        params.push(
            CanonicalPythonParam {
                canonical_name: p.name.clone(),
                python_name: python_function_name(p.name.as_str()),
                annotation: python_annotation(&p.ty),
            },
        );
    }
    CanonicalPythonFunction {
        canonical_name: f.name.clone(),
        python_name: python_function_name(f.name.as_str()),
        docs: copy_opt_string(&f.docs),
        params,
        return_annotation: python_function_result_annotation(&f.result),
    }
}

/// The Python surface of a world. The module is named after the world; the
/// functions and type names come from its first exported interface, none
/// when it exports nothing.
pub fn canonical_python_bindings(world: &CanonicalWorld) -> (r: CanonicalPythonBindings)
    ensures
        r.module_name@ == python_name(world.name@),
        sorted_keys(r.type_names@),
        world.exports@.len() == 0 ==> r.functions@.len() == 0 && r.type_names@.len() == 0,
        world.exports@.len() > 0 ==> {
            let iface = world.exports@[0];
            &&& r.functions@.len() == iface.functions@.len()
            &&& forall|i: int|
                0 <= i < iface.functions@.len() ==> function_binding(
                    #[trigger] r.functions@[i],
                    iface.functions@[i],
                )
            &&& forall|k: Seq<char>| #[trigger]
                has_key(r.type_names@, k) == names_type(iface.types@, k)
            &&& forall|k: Seq<char>|
                #[trigger] has_key(r.type_names@, k) ==> lookup(r.type_names@, k)->0@
                    == python_class_name(k)
        },
{
    let mut functions: Vec<CanonicalPythonFunction> = Vec::new();
    let mut type_names: Vec<(String, String)> = Vec::new();
    if world.exports.len() > 0 {
        let iface = &world.exports[0];
        for i in 0..iface.types.len()
            invariant
                sorted_keys(type_names@),
                forall|k: Seq<char>| #[trigger]
                    has_key(type_names@, k) == names_type(iface.types@.take(i as int), k),
                forall|k: Seq<char>|
                    #[trigger] has_key(type_names@, k) ==> lookup(type_names@, k)->0@
                        == python_class_name(k),
        {
            let ty = &iface.types[i];
            let ghost before = type_names@;
            assoc_insert(&mut type_names, ty.name.clone(), python_type_name(ty.name.as_str()));
            assert forall|k: Seq<char>| #[trigger]
                has_key(type_names@, k) == names_type(iface.types@.take(i + 1), k) by {
                if names_type(iface.types@.take(i + 1), k) {
                    let w = choose|w: int|
                        0 <= w < i + 1 && (#[trigger] iface.types@.take(i + 1)[w]).name@ == k;
                    if w < i {
                        assert(iface.types@.take(i as int)[w] == iface.types@.take(i + 1)[w]);
                    }
                }
                if names_type(iface.types@.take(i as int), k) {
                    let w = choose|w: int|
                        0 <= w < i && (#[trigger] iface.types@.take(i as int)[w]).name@ == k;
                    assert(iface.types@.take(i + 1)[w] == iface.types@.take(i as int)[w]);
                }
                if k == ty.name@ {
                    assert(iface.types@.take(i + 1)[i as int] == *ty);
                }
            }
        }
        assert(iface.types@.take(iface.types@.len() as int) =~= iface.types@);
        for i in 0..iface.functions.len()
            invariant
                functions@.len() == i,
                forall|j: int|
                    0 <= j < i ==> function_binding(
                        #[trigger] functions@[j],
                        iface.functions@[j],
                    ),
        {
            functions.push(bind_function(&iface.functions[i]));
        }
    }
    CanonicalPythonBindings {
        module_name: python_module_name(world.name.as_str()),
        functions,
        type_names,
    }
}

/// The Python stub of a function: its `def` line with annotated parameters
/// and return type, its docstring, and `...` as its body.
pub open spec fn function_text(
    name: Seq<char>,
    params: Seq<Seq<char>>,
    ret: Seq<char>,
    docs: Option<String>,
) -> Seq<char> {
    join(
        seq!["def "@ + name + "("@ + join(params, ", "@) + ") -> "@ + ret + ":"@] + opt_docstring(
            docs,
            4,
        ) + seq!["    ..."@],
        "\n"@,
    )
}

/// The `name: annotation` texts of a Python function's parameters.
pub open spec fn binding_param_texts(params: Seq<CanonicalPythonParam>) -> Seq<Seq<char>> {
    Seq::new(params.len(), |i: int| params[i].python_name@ + ": "@ + params[i].annotation@)
}

/// The `name: annotation` texts of a canonical function's parameters.
pub open spec fn canonical_param_texts(params: Seq<CanonicalParam>) -> Seq<Seq<char>> {
    Seq::new(params.len(), |i: int| python_name(params[i].name@) + ": "@ + annotation(params[i].ty))
}

/// The Python stub of a canonical function.
pub open spec fn canonical_function_text(f: CanonicalFunction) -> Seq<char> {
    function_text(
        python_name(f.name@),
        canonical_param_texts(f.params@),
        result_annotation(f.result),
        f.docs,
    )
}

/// The stubs of a list of canonical functions, separated by blank lines.
pub open spec fn functions_text(fs: Seq<CanonicalFunction>) -> Seq<char> {
    join(Seq::new(fs.len(), |i: int| canonical_function_text(fs[i])), "\n\n"@)
}

/// The Python stub module of a world: the imports it needs, the types of its
/// first exported interface, then that interface's functions, each part
/// after a blank line and left out when empty.
pub open spec fn stubs_text(world: CanonicalWorld) -> Seq<char> {
    let header = seq![
        "from dataclasses import dataclass"@,
        "from enum import Enum"@,
        "from typing import Optional, TypeAlias"@,
    ];
    let ex = if world.exports@.len() > 0 {
        exports_text(world.exports@[0])
    } else {
        Seq::empty()
    };
    let fs = if world.exports@.len() > 0 {
        world.exports@[0].functions@
    } else {
        Seq::empty()
    };
    let with_types = if ex.len() > 0 {
        header + seq![Seq::empty(), ex]
    } else {
        header
    };
    let all = if fs.len() > 0 {
        with_types + seq![Seq::empty(), functions_text(fs)]
    } else {
        with_types
    };
    join(all, "\n"@)
}

/// The Python stub of a function of the Python surface.
fn render_python_function(function: &CanonicalPythonFunction) -> (r: String)
    ensures
        r@ == function_text(
            function.python_name@,
            binding_param_texts(function.params@),
            function.return_annotation@,
            function.docs,
        ),
{
    let mut params: Vec<String> = Vec::new();
    for i in 0..function.params.len()
        invariant
            params@.len() == i,
            forall|j: int|
                0 <= j < i ==> (#[trigger] params@[j])@ == function.params@[j].python_name@
                    + ": "@ + function.params@[j].annotation@,
    {
        let p = &function.params[i];
        let mut t = p.python_name.clone();
        string_push_str(&mut t, ": ");
        string_push_str(&mut t, p.annotation.as_str());
        params.push(t);
    }
    assert(texts(params@) =~= binding_param_texts(function.params@));
    let mut def = "def ".to_owned();
    string_push_str(&mut def, function.python_name.as_str());
    string_push_str(&mut def, "(");
    let joined = join_strings(&params, ", ");
    string_push_str(&mut def, joined.as_str());
    string_push_str(&mut def, ") -> ");
    string_push_str(&mut def, function.return_annotation.as_str());
    string_push_str(&mut def, ":");
    let mut lines: Vec<String> = Vec::new();
    push_line(&mut lines, def);
    let doc = optional_docstring(&function.docs, 4);
    extend_lines(&mut lines, &doc);
    push_line(&mut lines, "    ...".to_owned());
    assert(texts(lines@) =~= seq![
        "def "@ + function.python_name@ + "("@ + join(binding_param_texts(function.params@), ", "@)
            + ") -> "@ + function.return_annotation@ + ":"@,
    ] + opt_docstring(function.docs, 4) + seq!["    ..."@]);
    join_strings(&lines, "\n")
}

proof fn lemma_binding_text(b: CanonicalPythonFunction, f: CanonicalFunction)
    requires
        function_binding(b, f),
    ensures
        function_text(
            b.python_name@,
            binding_param_texts(b.params@),
            b.return_annotation@,
            b.docs,
        ) == canonical_function_text(f),
{
    assert(binding_param_texts(b.params@) =~= canonical_param_texts(f.params@)) by {
        assert forall|j: int| 0 <= j < f.params@.len() implies binding_param_texts(b.params@)[j]
            == canonical_param_texts(f.params@)[j] by {
            assert(param_binding(b.params@[j], f.params@[j]));
        }
    }
}

/// The Python stub module of a world.
pub fn render_python_stubs(world: &CanonicalWorld) -> (r: String)
    ensures
        r@ == stubs_text(*world),
{
    let bindings = canonical_python_bindings(world);
    let exports = if world.exports.len() > 0 {
        render_python_exports(&world.exports[0])
    } else {
        String::new()
    };
    let ghost fs: Seq<CanonicalFunction> = if world.exports@.len() > 0 {
        world.exports@[0].functions@
    } else {
        Seq::empty()
    };
    let mut sections: Vec<String> = Vec::new();
    push_line(&mut sections, "from dataclasses import dataclass".to_owned());
    push_line(&mut sections, "from enum import Enum".to_owned());
    push_line(&mut sections, "from typing import Optional, TypeAlias".to_owned());
    if !exports.as_str().is_empty() {
        push_line(&mut sections, String::new());
        push_line(&mut sections, exports);
    }
    if bindings.functions.len() > 0 {
        let mut stubs: Vec<String> = Vec::new();
        for i in 0..bindings.functions.len()
            invariant
                bindings.functions@.len() == fs.len(),
                forall|j: int|
                    0 <= j < fs.len() ==> function_binding(
                        #[trigger] bindings.functions@[j],
                        fs[j],
                    ),
                stubs@.len() == i,
                forall|j: int|
                    0 <= j < i ==> (#[trigger] stubs@[j])@ == canonical_function_text(fs[j]),
        {
            proof {
                lemma_binding_text(bindings.functions@[i as int], fs[i as int]);
            }
            stubs.push(render_python_function(&bindings.functions[i]));
        }
        assert(texts(stubs@) =~= Seq::new(fs.len(), |i: int| canonical_function_text(fs[i])));
        push_line(&mut sections, String::new());
        push_line(&mut sections, join_strings(&stubs, "\n\n"));
    }
    proof {
        reveal_strlit("");
    }
    assert(texts(sections@) =~= {
        let header = seq![
            "from dataclasses import dataclass"@,
            "from enum import Enum"@,
            "from typing import Optional, TypeAlias"@,
        ];
        let ex = if world.exports@.len() > 0 {
            exports_text(world.exports@[0])
        } else {
            Seq::empty()
        };
        let with_types = if ex.len() > 0 {
            header + seq![Seq::empty(), ex]
        } else {
            header
        };
        if fs.len() > 0 {
            with_types + seq![Seq::empty(), functions_text(fs)]
        } else {
            with_types
        }
    });
    join_strings(&sections, "\n")
}

} // verus!
