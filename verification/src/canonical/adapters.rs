//! Conversions between the model surface, canonical invocations and
//! component values, driven by the types in an action registry.
use std::sync::Arc;
use vstd::prelude::*;

use crate::assoc::{
    assoc_get, assoc_get_unsorted, assoc_insert, has_key, lemma_lookup, lookup, sorted_keys,
};
use crate::canonical::ir::{
    CanonicalField, CanonicalPrimitiveType, CanonicalTypeDefKind, CanonicalTypeRef,
};
use crate::canonical::naming::{python_function_name, python_name};
use crate::canonical::ir::CanonicalParam;
use crate::canonical::ir::CanonicalFunctionResult;
use crate::canonical::registry::{ActionDefinition, ActionParam, ActionRegistry, BindingError};
use crate::domain::action::CanonicalInvocation;
use crate::domain::ids::ActionName;
use crate::domain::value::{CanonicalValue, Value};
use crate::text::string_push_str;

verus! {

/// Converts model invocations into canonical ones and canonical results back.
#[derive(Debug)]
pub struct ModelAdapter {
    registry: Arc<ActionRegistry>,
}

impl ModelAdapter {
    /// The registry this adapter converts with.
    pub closed spec fn registry(self) -> ActionRegistry {
        *self.registry
    }

    /// An adapter over a registry.
    pub fn new(registry: Arc<ActionRegistry>) -> (r: Self)
        ensures
            r.registry() == *registry,
    {
        ModelAdapter { registry }
    }
}

/// `<skill>.<name>`, the label of a named type in messages.
pub open spec fn type_label(skill: Seq<char>, name: Seq<char>) -> Seq<char> {
    skill + "."@ + name
}

/// The message for a type name the skill does not define.
pub open spec fn unknown_type_message(skill: Seq<char>, name: Seq<char>) -> Seq<char> {
    "unknown canonical type '"@ + type_label(skill, name) + "'"@
}

/// The message for an alias chain that leads back to itself.
pub open spec fn cyclic_alias_message(skill: Seq<char>, name: Seq<char>) -> Seq<char> {
    "cyclic type alias '"@ + type_label(skill, name) + "'"@
}

/// A value looked up in an association list is one of its entries' values.
pub proof fn lemma_lookup_is_entry<V>(s: Seq<(String, V)>, k: Seq<char>)
    ensures
        lookup(s, k) matches Some(x) ==> exists|i: int| 0 <= i < s.len() && (#[trigger] s[i]).1 == x,
    decreases s.len(),
{
    if s.len() > 0 && s[0].0@ != k {
        lemma_lookup_is_entry(s.drop_first(), k);
        if let Some(x) = lookup(s, k) {
            let i = choose|i: int| 0 <= i < s.drop_first().len() && (#[trigger] s.drop_first()[i]).1 == x;
            assert(s[i + 1] == s.drop_first()[i]);
        }
    }
}

/// Why the model value `v` cannot be lowered to canonical type `ty` of skill
/// `skill`, if it cannot; `steps` is how many more alias hops may be taken
/// before a chain of aliases counts as cyclic.
pub open spec fn lower_failure(
    reg: ActionRegistry,
    skill: Seq<char>,
    ty: CanonicalTypeRef,
    v: Value,
    steps: nat,
) -> Option<Seq<char>>
    decreases v, steps, ty,
{
    match ty {
        CanonicalTypeRef::Primitive(p) => match p {
            CanonicalPrimitiveType::Bool => if v is Bool {
                None
            } else {
                Some("expected bool"@)
            },
            CanonicalPrimitiveType::S32 => if v matches Value::Int(n) && i32::MIN <= n <= i32::MAX {
                None
            } else {
                Some("expected signed 32-bit integer"@)
            },
            CanonicalPrimitiveType::S64 | CanonicalPrimitiveType::S16
            | CanonicalPrimitiveType::S8 => if v is Int {
                None
            } else {
                Some("expected signed integer"@)
            },
            CanonicalPrimitiveType::U32 => if v matches Value::Int(n) && 0 <= n <= u32::MAX {
                None
            } else {
                Some("expected unsigned 32-bit integer"@)
            },
            CanonicalPrimitiveType::U64 | CanonicalPrimitiveType::U16
            | CanonicalPrimitiveType::U8 => if v matches Value::Int(n) && 0 <= n {
                None
            } else {
                Some("expected unsigned integer"@)
            },
            CanonicalPrimitiveType::String | CanonicalPrimitiveType::Char => if v is String {
                None
            } else {
                Some("expected string"@)
            },
            CanonicalPrimitiveType::Float32 | CanonicalPrimitiveType::Float64 => Some(
                "float values are not supported by the model value surface yet"@,
            ),
        },
        CanonicalTypeRef::List(inner) => match v {
            Value::List(items) => lower_items_failure(reg, skill, *inner, items@),
            _ => Some("expected list"@),
        },
        CanonicalTypeRef::Option(inner) => if v is Null {
            None
        } else {
            lower_failure(reg, skill, *inner, v, steps)
        },
        CanonicalTypeRef::Tuple(tys) => match v {
            Value::List(values) => if values@.len() == tys@.len() {
                lower_tuple_failure(reg, skill, tys@, values@)
            } else {
                Some("expected tuple-compatible list"@)
            },
            _ => Some("expected tuple-compatible list"@),
        },
        CanonicalTypeRef::Result { .. } => Some(
            "model result values are not supported as direct inputs"@,
        ),
        CanonicalTypeRef::Named(name) => match reg.type_in_skill(skill, name@) {
            None => Some(unknown_type_message(skill, name@)),
            Some(def) => match def.kind {
                CanonicalTypeDefKind::Alias(t) => if steps == 0 {
                    Some(cyclic_alias_message(skill, name@))
                } else {
                    lower_failure(reg, skill, t, v, (steps - 1) as nat)
                },
                CanonicalTypeDefKind::Enum(cases) => if v matches Value::String(s) && exists|i: int|
                    0 <= i < cases@.len() && (#[trigger] cases@[i]).name@ == s@ {
                    None
                } else {
                    Some("expected enum case for type '"@ + type_label(skill, name@) + "'"@)
                },
                CanonicalTypeDefKind::Record(rec) => match v {
                    Value::Dict(d) => lower_record_failure(reg, skill, name@, rec.fields@, d@),
                    _ => Some("expected record value for type '"@ + type_label(skill, name@) + "'"@),
                },
                CanonicalTypeDefKind::Variant(_) => Some("variant model values are not supported yet"@),
                CanonicalTypeDefKind::Flags(_) => Some("flag model values are not supported yet"@),
            },
        },
    }
}

/// The first failure among lowering the list items `items` to `inner`.
pub open spec fn lower_items_failure(
    reg: ActionRegistry,
    skill: Seq<char>,
    inner: CanonicalTypeRef,
    items: Seq<Value>,
) -> Option<Seq<char>>
    decreases items, 0nat, inner,
{
    if items.len() == 0 {
        None
    } else {
        match lower_items_failure(reg, skill, inner, items.drop_last()) {
            Some(e) => Some(e),
            None => lower_failure(reg, skill, inner, items.last(), reg.alias_budget(skill)),
        }
    }
}

/// The first failure among lowering tuple members `values` to `tys`.
pub open spec fn lower_tuple_failure(
    reg: ActionRegistry,
    skill: Seq<char>,
    tys: Seq<CanonicalTypeRef>,
    values: Seq<Value>,
) -> Option<Seq<char>>
    decreases values, 0nat, tys,
{
    if values.len() == 0 || tys.len() == 0 {
        None
    } else {
        match lower_tuple_failure(reg, skill, tys.drop_last(), values.drop_last()) {
            Some(e) => Some(e),
            None => lower_failure(reg, skill, tys.last(), values.last(), reg.alias_budget(skill)),
        }
    }
}

/// The first failure among lowering the fields of record `name` from the
/// dictionary entries `d`: a missing entry or a field value that cannot be
/// lowered.
pub open spec fn lower_record_failure(
    reg: ActionRegistry,
    skill: Seq<char>,
    name: Seq<char>,
    fields: Seq<CanonicalField>,
    d: Seq<(String, Value)>,
) -> Option<Seq<char>>
    decreases d, 0nat, fields,
{
    if fields.len() == 0 {
        None
    } else {
        match lower_record_failure(reg, skill, name, fields.drop_last(), d) {
            Some(e) => Some(e),
            None => {
                let f = fields.last();
                match lookup(d, python_name(f.name@)) {
                    None => Some(
                        "missing field '"@ + python_name(f.name@) + "' for record '"@ + type_label(
                            skill,
                            name,
                        ) + "'"@,
                    ),
                    Some(x) => {
                        proof {
                            lemma_lookup_is_entry(d, python_name(f.name@));
                            let i = choose|i: int| 0 <= i < d.len() && (#[trigger] d[i]).1 == x;
                            assert(decreases_to!(d => d[i]));
                        }
                        lower_failure(reg, skill, f.ty, x, reg.alias_budget(skill))
                    },
                }
            },
        }
    }
}

/// No field from `i + 1` up to `n` has the name of field `i`.
pub open spec fn last_before(fields: Seq<CanonicalField>, i: int, n: int) -> bool {
    forall|j: int| i < j < n ==> (#[trigger] fields[j]).name@ != fields[i].name@
}

/// `i` is the last of the fields with its name.
pub open spec fn last_of_name(fields: Seq<CanonicalField>, i: int) -> bool {
    last_before(fields, i, fields.len() as int)
}

/// The lowered record entries `fs` hold, for each of the first `n` fields
/// that no later one of them renames, the lowering of its dictionary entry.
pub open spec fn record_prefix_lowered(
    reg: ActionRegistry,
    skill: Seq<char>,
    fields: Seq<CanonicalField>,
    d: Seq<(String, Value)>,
    fs: Seq<(String, CanonicalValue)>,
    n: int,
) -> bool {
    forall|j: int|
        0 <= j < n && last_before(fields, j, n) ==> (lookup(fs, (#[trigger] fields[j]).name@) matches Some(
            x,
        ) && lookup(d, python_name(fields[j].name@)) matches Some(y) && lowers_to(
            reg,
            skill,
            fields[j].ty,
            y,
            reg.alias_budget(skill),
            x,
        ))
}

/// `out` is the lowering of model value `v` to type `ty` (when
/// `lower_failure` finds no failure).
pub open spec fn lowers_to(
    reg: ActionRegistry,
    skill: Seq<char>,
    ty: CanonicalTypeRef,
    v: Value,
    steps: nat,
    out: CanonicalValue,
) -> bool
    decreases v, steps, ty,
{
    match ty {
        CanonicalTypeRef::Primitive(p) => match p {
            CanonicalPrimitiveType::Bool => v matches Value::Bool(b) && out == CanonicalValue::Bool(b),
            CanonicalPrimitiveType::S32 => v matches Value::Int(n) && out == CanonicalValue::S32(
                n as i32,
            ),
            CanonicalPrimitiveType::S64 | CanonicalPrimitiveType::S16
            | CanonicalPrimitiveType::S8 => v matches Value::Int(n) && out == CanonicalValue::S64(n),
            CanonicalPrimitiveType::U32 => v matches Value::Int(n) && out == CanonicalValue::U32(
                n as u32,
            ),
            CanonicalPrimitiveType::U64 | CanonicalPrimitiveType::U16
            | CanonicalPrimitiveType::U8 => v matches Value::Int(n) && out == CanonicalValue::U64(
                n as u64,
            ),
            CanonicalPrimitiveType::String | CanonicalPrimitiveType::Char => v matches Value::String(
                s,
            ) && out == CanonicalValue::String(s),
            CanonicalPrimitiveType::Float32 | CanonicalPrimitiveType::Float64 => false,
        },
        CanonicalTypeRef::List(inner) => v matches Value::List(items) && out matches CanonicalValue::List(
            outs,
        ) && outs@.len() == items@.len() && forall|i: int|
            0 <= i < items@.len() ==> lowers_to(
                reg,
                skill,
                *inner,
                #[trigger] items@[i],
                reg.alias_budget(skill),
                outs@[i],
            ),
        CanonicalTypeRef::Option(inner) => if v is Null {
            out is Null
        } else {
            lowers_to(reg, skill, *inner, v, steps, out)
        },
        CanonicalTypeRef::Tuple(tys) => v matches Value::List(values) && out matches CanonicalValue::Tuple(
            outs,
        ) && outs@.len() == values@.len() && values@.len() == tys@.len() && forall|i: int|
            0 <= i < values@.len() ==> lowers_to(
                reg,
                skill,
                tys@[i],
                #[trigger] values@[i],
                reg.alias_budget(skill),
                outs@[i],
            ),
        CanonicalTypeRef::Result { .. } => false,
        CanonicalTypeRef::Named(name) => match reg.type_in_skill(skill, name@) {
            None => false,
            Some(def) => match def.kind {
                CanonicalTypeDefKind::Alias(t) => steps > 0 && lowers_to(
                    reg,
                    skill,
                    t,
                    v,
                    (steps - 1) as nat,
                    out,
                ),
                CanonicalTypeDefKind::Enum(_) => v matches Value::String(s) && out
                    == CanonicalValue::EnumCase(s),
                CanonicalTypeDefKind::Record(rec) => v matches Value::Dict(d) && out matches CanonicalValue::Record(
                    fs,
                ) && sorted_keys(fs@) && (forall|k: Seq<char>| #[trigger]
                    has_key(fs@, k) == exists|i: int|
                        0 <= i < rec.fields@.len() && (#[trigger] rec.fields@[i]).name@ == k)
                    && forall|i: int|
                    0 <= i < rec.fields@.len() && last_of_name(rec.fields@, i) ==> (lookup(
                        fs@,
                        (#[trigger] rec.fields@[i]).name@,
                    ) matches Some(x) && lookup(d@, python_name(rec.fields@[i].name@)) matches Some(
                        y,
                    ) && {
                        proof {
                            lemma_lookup_is_entry(d@, python_name(rec.fields@[i].name@));
                            let j = choose|j: int| 0 <= j < d@.len() && (#[trigger] d@[j]).1 == y;
                            assert(decreases_to!(d@ => d@[j]));
                        }
                        lowers_to(reg, skill, rec.fields@[i].ty, y, reg.alias_budget(skill), x)
                    }),
                _ => false,
            },
        },
    }
}

proof fn lemma_lower_items_prefix(
    reg: ActionRegistry,
    skill: Seq<char>,
    inner: CanonicalTypeRef,
    items: Seq<Value>,
    n: int,
)
    requires
        0 <= n <= items.len(),
        lower_items_failure(reg, skill, inner, items.take(n)) is Some,
    ensures
        lower_items_failure(reg, skill, inner, items) == lower_items_failure(
            reg,
            skill,
            inner,
            items.take(n),
        ),
    decreases items.len() - n,
{
    if n < items.len() {
        assert(items.take(n + 1).drop_last() =~= items.take(n));
        lemma_lower_items_prefix(reg, skill, inner, items, n + 1);
    } else {
        assert(items.take(n) =~= items);
    }
}

proof fn lemma_lower_tuple_prefix(
    reg: ActionRegistry,
    skill: Seq<char>,
    tys: Seq<CanonicalTypeRef>,
    values: Seq<Value>,
    n: int,
)
    requires
        0 <= n <= values.len(),
        values.len() == tys.len(),
        lower_tuple_failure(reg, skill, tys.take(n), values.take(n)) is Some,
    ensures
        lower_tuple_failure(reg, skill, tys, values) == lower_tuple_failure(
            reg,
            skill,
            tys.take(n),
            values.take(n),
        ),
    decreases values.len() - n,
{
    if n < values.len() {
        assert(values.take(n + 1).drop_last() =~= values.take(n));
        assert(tys.take(n + 1).drop_last() =~= tys.take(n));
        lemma_lower_tuple_prefix(reg, skill, tys, values, n + 1);
    } else {
        assert(values.take(n) =~= values);
        assert(tys.take(n) =~= tys);
    }
}

proof fn lemma_lower_record_prefix(
    reg: ActionRegistry,
    skill: Seq<char>,
    name: Seq<char>,
    fields: Seq<CanonicalField>,
    d: Seq<(String, Value)>,
    n: int,
)
    requires
        0 <= n <= fields.len(),
        lower_record_failure(reg, skill, name, fields.take(n), d) is Some,
    ensures
        lower_record_failure(reg, skill, name, fields, d) == lower_record_failure(
            reg,
            skill,
            name,
            fields.take(n),
            d,
        ),
    decreases fields.len() - n,
{
    if n < fields.len() {
        assert(fields.take(n + 1).drop_last() =~= fields.take(n));
        lemma_lower_record_prefix(reg, skill, name, fields, d, n + 1);
    } else {
        assert(fields.take(n) =~= fields);
    }
}

/// `<prefix><skill>.<name><suffix>` as a string.
pub(crate) fn labelled_message(prefix: &str, skill: &str, name: &str, suffix: &str) -> (r: String)
    ensures
        r@ == prefix@ + type_label(skill@, name@) + suffix@,
{
    let mut m = String::new();
    string_push_str(&mut m, prefix);
    string_push_str(&mut m, skill);
    string_push_str(&mut m, ".");
    string_push_str(&mut m, name);
    string_push_str(&mut m, suffix);
    assert(m@ =~= prefix@ + type_label(skill@, name@) + suffix@);
    m
}

pub(crate) fn fail<T>(message: &str) -> (r: Result<T, BindingError>)
    ensures
        r matches Err(e) && e.message()@ == message@,
{
    Err(BindingError::new(message.to_owned()))
}

/// Lowers a model value to canonical type `ty` of skill `skill_name`.
fn lower_model_value(
    registry: &ActionRegistry,
    skill_name: &str,
    ty: &CanonicalTypeRef,
    value: &Value,
    steps: usize,
) -> (r: Result<CanonicalValue, BindingError>)
    ensures
        match r {
            Ok(out) => lower_failure(*registry, skill_name@, *ty, *value, steps as nat) is None
                && lowers_to(*registry, skill_name@, *ty, *value, steps as nat, out),
            Err(e) => lower_failure(*registry, skill_name@, *ty, *value, steps as nat) == Some(
                e.message()@,
            ),
        },
    decreases *value, steps, *ty,
{
    match ty {
        CanonicalTypeRef::Primitive(p) => match p {
            CanonicalPrimitiveType::Bool => match value {
                Value::Bool(b) => Ok(CanonicalValue::Bool(*b)),
                _ => fail("expected bool"),
            },
            CanonicalPrimitiveType::S32 => match value {
                Value::Int(n) => if -2147483648i64 <= *n && *n <= 2147483647i64 {
                    Ok(CanonicalValue::S32(*n as i32))
                } else {
                    fail("expected signed 32-bit integer")
                },
                _ => fail("expected signed 32-bit integer"),
            },
            CanonicalPrimitiveType::S64 | CanonicalPrimitiveType::S16
            | CanonicalPrimitiveType::S8 => match value {
                Value::Int(n) => Ok(CanonicalValue::S64(*n)),
                _ => fail("expected signed integer"),
            },
            CanonicalPrimitiveType::U32 => match value {
                Value::Int(n) => if 0 <= *n && *n <= 4294967295i64 {
                    Ok(CanonicalValue::U32(*n as u32))
                } else {
                    fail("expected unsigned 32-bit integer")
                },
                _ => fail("expected unsigned 32-bit integer"),
            },
            CanonicalPrimitiveType::U64 | CanonicalPrimitiveType::U16
            | CanonicalPrimitiveType::U8 => match value {
                Value::Int(n) => if 0 <= *n {
                    Ok(CanonicalValue::U64(*n as u64))
                } else {
                    fail("expected unsigned integer")
                },
                _ => fail("expected unsigned integer"),
            },
            CanonicalPrimitiveType::String | CanonicalPrimitiveType::Char => match value {
                Value::String(s) => Ok(CanonicalValue::String(s.clone())),
                _ => fail("expected string"),
            },
            CanonicalPrimitiveType::Float32 | CanonicalPrimitiveType::Float64 => fail(
                "float values are not supported by the model value surface yet",
            ),
        },
        CanonicalTypeRef::List(inner) => match value {
            Value::List(items) => {
                let budget = registry.alias_budget_of(skill_name);
                let mut outs: Vec<CanonicalValue> = Vec::new();
                assert(items@.take(0) =~= Seq::<Value>::empty());
                for i in 0..items.len()
                    invariant
                        *value == Value::List(*items),
                        *ty == CanonicalTypeRef::List(*inner),
                        budget == registry.alias_budget(skill_name@),
                        outs@.len() == i,
                        lower_items_failure(*registry, skill_name@, **inner, items@.take(i as int))
                            is None,
                        forall|j: int|
                            0 <= j < i ==> lowers_to(
                                *registry,
                                skill_name@,
                                **inner,
                                #[trigger] items@[j],
                                budget as nat,
                                outs@[j],
                            ),
                {
                    assert(items@.take(i + 1).drop_last() =~= items@.take(i as int));
                    proof {
                        assert(decreases_to!(*value => (*value)->List_0));
                    }
                    match lower_model_value(registry, skill_name, inner, &items[i], budget) {
                        Ok(x) => {
                            outs.push(x);
                        },
                        Err(e) => {
                            proof {
                                lemma_lower_items_prefix(
                                    *registry,
                                    skill_name@,
                                    **inner,
                                    items@,
                                    i + 1,
                                );
                            }
                            return Err(e);
                        },
                    }
                }
                assert(items@.take(items@.len() as int) =~= items@);
                Ok(CanonicalValue::List(outs))
            },
            _ => fail("expected list"),
        },
        CanonicalTypeRef::Option(inner) => match value {
            Value::Null => Ok(CanonicalValue::Null),
            _ => lower_model_value(registry, skill_name, inner, value, steps),
        },
        CanonicalTypeRef::Tuple(tys) => match value {
            Value::List(values) => {
                if values.len() != tys.len() {
                    return fail("expected tuple-compatible list");
                }
                let budget = registry.alias_budget_of(skill_name);
                let mut outs: Vec<CanonicalValue> = Vec::new();
                assert(values@.take(0) =~= Seq::<Value>::empty());
                for i in 0..values.len()
                    invariant
                        *value == Value::List(*values),
                        *ty == CanonicalTypeRef::Tuple(*tys),
                        values@.len() == tys@.len(),
                        budget == registry.alias_budget(skill_name@),
                        outs@.len() == i,
                        lower_tuple_failure(
                            *registry,
                            skill_name@,
                            tys@.take(i as int),
                            values@.take(i as int),
                        ) is None,
                        forall|j: int|
                            0 <= j < i ==> lowers_to(
                                *registry,
                                skill_name@,
                                tys@[j],
                                #[trigger] values@[j],
                                budget as nat,
                                outs@[j],
                            ),
                {
                    assert(values@.take(i + 1).drop_last() =~= values@.take(i as int));
                    assert(tys@.take(i + 1).drop_last() =~= tys@.take(i as int));
                    proof {
                        assert(decreases_to!(*value => (*value)->List_0));
                    }
                    match lower_model_value(registry, skill_name, &tys[i], &values[i], budget) {
                        Ok(x) => {
                            outs.push(x);
                        },
                        Err(e) => {
                            proof {
                                lemma_lower_tuple_prefix(
                                    *registry,
                                    skill_name@,
                                    tys@,
                                    values@,
                                    i + 1,
                                );
                            }
                            return Err(e);
                        },
                    }
                }
                assert(values@.take(values@.len() as int) =~= values@);
                assert(tys@.take(tys@.len() as int) =~= tys@);
                Ok(CanonicalValue::Tuple(outs))
            },
            _ => fail("expected tuple-compatible list"),
        },
        CanonicalTypeRef::Result { .. } => fail(
            "model result values are not supported as direct inputs",
        ),
        CanonicalTypeRef::Named(name) => lower_named_model_value(
            registry,
            skill_name,
            name.as_str(),
            ty,
            value,
            steps,
        ),
    }
}

/// Lowers a model value to the named type `name` of skill `skill_name`.
fn lower_named_model_value(
    registry: &ActionRegistry,
    skill_name: &str,
    name: &str,
    ty: &CanonicalTypeRef,
    value: &Value,
    steps: usize,
) -> (r: Result<CanonicalValue, BindingError>)
    requires
        *ty matches CanonicalTypeRef::Named(n) && n@ == name@,
    ensures
        match r {
            Ok(out) => lower_failure(*registry, skill_name@, *ty, *value, steps as nat) is None
                && lowers_to(*registry, skill_name@, *ty, *value, steps as nat, out),
            Err(e) => lower_failure(*registry, skill_name@, *ty, *value, steps as nat) == Some(
                e.message()@,
            ),
        },
    decreases *value, steps, *ty, 0nat,
{
    let def = match registry.type_by_name_in_skill(skill_name, name) {
        Some(d) => d,
        None => {
            return Err(
                BindingError::new(labelled_message("unknown canonical type '", skill_name, name, "'")),
            );
        },
    };
    match &def.kind {
        CanonicalTypeDefKind::Alias(alias) => {
            if steps == 0 {
                return Err(
                    BindingError::new(labelled_message("cyclic type alias '", skill_name, name, "'")),
                );
            }
            lower_model_value(registry, skill_name, alias, value, steps - 1)
        },
        CanonicalTypeDefKind::Enum(cases) => match value {
            Value::String(s) => {
                let mut found = false;
                for i in 0..cases.len()
                    invariant
                        found == exists|j: int| 0 <= j < i && (#[trigger] cases@[j]).name@ == s@,
                {
                    if crate::text::str_eq(cases[i].name.as_str(), s.as_str()) {
                        found = true;
                    }
                }
                if found {
                    Ok(CanonicalValue::EnumCase(s.clone()))
                } else {
                    Err(
                        BindingError::new(
                            labelled_message("expected enum case for type '", skill_name, name, "'"),
                        ),
                    )
                }
            },
            _ => Err(
                BindingError::new(
                    labelled_message("expected enum case for type '", skill_name, name, "'"),
                ),
            ),
        },
        CanonicalTypeDefKind::Record(record) => match value {
            Value::Dict(entries) => {
                let budget = registry.alias_budget_of(skill_name);
                let mut lowered: Vec<(String, CanonicalValue)> = Vec::new();
                let ghost fields = record.fields@;
                assert(fields.take(0) =~= Seq::<CanonicalField>::empty());
                for i in 0..record.fields.len()
                    invariant
                        *value == Value::Dict(*entries),
                        *ty matches CanonicalTypeRef::Named(nn) && nn@ == name@,
                        registry.type_in_skill(skill_name@, name@) == Some(*def),
                        def.kind == CanonicalTypeDefKind::Record(*record),
                        fields == record.fields@,
                        budget == registry.alias_budget(skill_name@),
                        sorted_keys(lowered@),
                        lower_record_failure(
                            *registry,
                            skill_name@,
                            name@,
                            fields.take(i as int),
                            entries@,
                        ) is None,
                        forall|k: Seq<char>| #[trigger]
                            has_key(lowered@, k) == exists|j: int|
                                0 <= j < i && (#[trigger] fields[j]).name@ == k,
                        record_prefix_lowered(
                            *registry,
                            skill_name@,
                            fields,
                            entries@,
                            lowered@,
                            i as int,
                        ),
                {
                    let field = &record.fields[i];
                    assert(fields.take(i + 1).drop_last() =~= fields.take(i as int));
                    let model_name = python_function_name(field.name.as_str());
                    let field_value = match assoc_get_unsorted(entries, model_name.as_str()) {
                        Some(v) => v,
                        None => {
                            let mut m = String::new();
                            string_push_str(&mut m, "missing field '");
                            string_push_str(&mut m, model_name.as_str());
                            let rest = labelled_message("' for record '", skill_name, name, "'");
                            string_push_str(&mut m, rest.as_str());
                            proof {
                                assert(m@ =~= "missing field '"@ + python_name(field.name@)
                                    + "' for record '"@ + type_label(skill_name@, name@) + "'"@);
                                lemma_lower_record_prefix(
                                    *registry,
                                    skill_name@,
                                    name@,
                                    fields,
                                    entries@,
                                    i + 1,
                                );
                            }
                            return Err(BindingError::new(m));
                        },
                    };
                    proof {
                        lemma_lookup_is_entry(entries@, model_name@);
                        let j = choose|j: int|
                            0 <= j < entries@.len() && (#[trigger] entries@[j]).1 == *field_value;
                        assert(decreases_to!(*value => (*value)->Dict_0));
                        assert(decreases_to!(entries@ => entries@[j]));
                    }
                    match lower_model_value(registry, skill_name, &field.ty, field_value, budget) {
                        Ok(x) => {
                            let ghost l0 = lowered@;
                            assoc_insert(&mut lowered, field.name.clone(), x);
                            assert(record_prefix_lowered(
                                *registry,
                                skill_name@,
                                fields,
                                entries@,
                                lowered@,
                                i + 1,
                            )) by {
                                assert forall|j: int|
                                    0 <= j < i + 1 && last_before(fields, j, i + 1) implies (lookup(
                                    lowered@,
                                    (#[trigger] fields[j]).name@,
                                ) matches Some(xx) && lookup(
                                    entries@,
                                    python_name(fields[j].name@),
                                ) matches Some(y) && lowers_to(
                                    *registry,
                                    skill_name@,
                                    fields[j].ty,
                                    y,
                                    registry.alias_budget(skill_name@),
                                    xx,
                                )) by {
                                    if j < i {
                                        assert(fields[i as int].name@ != fields[j].name@);
                                        assert(last_before(fields, j, i as int));
                                    }
                                }
                            }
                            assert forall|k: Seq<char>| #[trigger]
                                has_key(lowered@, k) == exists|j: int|
                                    0 <= j < i + 1 && (#[trigger] fields[j]).name@ == k by {
                                if k == field.name@ {
                                    assert(fields[i as int].name@ == k);
                                }
                                if has_key(l0, k) {
                                    let j = choose|j: int| 0 <= j < i && (#[trigger] fields[j]).name@ == k;
                                }
                            }
                        },
                        Err(e) => {
                            proof {
                                lemma_lower_record_prefix(
                                    *registry,
                                    skill_name@,
                                    name@,
                                    fields,
                                    entries@,
                                    i + 1,
                                );
                            }
                            return Err(e);
                        },
                    }
                }
                assert(fields.take(fields.len() as int) =~= fields);
                Ok(CanonicalValue::Record(lowered))
            },
            _ => Err(
                BindingError::new(
                    labelled_message("expected record value for type '", skill_name, name, "'"),
                ),
            ),
        },
        CanonicalTypeDefKind::Variant(_) => fail("variant model values are not supported yet"),
        CanonicalTypeDefKind::Flags(_) => fail("flag model values are not supported yet"),
    }
}

/// Why the canonical value `v` cannot be lifted from type `ty` of skill
/// `skill` to the model surface, if it cannot.
pub open spec fn lift_failure(
    reg: ActionRegistry,
    skill: Seq<char>,
    ty: CanonicalTypeRef,
    v: CanonicalValue,
    steps: nat,
) -> Option<Seq<char>>
    decreases v, steps, ty,
{
    match ty {
        CanonicalTypeRef::Primitive(p) => match p {
            CanonicalPrimitiveType::Bool => if v is Bool {
                None
            } else {
                Some("expected canonical bool"@)
            },
            CanonicalPrimitiveType::S32 => if v is S32 {
                None
            } else {
                Some("expected canonical s32"@)
            },
            CanonicalPrimitiveType::S64 | CanonicalPrimitiveType::S16
            | CanonicalPrimitiveType::S8 => if v is S64 || v is S32 {
                None
            } else {
                Some("expected canonical signed integer"@)
            },
            CanonicalPrimitiveType::U32 => if v is U32 {
                None
            } else {
                Some("expected canonical u32"@)
            },
            CanonicalPrimitiveType::U64 | CanonicalPrimitiveType::U16
            | CanonicalPrimitiveType::U8 => match v {
                CanonicalValue::U64(n) => if n <= i64::MAX {
                    None
                } else {
                    Some("unsigned integer does not fit model value surface"@)
                },
                CanonicalValue::U32(_) => None,
                _ => Some("expected canonical unsigned integer"@),
            },
            CanonicalPrimitiveType::String | CanonicalPrimitiveType::Char => if v is String {
                None
            } else {
                Some("expected canonical string"@)
            },
            CanonicalPrimitiveType::Float32 | CanonicalPrimitiveType::Float64 => Some(
                "float values are not supported by the model value surface yet"@,
            ),
        },
        CanonicalTypeRef::List(inner) => match v {
            CanonicalValue::List(items) => lift_items_failure(reg, skill, *inner, items@),
            _ => Some("expected canonical list"@),
        },
        CanonicalTypeRef::Option(inner) => if v is Null {
            None
        } else {
            lift_failure(reg, skill, *inner, v, steps)
        },
        CanonicalTypeRef::Tuple(tys) => match v {
            CanonicalValue::Tuple(values) => if values@.len() == tys@.len() {
                lift_tuple_failure(reg, skill, tys@, values@)
            } else {
                Some("expected canonical tuple"@)
            },
            _ => Some("expected canonical tuple"@),
        },
        CanonicalTypeRef::Result { .. } => Some("canonical result values are not supported yet"@),
        CanonicalTypeRef::Named(name) => match reg.type_in_skill(skill, name@) {
            None => Some(unknown_type_message(skill, name@)),
            Some(def) => match def.kind {
                CanonicalTypeDefKind::Alias(t) => if steps == 0 {
                    Some(cyclic_alias_message(skill, name@))
                } else {
                    lift_failure(reg, skill, t, v, (steps - 1) as nat)
                },
                CanonicalTypeDefKind::Enum(_) => if v is EnumCase {
                    None
                } else {
                    Some("expected canonical enum value for '"@ + type_label(skill, name@) + "'"@)
                },
                CanonicalTypeDefKind::Record(rec) => match v {
                    CanonicalValue::Record(d) => lift_record_failure(
                        reg,
                        skill,
                        name@,
                        rec.fields@,
                        d@,
                    ),
                    _ => Some("expected canonical record for '"@ + type_label(skill, name@) + "'"@),
                },
                CanonicalTypeDefKind::Variant(_) => Some("variant model values are not supported yet"@),
                CanonicalTypeDefKind::Flags(_) => Some("flag model values are not supported yet"@),
            },
        },
    }
}

/// The first failure among lifting list items `items` from `inner`.
pub open spec fn lift_items_failure(
    reg: ActionRegistry,
    skill: Seq<char>,
    inner: CanonicalTypeRef,
    items: Seq<CanonicalValue>,
) -> Option<Seq<char>>
    decreases items, 0nat, inner,
{
    if items.len() == 0 {
        None
    } else {
        match lift_items_failure(reg, skill, inner, items.drop_last()) {
            Some(e) => Some(e),
            None => lift_failure(reg, skill, inner, items.last(), reg.alias_budget(skill)),
        }
    }
}

/// The first failure among lifting tuple members `values` from `tys`.
pub open spec fn lift_tuple_failure(
    reg: ActionRegistry,
    skill: Seq<char>,
    tys: Seq<CanonicalTypeRef>,
    values: Seq<CanonicalValue>,
) -> Option<Seq<char>>
    decreases values, 0nat, tys,
{
    if values.len() == 0 || tys.len() == 0 {
        None
    } else {
        match lift_tuple_failure(reg, skill, tys.drop_last(), values.drop_last()) {
            Some(e) => Some(e),
            None => lift_failure(reg, skill, tys.last(), values.last(), reg.alias_budget(skill)),
        }
    }
}

/// The first failure among lifting the fields of record `name` from the
/// canonical record entries `d`.
pub open spec fn lift_record_failure(
    reg: ActionRegistry,
    skill: Seq<char>,
    name: Seq<char>,
    fields: Seq<CanonicalField>,
    d: Seq<(String, CanonicalValue)>,
) -> Option<Seq<char>>
    decreases d, 0nat, fields,
{
    if fields.len() == 0 {
        None
    } else {
        match lift_record_failure(reg, skill, name, fields.drop_last(), d) {
            Some(e) => Some(e),
            None => {
                let f = fields.last();
                match lookup(d, f.name@) {
                    None => Some(
                        "missing canonical field '"@ + f.name@ + "' for record '"@ + type_label(
                            skill,
                            name,
                        ) + "'"@,
                    ),
                    Some(x) => {
                        proof {
                            lemma_lookup_is_entry(d, f.name@);
                            let i = choose|i: int| 0 <= i < d.len() && (#[trigger] d[i]).1 == x;
                            assert(decreases_to!(d => d[i]));
                        }
                        lift_failure(reg, skill, f.ty, x, reg.alias_budget(skill))
                    },
                }
            },
        }
    }
}

/// No field from `i + 1` up to `n` has the Python name of field `i`.
pub open spec fn last_python_before(fields: Seq<CanonicalField>, i: int, n: int) -> bool {
    forall|j: int|
        i < j < n ==> python_name((#[trigger] fields[j]).name@) != python_name(fields[i].name@)
}

/// `out` is the lifting of canonical value `v` from type `ty` (when
/// `lift_failure` finds no failure).
pub open spec fn lifts_to(
    reg: ActionRegistry,
    skill: Seq<char>,
    ty: CanonicalTypeRef,
    v: CanonicalValue,
    steps: nat,
    out: Value,
) -> bool
    decreases v, steps, ty,
{
    match ty {
        CanonicalTypeRef::Primitive(p) => match p {
            CanonicalPrimitiveType::Bool => v matches CanonicalValue::Bool(b) && out == Value::Bool(b),
            CanonicalPrimitiveType::S32 => v matches CanonicalValue::S32(n) && out == Value::Int(
                n as i64,
            ),
            CanonicalPrimitiveType::S64 | CanonicalPrimitiveType::S16
            | CanonicalPrimitiveType::S8 => match v {
                CanonicalValue::S64(n) => out == Value::Int(n),
                CanonicalValue::S32(n) => out == Value::Int(n as i64),
                _ => false,
            },
            CanonicalPrimitiveType::U32 => v matches CanonicalValue::U32(n) && out == Value::Int(
                n as i64,
            ),
            CanonicalPrimitiveType::U64 | CanonicalPrimitiveType::U16
            | CanonicalPrimitiveType::U8 => match v {
                CanonicalValue::U64(n) => out == Value::Int(n as i64),
                CanonicalValue::U32(n) => out == Value::Int(n as i64),
                _ => false,
            },
            CanonicalPrimitiveType::String | CanonicalPrimitiveType::Char => v matches CanonicalValue::String(
                s,
            ) && out == Value::String(s),
            CanonicalPrimitiveType::Float32 | CanonicalPrimitiveType::Float64 => false,
        },
        CanonicalTypeRef::List(inner) => v matches CanonicalValue::List(items) && out matches Value::List(
            outs,
        ) && outs@.len() == items@.len() && forall|i: int|
            0 <= i < items@.len() ==> lifts_to(
                reg,
                skill,
                *inner,
                #[trigger] items@[i],
                reg.alias_budget(skill),
                outs@[i],
            ),
        CanonicalTypeRef::Option(inner) => if v is Null {
            out is Null
        } else {
            lifts_to(reg, skill, *inner, v, steps, out)
        },
        CanonicalTypeRef::Tuple(tys) => v matches CanonicalValue::Tuple(values) && out matches Value::List(
            outs,
        ) && outs@.len() == values@.len() && values@.len() == tys@.len() && forall|i: int|
            0 <= i < values@.len() ==> lifts_to(
                reg,
                skill,
                tys@[i],
                #[trigger] values@[i],
                reg.alias_budget(skill),
                outs@[i],
            ),
        CanonicalTypeRef::Result { .. } => false,
        CanonicalTypeRef::Named(name) => match reg.type_in_skill(skill, name@) {
            None => false,
            Some(def) => match def.kind {
                CanonicalTypeDefKind::Alias(t) => steps > 0 && lifts_to(
                    reg,
                    skill,
                    t,
                    v,
                    (steps - 1) as nat,
                    out,
                ),
                CanonicalTypeDefKind::Enum(_) => v matches CanonicalValue::EnumCase(s) && out
                    == Value::String(s),
                CanonicalTypeDefKind::Record(rec) => v matches CanonicalValue::Record(d) && out matches Value::Dict(
                    fs,
                ) && sorted_keys(fs@) && (forall|k: Seq<char>| #[trigger]
                    has_key(fs@, k) == exists|i: int|
                        0 <= i < rec.fields@.len() && python_name(
                            (#[trigger] rec.fields@[i]).name@,
                        ) == k) && forall|i: int|
                    0 <= i < rec.fields@.len() && last_python_before(
                        rec.fields@,
                        i,
                        rec.fields@.len() as int,
                    ) ==> (lookup(fs@, python_name((#[trigger] rec.fields@[i]).name@)) matches Some(
                        x,
                    ) && lookup(d@, rec.fields@[i].name@) matches Some(y) && {
                        proof {
                            lemma_lookup_is_entry(d@, rec.fields@[i].name@);
                            let j = choose|j: int| 0 <= j < d@.len() && (#[trigger] d@[j]).1 == y;
                            assert(decreases_to!(d@ => d@[j]));
                        }
                        lifts_to(reg, skill, rec.fields@[i].ty, y, reg.alias_budget(skill), x)
                    }),
                _ => false,
            },
        },
    }
}

proof fn lemma_lift_items_prefix(
    reg: ActionRegistry,
    skill: Seq<char>,
    inner: CanonicalTypeRef,
    items: Seq<CanonicalValue>,
    n: int,
)
    requires
        0 <= n <= items.len(),
        lift_items_failure(reg, skill, inner, items.take(n)) is Some,
    ensures
        lift_items_failure(reg, skill, inner, items) == lift_items_failure(
            reg,
            skill,
            inner,
            items.take(n),
        ),
    decreases items.len() - n,
{
    if n < items.len() {
        assert(items.take(n + 1).drop_last() =~= items.take(n));
        lemma_lift_items_prefix(reg, skill, inner, items, n + 1);
    } else {
        assert(items.take(n) =~= items);
    }
}

proof fn lemma_lift_tuple_prefix(
    reg: ActionRegistry,
    skill: Seq<char>,
    tys: Seq<CanonicalTypeRef>,
    values: Seq<CanonicalValue>,
    n: int,
)
    requires
        0 <= n <= values.len(),
        values.len() == tys.len(),
        lift_tuple_failure(reg, skill, tys.take(n), values.take(n)) is Some,
    ensures
        lift_tuple_failure(reg, skill, tys, values) == lift_tuple_failure(
            reg,
            skill,
            tys.take(n),
            values.take(n),
        ),
    decreases values.len() - n,
{
    if n < values.len() {
        assert(values.take(n + 1).drop_last() =~= values.take(n));
        assert(tys.take(n + 1).drop_last() =~= tys.take(n));
        lemma_lift_tuple_prefix(reg, skill, tys, values, n + 1);
    } else {
        assert(values.take(n) =~= values);
        assert(tys.take(n) =~= tys);
    }
}

proof fn lemma_lift_record_prefix(
    reg: ActionRegistry,
    skill: Seq<char>,
    name: Seq<char>,
    fields: Seq<CanonicalField>,
    d: Seq<(String, CanonicalValue)>,
    n: int,
)
    requires
        0 <= n <= fields.len(),
        lift_record_failure(reg, skill, name, fields.take(n), d) is Some,
    ensures
        lift_record_failure(reg, skill, name, fields, d) == lift_record_failure(
            reg,
            skill,
            name,
            fields.take(n),
            d,
        ),
    decreases fields.len() - n,
{
    if n < fields.len() {
        assert(fields.take(n + 1).drop_last() =~= fields.take(n));
        lemma_lift_record_prefix(reg, skill, name, fields, d, n + 1);
    } else {
        assert(fields.take(n) =~= fields);
    }
}

/// The lifted record entries `fs` hold, for each of the first `n` fields
/// whose Python name no later one of them takes, the lifting of its
/// canonical entry.
pub open spec fn record_prefix_lifted(
    reg: ActionRegistry,
    skill: Seq<char>,
    fields: Seq<CanonicalField>,
    d: Seq<(String, CanonicalValue)>,
    fs: Seq<(String, Value)>,
    n: int,
) -> bool {
    forall|j: int|
        0 <= j < n && last_python_before(fields, j, n) ==> (lookup(
            fs,
            python_name((#[trigger] fields[j]).name@),
        ) matches Some(x) && lookup(d, fields[j].name@) matches Some(y) && lifts_to(
            reg,
            skill,
            fields[j].ty,
            y,
            reg.alias_budget(skill),
            x,
        ))
}

/// Lifts a canonical value of type `ty` of skill `skill_name` to the model
/// surface.
fn lift_model_value(
    registry: &ActionRegistry,
    skill_name: &str,
    ty: &CanonicalTypeRef,
    value: &CanonicalValue,
    steps: usize,
) -> (r: Result<Value, BindingError>)
    ensures
        match r {
            Ok(out) => lift_failure(*registry, skill_name@, *ty, *value, steps as nat) is None
                && lifts_to(*registry, skill_name@, *ty, *value, steps as nat, out),
            Err(e) => lift_failure(*registry, skill_name@, *ty, *value, steps as nat) == Some(
                e.message()@,
            ),
        },
    decreases *value, steps, *ty,
{
    match ty {
        CanonicalTypeRef::Primitive(p) => match p {
            CanonicalPrimitiveType::Bool => match value {
                CanonicalValue::Bool(b) => Ok(Value::Bool(*b)),
                _ => fail("expected canonical bool"),
            },
            CanonicalPrimitiveType::S32 => match value {
                CanonicalValue::S32(n) => Ok(Value::Int(*n as i64)),
                _ => fail("expected canonical s32"),
            },
            CanonicalPrimitiveType::S64 | CanonicalPrimitiveType::S16
            | CanonicalPrimitiveType::S8 => match value {
                CanonicalValue::S64(n) => Ok(Value::Int(*n)),
                CanonicalValue::S32(n) => Ok(Value::Int(*n as i64)),
                _ => fail("expected canonical signed integer"),
            },
            CanonicalPrimitiveType::U32 => match value {
                CanonicalValue::U32(n) => Ok(Value::Int(*n as i64)),
                _ => fail("expected canonical u32"),
            },
            CanonicalPrimitiveType::U64 | CanonicalPrimitiveType::U16
            | CanonicalPrimitiveType::U8 => match value {
                CanonicalValue::U64(n) => if *n <= 9223372036854775807u64 {
                    Ok(Value::Int(*n as i64))
                } else {
                    fail("unsigned integer does not fit model value surface")
                },
                CanonicalValue::U32(n) => Ok(Value::Int(*n as i64)),
                _ => fail("expected canonical unsigned integer"),
            },
            CanonicalPrimitiveType::String | CanonicalPrimitiveType::Char => match value {
                CanonicalValue::String(s) => Ok(Value::String(s.clone())),
                _ => fail("expected canonical string"),
            },
            CanonicalPrimitiveType::Float32 | CanonicalPrimitiveType::Float64 => fail(
                "float values are not supported by the model value surface yet",
            ),
        },
        CanonicalTypeRef::List(inner) => match value {
            CanonicalValue::List(items) => {
                let budget = registry.alias_budget_of(skill_name);
                let mut outs: Vec<Value> = Vec::new();
                assert(items@.take(0) =~= Seq::<CanonicalValue>::empty());
                for i in 0..items.len()
                    invariant
                        *value == CanonicalValue::List(*items),
                        *ty == CanonicalTypeRef::List(*inner),
                        budget == registry.alias_budget(skill_name@),
                        outs@.len() == i,
                        lift_items_failure(*registry, skill_name@, **inner, items@.take(i as int))
                            is None,
                        forall|j: int|
                            0 <= j < i ==> lifts_to(
                                *registry,
                                skill_name@,
                                **inner,
                                #[trigger] items@[j],
                                budget as nat,
                                outs@[j],
                            ),
                {
                    assert(items@.take(i + 1).drop_last() =~= items@.take(i as int));
                    proof {
                        assert(decreases_to!(*value => (*value)->List_0));
                    }
                    match lift_model_value(registry, skill_name, inner, &items[i], budget) {
                        Ok(x) => {
                            outs.push(x);
                        },
                        Err(e) => {
                            proof {
                                lemma_lift_items_prefix(*registry, skill_name@, **inner, items@, i + 1);
                            }
                            return Err(e);
                        },
                    }
                }
                assert(items@.take(items@.len() as int) =~= items@);
                Ok(Value::List(outs))
            },
            _ => fail("expected canonical list"),
        },
        CanonicalTypeRef::Option(inner) => match value {
            CanonicalValue::Null => Ok(Value::Null),
            _ => lift_model_value(registry, skill_name, inner, value, steps),
        },
        CanonicalTypeRef::Tuple(tys) => match value {
            CanonicalValue::Tuple(values) => {
                if values.len() != tys.len() {
                    return fail("expected canonical tuple");
                }
                let budget = registry.alias_budget_of(skill_name);
                let mut outs: Vec<Value> = Vec::new();
                assert(values@.take(0) =~= Seq::<CanonicalValue>::empty());
                for i in 0..values.len()
                    invariant
                        *value == CanonicalValue::Tuple(*values),
                        *ty == CanonicalTypeRef::Tuple(*tys),
                        values@.len() == tys@.len(),
                        budget == registry.alias_budget(skill_name@),
                        outs@.len() == i,
                        lift_tuple_failure(
                            *registry,
                            skill_name@,
                            tys@.take(i as int),
                            values@.take(i as int),
                        ) is None,
                        forall|j: int|
                            0 <= j < i ==> lifts_to(
                                *registry,
                                skill_name@,
                                tys@[j],
                                #[trigger] values@[j],
                                budget as nat,
                                outs@[j],
                            ),
                {
                    assert(values@.take(i + 1).drop_last() =~= values@.take(i as int));
                    assert(tys@.take(i + 1).drop_last() =~= tys@.take(i as int));
                    proof {
                        assert(decreases_to!(*value => (*value)->Tuple_0));
                    }
                    match lift_model_value(registry, skill_name, &tys[i], &values[i], budget) {
                        Ok(x) => {
                            outs.push(x);
                        },
                        Err(e) => {
                            proof {
                                lemma_lift_tuple_prefix(*registry, skill_name@, tys@, values@, i + 1);
                            }
                            return Err(e);
                        },
                    }
                }
                assert(values@.take(values@.len() as int) =~= values@);
                assert(tys@.take(tys@.len() as int) =~= tys@);
                Ok(Value::List(outs))
            },
            _ => fail("expected canonical tuple"),
        },
        CanonicalTypeRef::Result { .. } => fail("canonical result values are not supported yet"),
        CanonicalTypeRef::Named(name) => lift_named_model_value(
            registry,
            skill_name,
            name.as_str(),
            ty,
            value,
            steps,
        ),
    }
}

/// Lifts a canonical value of the named type `name` of skill `skill_name`.
fn lift_named_model_value(
    registry: &ActionRegistry,
    skill_name: &str,
    name: &str,
    ty: &CanonicalTypeRef,
    value: &CanonicalValue,
    steps: usize,
) -> (r: Result<Value, BindingError>)
    requires
        *ty matches CanonicalTypeRef::Named(n) && n@ == name@,
    ensures
        match r {
            Ok(out) => lift_failure(*registry, skill_name@, *ty, *value, steps as nat) is None
                && lifts_to(*registry, skill_name@, *ty, *value, steps as nat, out),
            Err(e) => lift_failure(*registry, skill_name@, *ty, *value, steps as nat) == Some(
                e.message()@,
            ),
        },
    decreases *value, steps, *ty, 0nat,
{
    let def = match registry.type_by_name_in_skill(skill_name, name) {
        Some(d) => d,
        None => {
            return Err(
                BindingError::new(labelled_message("unknown canonical type '", skill_name, name, "'")),
            );
        },
    };
    match &def.kind {
        CanonicalTypeDefKind::Alias(alias) => {
            if steps == 0 {
                return Err(
                    BindingError::new(labelled_message("cyclic type alias '", skill_name, name, "'")),
                );
            }
            lift_model_value(registry, skill_name, alias, value, steps - 1)
        },
        CanonicalTypeDefKind::Enum(_) => match value {
            CanonicalValue::EnumCase(s) => Ok(Value::String(s.clone())),
            _ => Err(
                BindingError::new(
                    labelled_message("expected canonical enum value for '", skill_name, name, "'"),
                ),
            ),
        },
        CanonicalTypeDefKind::Record(record) => match value {
            CanonicalValue::Record(entries) => {
                let budget = registry.alias_budget_of(skill_name);
                let mut lifted: Vec<(String, Value)> = Vec::new();
                let ghost fields = record.fields@;
                assert(fields.take(0) =~= Seq::<CanonicalField>::empty());
                for i in 0..record.fields.len()
                    invariant
                        *value == CanonicalValue::Record(*entries),
                        *ty matches CanonicalTypeRef::Named(nn) && nn@ == name@,
                        registry.type_in_skill(skill_name@, name@) == Some(*def),
                        def.kind == CanonicalTypeDefKind::Record(*record),
                        fields == record.fields@,
                        budget == registry.alias_budget(skill_name@),
                        sorted_keys(lifted@),
                        lift_record_failure(
                            *registry,
                            skill_name@,
                            name@,
                            fields.take(i as int),
                            entries@,
                        ) is None,
                        forall|k: Seq<char>| #[trigger]
                            has_key(lifted@, k) == exists|j: int|
                                0 <= j < i && python_name((#[trigger] fields[j]).name@) == k,
                        record_prefix_lifted(
                            *registry,
                            skill_name@,
                            fields,
                            entries@,
                            lifted@,
                            i as int,
                        ),
                {
                    let field = &record.fields[i];
                    assert(fields.take(i + 1).drop_last() =~= fields.take(i as int));
                    let field_value = match assoc_get_unsorted(entries, field.name.as_str()) {
                        Some(v) => v,
                        None => {
                            let mut m = String::new();
                            string_push_str(&mut m, "missing canonical field '");
                            string_push_str(&mut m, field.name.as_str());
                            let rest = labelled_message("' for record '", skill_name, name, "'");
                            string_push_str(&mut m, rest.as_str());
                            proof {
                                assert(m@ =~= "missing canonical field '"@ + field.name@
                                    + "' for record '"@ + type_label(skill_name@, name@) + "'"@);
                                lemma_lift_record_prefix(
                                    *registry,
                                    skill_name@,
                                    name@,
                                    fields,
                                    entries@,
                                    i + 1,
                                );
                            }
                            return Err(BindingError::new(m));
                        },
                    };
                    proof {
                        lemma_lookup_is_entry(entries@, field.name@);
                        let j = choose|j: int|
                            0 <= j < entries@.len() && (#[trigger] entries@[j]).1 == *field_value;
                        assert(decreases_to!(*value => (*value)->Record_0));
                        assert(decreases_to!(entries@ => entries@[j]));
                    }
                    match lift_model_value(registry, skill_name, &field.ty, field_value, budget) {
                        Ok(x) => {
                            let ghost l0 = lifted@;
                            let key = python_function_name(field.name.as_str());
                            assoc_insert(&mut lifted, key, x);
                            assert(record_prefix_lifted(
                                *registry,
                                skill_name@,
                                fields,
                                entries@,
                                lifted@,
                                i + 1,
                            )) by {
                                assert forall|j: int|
                                    0 <= j < i + 1 && last_python_before(fields, j, i + 1) implies (
                                lookup(lifted@, python_name((#[trigger] fields[j]).name@)) matches Some(
                                    xx,
                                ) && lookup(entries@, fields[j].name@) matches Some(y) && lifts_to(
                                    *registry,
                                    skill_name@,
                                    fields[j].ty,
                                    y,
                                    registry.alias_budget(skill_name@),
                                    xx,
                                )) by {
                                    if j < i {
                                        assert(python_name(fields[i as int].name@) != python_name(
                                            fields[j].name@,
                                        ));
                                        assert(last_python_before(fields, j, i as int));
                                    }
                                }
                            }
                            assert forall|k: Seq<char>| #[trigger]
                                has_key(lifted@, k) == exists|j: int|
                                    0 <= j < i + 1 && python_name((#[trigger] fields[j]).name@)
                                        == k by {
                                if k == python_name(field.name@) {
                                    assert(python_name(fields[i as int].name@) == k);
                                }
                                if has_key(l0, k) {
                                    let j = choose|j: int|
                                        0 <= j < i && python_name((#[trigger] fields[j]).name@) == k;
                                }
                            }
                        },
                        Err(e) => {
                            proof {
                                lemma_lift_record_prefix(
                                    *registry,
                                    skill_name@,
                                    name@,
                                    fields,
                                    entries@,
                                    i + 1,
                                );
                            }
                            return Err(e);
                        },
                    }
                }
                assert(fields.take(fields.len() as int) =~= fields);
                Ok(Value::Dict(lifted))
            },
            _ => Err(
                BindingError::new(
                    labelled_message("expected canonical record for '", skill_name, name, "'"),
                ),
            ),
        },
        CanonicalTypeDefKind::Variant(_) => fail("variant model values are not supported yet"),
        CanonicalTypeDefKind::Flags(_) => fail("flag model values are not supported yet"),
    }
}

/// A call of an action as the model makes it: a function name and arguments
/// by Python parameter name.
#[derive(Debug, Clone, PartialEq, Eq)]
pub struct ModelInvocation {
    pub function_name: String,
    pub arguments: Vec<(String, Value)>,
}

/// The first failure among lowering the arguments `args` of a call of
/// `function` for the parameters `params`: a missing argument or one that
/// cannot be lowered.
pub open spec fn arguments_failure(
    reg: ActionRegistry,
    skill: Seq<char>,
    params: Seq<ActionParam>,
    args: Seq<(String, Value)>,
    function: Seq<char>,
) -> Option<Seq<char>>
    decreases params.len(),
{
    if params.len() == 0 {
        None
    } else {
        match arguments_failure(reg, skill, params.drop_last(), args, function) {
            Some(e) => Some(e),
            None => {
                let p = params.last();
                match lookup(args, p.model_name@) {
                    None => Some(
                        "missing argument '"@ + p.model_name@ + "' for action '"@ + function + "'"@,
                    ),
                    Some(x) => lower_failure(reg, skill, p.ty, x, reg.alias_budget(skill)),
                }
            },
        }
    }
}

/// No parameter from `i + 1` up to `n` has the canonical name of parameter `i`.
pub open spec fn last_param_before(params: Seq<ActionParam>, i: int, n: int) -> bool {
    forall|j: int| i < j < n ==> (#[trigger] params[j]).canonical_name@ != params[i].canonical_name@
}

/// The canonical arguments `out` hold, under the canonical name of each of
/// the first `n` parameters that no later one of them renames, the lowering
/// of the model argument of that parameter.
pub open spec fn arguments_lowered(
    reg: ActionRegistry,
    skill: Seq<char>,
    params: Seq<ActionParam>,
    args: Seq<(String, Value)>,
    out: Seq<(String, CanonicalValue)>,
    n: int,
) -> bool {
    &&& sorted_keys(out)
    &&& forall|k: Seq<char>| #[trigger]
        has_key(out, k) == exists|j: int| 0 <= j < n && (#[trigger] params[j]).canonical_name@ == k
    &&& forall|j: int|
        0 <= j < n && last_param_before(params, j, n) ==> (lookup(
            out,
            (#[trigger] params[j]).canonical_name@,
        ) matches Some(x) && lookup(args, params[j].model_name@) matches Some(y) && lowers_to(
            reg,
            skill,
            params[j].ty,
            y,
            reg.alias_budget(skill),
            x,
        ))
}

proof fn lemma_arguments_prefix(
    reg: ActionRegistry,
    skill: Seq<char>,
    params: Seq<ActionParam>,
    args: Seq<(String, Value)>,
    function: Seq<char>,
    n: int,
)
    requires
        0 <= n <= params.len(),
        arguments_failure(reg, skill, params.take(n), args, function) is Some,
    ensures
        arguments_failure(reg, skill, params, args, function) == arguments_failure(
            reg,
            skill,
            params.take(n),
            args,
            function,
        ),
    decreases params.len() - n,
{
    if n < params.len() {
        assert(params.take(n + 1).drop_last() =~= params.take(n));
        lemma_arguments_prefix(reg, skill, params, args, function, n + 1);
    } else {
        assert(params.take(n) =~= params);
    }
}

/// Why a canonical result `v` of an action with result description
/// `result` cannot be lifted to the model surface, if it cannot.
pub open spec fn result_failure(
    reg: ActionRegistry,
    skill: Seq<char>,
    result: CanonicalFunctionResult,
    v: CanonicalValue,
) -> Option<Seq<char>> {
    match result {
        CanonicalFunctionResult::Nothing => None,
        CanonicalFunctionResult::Scalar(ty) => lift_failure(reg, skill, ty, v, reg.alias_budget(skill)),
        CanonicalFunctionResult::Named(params) => if params@.len() == 1 {
            lift_failure(reg, skill, params@[0].ty, v, reg.alias_budget(skill))
        } else {
            match v {
                CanonicalValue::Tuple(items) => if items@.len() == params@.len() {
                    lift_tuple_failure(reg, skill, param_types(params@), items@)
                } else {
                    Some("expected tuple result"@)
                },
                _ => Some("expected tuple result"@),
            }
        },
    }
}

/// The types of a list of parameters.
pub open spec fn param_types(params: Seq<CanonicalParam>) -> Seq<CanonicalTypeRef> {
    params.map_values(|p: CanonicalParam| p.ty)
}

/// `out` is the lifting of result `v` (when `result_failure` finds none).
pub open spec fn result_lifts_to(
    reg: ActionRegistry,
    skill: Seq<char>,
    result: CanonicalFunctionResult,
    v: CanonicalValue,
    out: Value,
) -> bool {
    match result {
        CanonicalFunctionResult::Nothing => out is Null,
        CanonicalFunctionResult::Scalar(ty) => lifts_to(reg, skill, ty, v, reg.alias_budget(skill), out),
        CanonicalFunctionResult::Named(params) => if params@.len() == 1 {
            lifts_to(reg, skill, params@[0].ty, v, reg.alias_budget(skill), out)
        } else {
            v matches CanonicalValue::Tuple(items) && out matches Value::List(outs) && outs@.len()
                == items@.len() && items@.len() == params@.len() && forall|i: int|
                0 <= i < items@.len() ==> lifts_to(
                    reg,
                    skill,
                    params@[i].ty,
                    #[trigger] items@[i],
                    reg.alias_budget(skill),
                    outs@[i],
                )
        },
    }
}

/// The message for a model name no action answers to.
pub open spec fn unknown_model_action_message(name: Seq<char>) -> Seq<char> {
    "unknown model action '"@ + name + "'"@
}

/// The message for a canonical id no action has.
pub open spec fn unknown_action_message(id: Seq<char>) -> Seq<char> {
    "unknown action '"@ + id + "'"@
}

pub(crate) fn quoted_message(prefix: &str, name: &str) -> (r: String)
    ensures
        r@ == prefix@ + name@ + "'"@,
{
    let mut m = String::new();
    string_push_str(&mut m, prefix);
    string_push_str(&mut m, name);
    string_push_str(&mut m, "'");
    assert(m@ =~= prefix@ + name@ + "'"@);
    m
}

impl ModelAdapter {
    /// Converts a model call into a canonical invocation: the model name is
    /// resolved to an action, and each of its parameters takes the argument
    /// under its Python name, lowered to the parameter's type.
    #[verifier::loop_isolation(false)]
    #[verifier::spinoff_prover]
    #[verifier::rlimit(40)]
    pub fn model_invocation_to_canonical_invocation(&self, invocation: &ModelInvocation) -> (r:
        Result<CanonicalInvocation, BindingError>)
        requires
            sorted_keys(invocation.arguments@),
            forall|i: int|
                0 <= i < invocation.arguments@.len() ==> (#[trigger] invocation.arguments@[i]).1.wf(),
        ensures
            match self.registry().resolution(invocation.function_name@) {
                None => r matches Err(e) && e.message()@ == unknown_model_action_message(
                    invocation.function_name@,
                ),
                Some(d) => match r {
                    Ok(ci) => arguments_failure(
                        self.registry(),
                        d.skill.skill_name@,
                        d.params@,
                        invocation.arguments@,
                        invocation.function_name@,
                    ) is None && ci.action_name.0 == d.action_name && arguments_lowered(
                        self.registry(),
                        d.skill.skill_name@,
                        d.params@,
                        invocation.arguments@,
                        ci.arguments@,
                        d.params@.len() as int,
                    ),
                    Err(e) => arguments_failure(
                        self.registry(),
                        d.skill.skill_name@,
                        d.params@,
                        invocation.arguments@,
                        invocation.function_name@,
                    ) == Some(e.message()@),
                },
            },
    {
        let registry: &ActionRegistry = &self.registry;
        let action = match registry.resolve_model_action(invocation.function_name.as_str()) {
            Some(a) => a,
            None => {
                return Err(
                    BindingError::new(
                        quoted_message("unknown model action '", invocation.function_name.as_str()),
                    ),
                );
            },
        };
        let skill_name = action.skill.skill_name.as_str();
        let budget = registry.alias_budget_of(skill_name);
        let ghost params = action.params@;
        let ghost args = invocation.arguments@;
        let mut arguments: Vec<(String, CanonicalValue)> = Vec::new();
        assert(params.take(0) =~= Seq::<ActionParam>::empty());
        for i in 0..action.params.len()
            invariant
                params == action.params@,
                args == invocation.arguments@,
                budget == registry.alias_budget(skill_name@),
                arguments_failure(
                    *registry,
                    skill_name@,
                    params.take(i as int),
                    args,
                    invocation.function_name@,
                ) is None,
                arguments_lowered(*registry, skill_name@, params, args, arguments@, i as int),
        {
            let param = &action.params[i];
            assert(params.take(i + 1).drop_last() =~= params.take(i as int));
            let model_value = match assoc_get_unsorted(&invocation.arguments, param.model_name.as_str()) {
                Some(v) => v,
                None => {
                    let mut m = String::new();
                    string_push_str(&mut m, "missing argument '");
                    string_push_str(&mut m, param.model_name.as_str());
                    let rest = quoted_message("' for action '", invocation.function_name.as_str());
                    string_push_str(&mut m, rest.as_str());
                    proof {
                        assert(m@ =~= "missing argument '"@ + param.model_name@ + "' for action '"@
                            + invocation.function_name@ + "'"@);
                        lemma_arguments_prefix(
                            *registry,
                            skill_name@,
                            params,
                            args,
                            invocation.function_name@,
                            i + 1,
                        );
                    }
                    return Err(BindingError::new(m));
                },
            };
            match lower_model_value(registry, skill_name, &param.ty, model_value, budget) {
                Ok(x) => {
                    let ghost a0 = arguments@;
                    assoc_insert(&mut arguments, param.canonical_name.clone(), x);
                    assert forall|j: int|
                        0 <= j < i + 1 && last_param_before(params, j, i + 1) implies (lookup(
                        arguments@,
                        (#[trigger] params[j]).canonical_name@,
                    ) matches Some(xx) && lookup(args, params[j].model_name@) matches Some(y)
                        && lowers_to(
                        *registry,
                        skill_name@,
                        params[j].ty,
                        y,
                        registry.alias_budget(skill_name@),
                        xx,
                    )) by {
                        if j < i {
                            assert(params[i as int].canonical_name@ != params[j].canonical_name@);
                            assert(last_param_before(params, j, i as int));
                        }
                    }
                    assert forall|k: Seq<char>| #[trigger]
                        has_key(arguments@, k) == exists|j: int|
                            0 <= j < i + 1 && (#[trigger] params[j]).canonical_name@ == k by {
                        if k == param.canonical_name@ {
                            assert(params[i as int].canonical_name@ == k);
                        }
                        if has_key(a0, k) {
                            let j = choose|j: int|
                                0 <= j < i && (#[trigger] params[j]).canonical_name@ == k;
                        }
                    }
                },
                Err(e) => {
                    proof {
                        lemma_arguments_prefix(
                            *registry,
                            skill_name@,
                            params,
                            args,
                            invocation.function_name@,
                            i + 1,
                        );
                    }
                    return Err(e);
                },
            }
        }
        assert(params.take(params.len() as int) =~= params);
        Ok(
            CanonicalInvocation {
                action_name: ActionName::new(action.action_name.clone()),
                arguments,
            },
        )
    }

    /// Converts the canonical result of the action with canonical id
    /// `action_name` to the model surface.
    pub fn canonical_result_to_model_value(&self, action_name: &str, value: &CanonicalValue) -> (r:
        Result<Value, BindingError>)
        requires
            value.wf(),
        ensures
            match self.registry().action_by_id(action_name@) {
                None => r matches Err(e) && e.message()@ == unknown_action_message(action_name@),
                Some(d) => match r {
                    Ok(out) => result_failure(self.registry(), d.skill.skill_name@, d.result, *value)
                        is None && result_lifts_to(
                        self.registry(),
                        d.skill.skill_name@,
                        d.result,
                        *value,
                        out,
                    ),
                    Err(e) => result_failure(self.registry(), d.skill.skill_name@, d.result, *value)
                        == Some(e.message()@),
                },
            },
    {
        let registry: &ActionRegistry = &self.registry;
        let action = match registry.resolve_canonical_action(action_name) {
            Some(a) => a,
            None => {
                return Err(BindingError::new(quoted_message("unknown action '", action_name)));
            },
        };
        lift_model_result(registry, action.skill.skill_name.as_str(), &action.result, value)
    }
}

/// Lifts the result of an action to the model surface: nothing becomes
/// `None`, a single result its lifting, several results a list.
#[verifier::loop_isolation(false)]
fn lift_model_result(
    registry: &ActionRegistry,
    skill_name: &str,
    result: &CanonicalFunctionResult,
    value: &CanonicalValue,
) -> (r: Result<Value, BindingError>)
    ensures
        match r {
            Ok(out) => result_failure(*registry, skill_name@, *result, *value) is None
                && result_lifts_to(*registry, skill_name@, *result, *value, out),
            Err(e) => result_failure(*registry, skill_name@, *result, *value) == Some(e.message()@),
        },
{
    let budget = registry.alias_budget_of(skill_name);
    match result {
        CanonicalFunctionResult::Nothing => Ok(Value::Null),
        CanonicalFunctionResult::Scalar(ty) => lift_model_value(registry, skill_name, ty, value, budget),
        CanonicalFunctionResult::Named(params) => {
            if params.len() == 1 {
                lift_model_value(registry, skill_name, &params[0].ty, value, budget)
            } else {
                match value {
                    CanonicalValue::Tuple(items) => {
                        if items.len() != params.len() {
                            return fail("expected tuple result");
                        }
                        let ghost tys = param_types(params@);
                        let mut outs: Vec<Value> = Vec::new();
                        assert(items@.take(0) =~= Seq::<CanonicalValue>::empty());
                        assert(tys.take(0) =~= Seq::<CanonicalTypeRef>::empty());
                        for i in 0..items.len()
                            invariant
                                items@.len() == params@.len(),
                                tys == param_types(params@),
                                budget == registry.alias_budget(skill_name@),
                                outs@.len() == i,
                                lift_tuple_failure(
                                    *registry,
                                    skill_name@,
                                    tys.take(i as int),
                                    items@.take(i as int),
                                ) is None,
                                forall|j: int|
                                    0 <= j < i ==> lifts_to(
                                        *registry,
                                        skill_name@,
                                        params@[j].ty,
                                        #[trigger] items@[j],
                                        budget as nat,
                                        outs@[j],
                                    ),
                        {
                            assert(items@.take(i + 1).drop_last() =~= items@.take(i as int));
                            assert(tys.take(i + 1).drop_last() =~= tys.take(i as int));
                            assert(tys[i as int] == params@[i as int].ty);
                            match lift_model_value(registry, skill_name, &params[i].ty, &items[i], budget) {
                                Ok(x) => {
                                    outs.push(x);
                                },
                                Err(e) => {
                                    proof {
                                        lemma_lift_tuple_prefix(
                                            *registry,
                                            skill_name@,
                                            tys,
                                            items@,
                                            i + 1,
                                        );
                                    }
                                    return Err(e);
                                },
                            }
                        }
                        assert(items@.take(items@.len() as int) =~= items@);
                        assert(tys.take(tys.len() as int) =~= tys);
                        Ok(Value::List(outs))
                    },
                    _ => fail("expected tuple result"),
                }
            }
        },
    }
}

} // verus!