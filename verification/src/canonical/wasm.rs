//! Conversions between canonical values and component (wasm) values, driven
//! by the types in an action registry.
use std::sync::Arc;
use vstd::prelude::*;

use crate::assoc::{assoc_get_unsorted, assoc_insert, has_key, lookup, sorted_keys};
use crate::canonical::adapters::{
    cyclic_alias_message, fail, labelled_message, last_before, last_of_name, lemma_lookup_is_entry,
    param_types,
    quoted_message, type_label, unknown_type_message,
};
use crate::canonical::ir::{
    CanonicalField, CanonicalFunctionResult, CanonicalPrimitiveType, CanonicalTypeDefKind,
    CanonicalTypeRef,
};
use crate::canonical::registry::{ActionLocator, ActionParam, ActionRegistry, BindingError};
use crate::domain::action::CanonicalInvocation;
use crate::domain::value::CanonicalValue;
use crate::text::{decimal, decimal_text, string_push_str};

verus! {

/// A component-model value as a component call takes or returns it. Values
/// of kinds these conversions never read (floats, characters, variants,
/// flags, results, resources) are `Unsupported`.
#[derive(Debug, PartialEq, Eq)]
pub enum WasmValue {
    Bool(bool),
    S32(i32),
    S64(i64),
    U32(u32),
    U64(u64),
    String(String),
    List(Vec<WasmValue>),
    Option(Option<Box<WasmValue>>),
    Tuple(Vec<WasmValue>),
    Enum(String),
    Record(Vec<(String, WasmValue)>),
    Unsupported,
}

/// A call of an exported component function: where the action lives, the
/// export to call and the arguments in parameter order.
#[derive(Debug)]
pub struct WasmtimeInvocation {
    pub locator: ActionLocator,
    pub export_name: String,
    pub arguments: Vec<WasmValue>,
}

/// Converts canonical invocations into component calls and component results
/// back.
#[derive(Debug)]
pub struct WasmtimeAdapter {
    registry: Arc<ActionRegistry>,
}

impl WasmtimeAdapter {
    /// The registry this adapter converts with.
    pub closed spec fn registry(self) -> ActionRegistry {
        *self.registry
    }

    /// An adapter over a registry.
    pub fn new(registry: Arc<ActionRegistry>) -> (r: Self)
        ensures
            r.registry() == *registry,
    {
        WasmtimeAdapter { registry }
    }
}

/// The value of the last entry of `s` named `k` (as collecting the entries
/// into a map keeps it).
pub open spec fn last_lookup<V>(s: Seq<(String, V)>, k: Seq<char>) -> Option<V>
    decreases s.len(),
{
    if s.len() == 0 {
        None
    } else if s.last().0@ == k {
        Some(s.last().1)
    } else {
        last_lookup(s.drop_last(), k)
    }
}

/// A value found by `last_lookup` is one of the entries' values.
pub proof fn lemma_last_lookup_is_entry<V>(s: Seq<(String, V)>, k: Seq<char>)
    ensures
        last_lookup(s, k) matches Some(x) ==> exists|i: int|
            0 <= i < s.len() && (#[trigger] s[i]).1 == x,
    decreases s.len(),
{
    if s.len() > 0 && s.last().0@ != k {
        lemma_last_lookup_is_entry(s.drop_last(), k);
        if let Some(x) = last_lookup(s, k) {
            let i = choose|i: int|
                0 <= i < s.drop_last().len() && (#[trigger] s.drop_last()[i]).1 == x;
            assert(s[i] == s.drop_last()[i]);
        }
    }
    if s.len() > 0 && s.last().0@ == k {
        assert(s[s.len() - 1] == s.last());
    }
}

/// Why the canonical value `v` cannot be converted to a component value of
/// type `ty` of skill `skill`, if it cannot; `steps` is how many more alias
/// hops may be taken before a chain of aliases counts as cyclic.
pub open spec fn to_wasm_failure(
    reg: ActionRegistry,
    skill: Seq<char>,
    ty: CanonicalTypeRef,
    v: CanonicalValue,
    steps: nat,
) -> Option<Seq<char>>
    decreases v, steps, ty,
{
    match ty {
        CanonicalTypeRef::Primitive(p) => match p {
            CanonicalPrimitiveType::Bool => if v is Bool {
                None
            } else {
                Some("expected canonical bool"@)
            },
            CanonicalPrimitiveType::S32 => if v is S32 {
                None
            } else {
                Some("expected canonical s32"@)
            },
            CanonicalPrimitiveType::S64 | CanonicalPrimitiveType::S16
            | CanonicalPrimitiveType::S8 => if v is S64 || v is S32 {
                None
            } else {
                Some("expected canonical signed integer"@)
            },
            CanonicalPrimitiveType::U32 => if v is U32 {
                None
            } else {
                Some("expected canonical u32"@)
            },
            CanonicalPrimitiveType::U64 | CanonicalPrimitiveType::U16
            | CanonicalPrimitiveType::U8 => if v is U64 || v is U32 {
                None
            } else {
                Some("expected canonical unsigned integer"@)
            },
            CanonicalPrimitiveType::String | CanonicalPrimitiveType::Char => if v is String {
                None
            } else {
                Some("expected canonical string"@)
            },
            CanonicalPrimitiveType::Float32 | CanonicalPrimitiveType::Float64 => Some(
                "float wasm values are not supported yet"@,
            ),
        },
        CanonicalTypeRef::List(inner) => match v {
            CanonicalValue::List(items) => to_wasm_items_failure(reg, skill, *inner, items@),
            _ => Some("expected canonical list"@),
        },
        CanonicalTypeRef::Option(inner) => if v is Null {
            None
        } else {
            to_wasm_failure(reg, skill, *inner, v, steps)
        },
        CanonicalTypeRef::Tuple(tys) => match v {
            CanonicalValue::Tuple(values) => if values@.len() == tys@.len() {
                to_wasm_tuple_failure(reg, skill, tys@, values@)
            } else {
                Some("expected canonical tuple"@)
            },
            _ => Some("expected canonical tuple"@),
        },
        CanonicalTypeRef::Result { .. } => Some(
            "canonical result types are not supported as direct invocation inputs"@,
        ),
        CanonicalTypeRef::Named(name) => match reg.type_in_skill(skill, name@) {
            None => Some(unknown_type_message(skill, name@)),
            Some(def) => match def.kind {
                CanonicalTypeDefKind::Alias(t) => if steps == 0 {
                    Some(cyclic_alias_message(skill, name@))
                } else {
                    to_wasm_failure(reg, skill, t, v, (steps - 1) as nat)
                },
                CanonicalTypeDefKind::Enum(_) => if v is EnumCase {
                    None
                } else {
                    Some("expected canonical enum for '"@ + type_label(skill, name@) + "'"@)
                },
                CanonicalTypeDefKind::Record(rec) => match v {
                    CanonicalValue::Record(fs) => to_wasm_record_failure(
                        reg,
                        skill,
                        name@,
                        rec.fields@,
                        fs@,
                    ),
                    _ => Some("expected canonical record for '"@ + type_label(skill, name@) + "'"@),
                },
                CanonicalTypeDefKind::Variant(_) => Some("variant wasm values are not supported yet"@),
                CanonicalTypeDefKind::Flags(_) => Some("flag wasm values are not supported yet"@),
            },
        },
    }
}

/// The first failure among converting the list items `items` to `inner`.
pub open spec fn to_wasm_items_failure(
    reg: ActionRegistry,
    skill: Seq<char>,
    inner: CanonicalTypeRef,
    items: Seq<CanonicalValue>,
) -> Option<Seq<char>>
    decreases items, 0nat, inner,
{
    if items.len() == 0 {
        None
    } else {
        match to_wasm_items_failure(reg, skill, inner, items.drop_last()) {
            Some(e) => Some(e),
            None => to_wasm_failure(reg, skill, inner, items.last(), reg.alias_budget(skill)),
        }
    }
}

/// The first failure among converting tuple members `values` to `tys`.
pub open spec fn to_wasm_tuple_failure(
    reg: ActionRegistry,
    skill: Seq<char>,
    tys: Seq<CanonicalTypeRef>,
    values: Seq<CanonicalValue>,
) -> Option<Seq<char>>
    decreases values, 0nat, tys,
{
    if values.len() == 0 || tys.len() == 0 {
        None
    } else {
        match to_wasm_tuple_failure(reg, skill, tys.drop_last(), values.drop_last()) {
            Some(e) => Some(e),
            None => to_wasm_failure(reg, skill, tys.last(), values.last(), reg.alias_budget(skill)),
        }
    }
}

/// The first failure among converting the fields of record `name`, taken
/// from the canonical record entries `fs`: a missing field or one that cannot
/// be converted.
pub open spec fn to_wasm_record_failure(
    reg: ActionRegistry,
    skill: Seq<char>,
    name: Seq<char>,
    fields: Seq<CanonicalField>,
    fs: Seq<(String, CanonicalValue)>,
) -> Option<Seq<char>>
    decreases fs, 0nat, fields,
{
    if fields.len() == 0 {
        None
    } else {
        match to_wasm_record_failure(reg, skill, name, fields.drop_last(), fs) {
            Some(e) => Some(e),
            None => {
                let f = fields.last();
                match lookup(fs, f.name@) {
                    None => Some(
                        "missing canonical field '"@ + f.name@ + "' for '"@ + type_label(skill, name)
                            + "'"@,
                    ),
                    Some(x) => {
                        proof {
                            lemma_lookup_is_entry(fs, f.name@);
                            let i = choose|i: int| 0 <= i < fs.len() && (#[trigger] fs[i]).1 == x;
                            assert(decreases_to!(fs => fs[i]));
                        }
                        to_wasm_failure(reg, skill, f.ty, x, reg.alias_budget(skill))
                    },
                }
            },
        }
    }
}

/// `out` is the component value for canonical value `v` of type `ty` (when
/// `to_wasm_failure` finds no failure).
pub open spec fn to_wasm(
    reg: ActionRegistry,
    skill: Seq<char>,
    ty: CanonicalTypeRef,
    v: CanonicalValue,
    steps: nat,
    out: WasmValue,
) -> bool
    decreases v, steps, ty,
{
    match ty {
        CanonicalTypeRef::Primitive(p) => match p {
            CanonicalPrimitiveType::Bool => v matches CanonicalValue::Bool(b) && out
                == WasmValue::Bool(b),
            CanonicalPrimitiveType::S32 => v matches CanonicalValue::S32(n) && out == WasmValue::S32(
                n,
            ),
            CanonicalPrimitiveType::S64 | CanonicalPrimitiveType::S16
            | CanonicalPrimitiveType::S8 => match v {
                CanonicalValue::S64(n) => out == WasmValue::S64(n),
                CanonicalValue::S32(n) => out == WasmValue::S64(n as i64),
                _ => false,
            },
            CanonicalPrimitiveType::U32 => v matches CanonicalValue::U32(n) && out == WasmValue::U32(
                n,
            ),
            CanonicalPrimitiveType::U64 | CanonicalPrimitiveType::U16
            | CanonicalPrimitiveType::U8 => match v {
                CanonicalValue::U64(n) => out == WasmValue::U64(n),
                CanonicalValue::U32(n) => out == WasmValue::U64(n as u64),
                _ => false,
            },
            CanonicalPrimitiveType::String | CanonicalPrimitiveType::Char => v matches CanonicalValue::String(
                s,
            ) && out == WasmValue::String(s),
            CanonicalPrimitiveType::Float32 | CanonicalPrimitiveType::Float64 => false,
        },
        CanonicalTypeRef::List(inner) => v matches CanonicalValue::List(items) && out matches WasmValue::List(
            outs,
        ) && outs@.len() == items@.len() && forall|i: int|
            0 <= i < items@.len() ==> to_wasm(
                reg,
                skill,
                *inner,
                #[trigger] items@[i],
                reg.alias_budget(skill),
                outs@[i],
            ),
        CanonicalTypeRef::Option(inner) => if v is Null {
            out == WasmValue::Option(None)
        } else {
            out matches WasmValue::Option(Some(b)) && to_wasm(reg, skill, *inner, v, steps, *b)
        },
        CanonicalTypeRef::Tuple(tys) => v matches CanonicalValue::Tuple(values) && out matches WasmValue::Tuple(
            outs,
        ) && outs@.len() == values@.len() && values@.len() == tys@.len() && forall|i: int|
            0 <= i < values@.len() ==> to_wasm(
                reg,
                skill,
                tys@[i],
                #[trigger] values@[i],
                reg.alias_budget(skill),
                outs@[i],
            ),
        CanonicalTypeRef::Result { .. } => false,
        CanonicalTypeRef::Named(name) => match reg.type_in_skill(skill, name@) {
            None => false,
            Some(def) => match def.kind {
                CanonicalTypeDefKind::Alias(t) => steps > 0 && to_wasm(
                    reg,
                    skill,
                    t,
                    v,
                    (steps - 1) as nat,
                    out,
                ),
                CanonicalTypeDefKind::Enum(_) => v matches CanonicalValue::EnumCase(s) && out
                    == WasmValue::Enum(s),
                CanonicalTypeDefKind::Record(rec) => v matches CanonicalValue::Record(fs)
                    && out matches WasmValue::Record(ws) && ws@.len() == rec.fields@.len()
                    && forall|i: int|
                    0 <= i < rec.fields@.len() ==> (lookup(fs@, (#[trigger] rec.fields@[i]).name@) matches Some(x)
                        && ws@[i].0@ == rec.fields@[i].name@ && {
                        proof {
                            lemma_lookup_is_entry(fs@, rec.fields@[i].name@);
                            let j = choose|j: int| 0 <= j < fs@.len() && (#[trigger] fs@[j]).1 == x;
                            assert(decreases_to!(fs@ => fs@[j]));
                        }
                        to_wasm(reg, skill, rec.fields@[i].ty, x, reg.alias_budget(skill), ws@[i].1)
                    }),
                _ => false,
            },
        },
    }
}

/// `w` is field `f` of a record converted: its name, and the component value
/// for the record entry of that name.
pub open spec fn field_to_wasm(
    reg: ActionRegistry,
    skill: Seq<char>,
    f: CanonicalField,
    fs: Seq<(String, CanonicalValue)>,
    w: (String, WasmValue),
) -> bool {
    &&& w.0@ == f.name@
    &&& lookup(fs, f.name@) matches Some(x)
    &&& to_wasm(reg, skill, f.ty, x, reg.alias_budget(skill), w.1)
}

proof fn lemma_to_wasm_items_prefix(
    reg: ActionRegistry,
    skill: Seq<char>,
    inner: CanonicalTypeRef,
    items: Seq<CanonicalValue>,
    n: int,
)
    requires
        0 <= n <= items.len(),
        to_wasm_items_failure(reg, skill, inner, items.take(n)) is Some,
    ensures
        to_wasm_items_failure(reg, skill, inner, items) == to_wasm_items_failure(
            reg,
            skill,
            inner,
            items.take(n),
        ),
    decreases items.len() - n,
{
    if n < items.len() {
        assert(items.take(n + 1).drop_last() =~= items.take(n));
        lemma_to_wasm_items_prefix(reg, skill, inner, items, n + 1);
    } else {
        assert(items.take(n) =~= items);
    }
}

proof fn lemma_to_wasm_tuple_prefix(
    reg: ActionRegistry,
    skill: Seq<char>,
    tys: Seq<CanonicalTypeRef>,
    values: Seq<CanonicalValue>,
    n: int,
)
    requires
        0 <= n <= values.len(),
        values.len() == tys.len(),
        to_wasm_tuple_failure(reg, skill, tys.take(n), values.take(n)) is Some,
    ensures
        to_wasm_tuple_failure(reg, skill, tys, values) == to_wasm_tuple_failure(
            reg,
            skill,
            tys.take(n),
            values.take(n),
        ),
    decreases values.len() - n,
{
    if n < values.len() {
        assert(values.take(n + 1).drop_last() =~= values.take(n));
        assert(tys.take(n + 1).drop_last() =~= tys.take(n));
        lemma_to_wasm_tuple_prefix(reg, skill, tys, values, n + 1);
    } else {
        assert(values.take(n) =~= values);
        assert(tys.take(n) =~= tys);
    }
}

proof fn lemma_to_wasm_record_prefix(
    reg: ActionRegistry,
    skill: Seq<char>,
    name: Seq<char>,
    fields: Seq<CanonicalField>,
    fs: Seq<(String, CanonicalValue)>,
    n: int,
)
    requires
        0 <= n <= fields.len(),
        to_wasm_record_failure(reg, skill, name, fields.take(n), fs) is Some,
    ensures
        to_wasm_record_failure(reg, skill, name, fields, fs) == to_wasm_record_failure(
            reg,
            skill,
            name,
            fields.take(n),
            fs,
        ),
    decreases fields.len() - n,
{
    if n < fields.len() {
        assert(fields.take(n + 1).drop_last() =~= fields.take(n));
        lemma_to_wasm_record_prefix(reg, skill, name, fields, fs, n + 1);
    } else {
        assert(fields.take(n) =~= fields);
    }
}

/// Converts a canonical value of type `ty` of skill `skill_name` to a
/// component value.
fn canonical_value_to_wasmtime_val(
    registry: &ActionRegistry,
    skill_name: &str,
    ty: &CanonicalTypeRef,
    value: &CanonicalValue,
    steps: usize,
) -> (r: Result<WasmValue, BindingError>)
    ensures
        match r {
            Ok(out) => to_wasm_failure(*registry, skill_name@, *ty, *value, steps as nat) is None
                && to_wasm(*registry, skill_name@, *ty, *value, steps as nat, out),
            Err(e) => to_wasm_failure(*registry, skill_name@, *ty, *value, steps as nat) == Some(
                e.message()@,
            ),
        },
    decreases *value, steps, *ty,
{
    match ty {
        CanonicalTypeRef::Primitive(p) => match p {
            CanonicalPrimitiveType::Bool => match value {
                CanonicalValue::Bool(b) => Ok(WasmValue::Bool(*b)),
                _ => fail("expected canonical bool"),
            },
            CanonicalPrimitiveType::S32 => match value {
                CanonicalValue::S32(n) => Ok(WasmValue::S32(*n)),
                _ => fail("expected canonical s32"),
            },
            CanonicalPrimitiveType::S64 | CanonicalPrimitiveType::S16
            | CanonicalPrimitiveType::S8 => match value {
                CanonicalValue::S64(n) => Ok(WasmValue::S64(*n)),
                CanonicalValue::S32(n) => Ok(WasmValue::S64(*n as i64)),
                _ => fail("expected canonical signed integer"),
            },
            CanonicalPrimitiveType::U32 => match value {
                CanonicalValue::U32(n) => Ok(WasmValue::U32(*n)),
                _ => fail("expected canonical u32"),
            },
            CanonicalPrimitiveType::U64 | CanonicalPrimitiveType::U16
            | CanonicalPrimitiveType::U8 => match value {
                CanonicalValue::U64(n) => Ok(WasmValue::U64(*n)),
                CanonicalValue::U32(n) => Ok(WasmValue::U64(*n as u64)),
                _ => fail("expected canonical unsigned integer"),
            },
            CanonicalPrimitiveType::String | CanonicalPrimitiveType::Char => match value {
                CanonicalValue::String(s) => Ok(WasmValue::String(s.clone())),
                _ => fail("expected canonical string"),
            },
            CanonicalPrimitiveType::Float32 | CanonicalPrimitiveType::Float64 => fail(
                "float wasm values are not supported yet",
            ),
        },
        CanonicalTypeRef::List(inner) => match value {
            CanonicalValue::List(items) => {
                let budget = registry.alias_budget_of(skill_name);
                let mut outs: Vec<WasmValue> = Vec::new();
                assert(items@.take(0) =~= Seq::<CanonicalValue>::empty());
                for i in 0..items.len()
                    invariant
                        *value == CanonicalValue::List(*items),
                        *ty == CanonicalTypeRef::List(*inner),
                        budget == registry.alias_budget(skill_name@),
                        outs@.len() == i,
                        to_wasm_items_failure(*registry, skill_name@, **inner, items@.take(i as int))
                            is None,
                        forall|j: int|
                            0 <= j < i ==> to_wasm(
                                *registry,
                                skill_name@,
                                **inner,
                                #[trigger] items@[j],
                                budget as nat,
                                outs@[j],
                            ),
                {
                    assert(items@.take(i + 1).drop_last() =~= items@.take(i as int));
                    proof {
                        assert(decreases_to!(*value => (*value)->List_0));
                    }
                    match canonical_value_to_wasmtime_val(registry, skill_name, inner, &items[i], budget) {
                        Ok(x) => {
                            outs.push(x);
                        },
                        Err(e) => {
                            proof {
                                lemma_to_wasm_items_prefix(
                                    *registry,
                                    skill_name@,
                                    **inner,
                                    items@,
                                    i + 1,
                                );
                            }
                            return Err(e);
                        },
                    }
                }
                assert(items@.take(items@.len() as int) =~= items@);
                Ok(WasmValue::List(outs))
            },
            _ => fail("expected canonical list"),
        },
        CanonicalTypeRef::Option(inner) => match value {
            CanonicalValue::Null => Ok(WasmValue::Option(None)),
            _ => match canonical_value_to_wasmtime_val(registry, skill_name, inner, value, steps) {
                Ok(x) => Ok(WasmValue::Option(Some(Box::new(x)))),
                Err(e) => Err(e),
            },
        },
        CanonicalTypeRef::Tuple(tys) => match value {
            CanonicalValue::Tuple(values) => {
                if values.len() != tys.len() {
                    return fail("expected canonical tuple");
                }
                let budget = registry.alias_budget_of(skill_name);
                let mut outs: Vec<WasmValue> = Vec::new();
                assert(values@.take(0) =~= Seq::<CanonicalValue>::empty());
                for i in 0..values.len()
                    invariant
                        *value == CanonicalValue::Tuple(*values),
                        *ty == CanonicalTypeRef::Tuple(*tys),
                        values@.len() == tys@.len(),
                        budget == registry.alias_budget(skill_name@),
                        outs@.len() == i,
                        to_wasm_tuple_failure(
                            *registry,
                            skill_name@,
                            tys@.take(i as int),
                            values@.take(i as int),
                        ) is None,
                        forall|j: int|
                            0 <= j < i ==> to_wasm(
                                *registry,
                                skill_name@,
                                tys@[j],
                                #[trigger] values@[j],
                                budget as nat,
                                outs@[j],
                            ),
                {
                    assert(values@.take(i + 1).drop_last() =~= values@.take(i as int));
                    assert(tys@.take(i + 1).drop_last() =~= tys@.take(i as int));
                    proof {
                        assert(decreases_to!(*value => (*value)->Tuple_0));
                    }
                    match canonical_value_to_wasmtime_val(registry, skill_name, &tys[i], &values[i], budget) {
                        Ok(x) => {
                            outs.push(x);
                        },
                        Err(e) => {
                            proof {
                                lemma_to_wasm_tuple_prefix(
                                    *registry,
                                    skill_name@,
                                    tys@,
                                    values@,
                                    i + 1,
                                );
                            }
                            return Err(e);
                        },
                    }
                }
                assert(values@.take(values@.len() as int) =~= values@);
                assert(tys@.take(tys@.len() as int) =~= tys@);
                Ok(WasmValue::Tuple(outs))
            },
            _ => fail("expected canonical tuple"),
        },
        CanonicalTypeRef::Result { .. } => fail(
            "canonical result types are not supported as direct invocation inputs",
        ),
        CanonicalTypeRef::Named(name) => canonical_named_value_to_wasmtime_val(
            registry,
            skill_name,
            name.as_str(),
            ty,
            value,
            steps,
        ),
    }
}

/// Converts a canonical value of the named type `name` of skill
/// `skill_name` to a component value.
fn canonical_named_value_to_wasmtime_val(
    registry: &ActionRegistry,
    skill_name: &str,
    name: &str,
    ty: &CanonicalTypeRef,
    value: &CanonicalValue,
    steps: usize,
) -> (r: Result<WasmValue, BindingError>)
    requires
        *ty matches CanonicalTypeRef::Named(n) && n@ == name@,
    ensures
        match r {
            Ok(out) => to_wasm_failure(*registry, skill_name@, *ty, *value, steps as nat) is None
                && to_wasm(*registry, skill_name@, *ty, *value, steps as nat, out),
            Err(e) => to_wasm_failure(*registry, skill_name@, *ty, *value, steps as nat) == Some(
                e.message()@,
            ),
        },
    decreases *value, steps, *ty, 0nat,
{
    let def = match registry.type_by_name_in_skill(skill_name, name) {
        Some(d) => d,
        None => {
            return Err(
                BindingError::new(labelled_message("unknown canonical type '", skill_name, name, "'")),
            );
        },
    };
    match &def.kind {
        CanonicalTypeDefKind::Alias(alias) => {
            if steps == 0 {
                return Err(
                    BindingError::new(labelled_message("cyclic type alias '", skill_name, name, "'")),
                );
            }
            canonical_value_to_wasmtime_val(registry, skill_name, alias, value, steps - 1)
        },
        CanonicalTypeDefKind::Enum(_) => match value {
            CanonicalValue::EnumCase(s) => Ok(WasmValue::Enum(s.clone())),
            _ => Err(
                BindingError::new(
                    labelled_message("expected canonical enum for '", skill_name, name, "'"),
                ),
            ),
        },
        CanonicalTypeDefKind::Record(record) => match value {
            CanonicalValue::Record(entries) => {
                let budget = registry.alias_budget_of(skill_name);
                let mut lowered: Vec<(String, WasmValue)> = Vec::new();
                let ghost fields = record.fields@;
                assert(fields.take(0) =~= Seq::<CanonicalField>::empty());
                for i in 0..record.fields.len()
                    invariant
                        *value == CanonicalValue::Record(*entries),
                        *ty matches CanonicalTypeRef::Named(nn) && nn@ == name@,
                        registry.type_in_skill(skill_name@, name@) == Some(*def),
                        def.kind == CanonicalTypeDefKind::Record(*record),
                        fields == record.fields@,
                        budget == registry.alias_budget(skill_name@),
                        lowered@.len() == i,
                        to_wasm_record_failure(
                            *registry,
                            skill_name@,
                            name@,
                            fields.take(i as int),
                            entries@,
                        ) is None,
                        forall|j: int|
                            0 <= j < i ==> field_to_wasm(
                                *registry,
                                skill_name@,
                                fields[j],
                                entries@,
                                #[trigger] lowered@[j],
                            ),
                {
                    let field = &record.fields[i];
                    assert(fields.take(i + 1).drop_last() =~= fields.take(i as int));
                    let field_value = match assoc_get_unsorted(entries, field.name.as_str()) {
                        Some(v) => v,
                        None => {
                            let mut m = String::new();
                            string_push_str(&mut m, "missing canonical field '");
                            string_push_str(&mut m, field.name.as_str());
                            let rest = labelled_message("' for '", skill_name, name, "'");
                            string_push_str(&mut m, rest.as_str());
                            proof {
                                assert(m@ =~= "missing canonical field '"@ + field.name@ + "' for '"@
                                    + type_label(skill_name@, name@) + "'"@);
                                lemma_to_wasm_record_prefix(
                                    *registry,
                                    skill_name@,
                                    name@,
                                    fields,
                                    entries@,
                                    i + 1,
                                );
                            }
                            return Err(BindingError::new(m));
                        },
                    };
                    proof {
                        lemma_lookup_is_entry(entries@, field.name@);
                        let j = choose|j: int|
                            0 <= j < entries@.len() && (#[trigger] entries@[j]).1 == *field_value;
                        assert(decreases_to!(*value => (*value)->Record_0));
                        assert(decreases_to!(entries@ => entries@[j]));
                    }
                    match canonical_value_to_wasmtime_val(registry, skill_name, &field.ty, field_value, budget) {
                        Ok(x) => {
                            lowered.push((field.name.clone(), x));
                            assert(field_to_wasm(
                                *registry,
                                skill_name@,
                                fields[i as int],
                                entries@,
                                lowered@[i as int],
                            ));
                        },
                        Err(e) => {
                            proof {
                                lemma_to_wasm_record_prefix(
                                    *registry,
                                    skill_name@,
                                    name@,
                                    fields,
                                    entries@,
                                    i + 1,
                                );
                            }
                            return Err(e);
                        },
                    }
                }
                assert(fields.take(fields.len() as int) =~= fields);
                let out = WasmValue::Record(lowered);
                assert(to_wasm(*registry, skill_name@, *ty, *value, steps as nat, out)) by {
                    assert forall|i: int| 0 <= i < fields.len() implies (lookup(
                        entries@,
                        (#[trigger] fields[i]).name@,
                    ) matches Some(x) && lowered@[i].0@ == fields[i].name@ && to_wasm(
                        *registry,
                        skill_name@,
                        fields[i].ty,
                        x,
                        registry.alias_budget(skill_name@),
                        lowered@[i].1,
                    )) by {
                        assert(field_to_wasm(*registry, skill_name@, fields[i], entries@, lowered@[i]));
                    }
                }
                Ok(out)
            },
            _ => Err(
                BindingError::new(
                    labelled_message("expected canonical record for '", skill_name, name, "'"),
                ),
            ),
        },
        CanonicalTypeDefKind::Variant(_) => fail("variant wasm values are not supported yet"),
        CanonicalTypeDefKind::Flags(_) => fail("flag wasm values are not supported yet"),
    }
}

/// Why the component value `w` cannot be read back as a canonical value of
/// type `ty` of skill `skill`, if it cannot; `steps` as for `to_wasm_failure`.
pub open spec fn from_wasm_failure(
    reg: ActionRegistry,
    skill: Seq<char>,
    ty: CanonicalTypeRef,
    w: WasmValue,
    steps: nat,
) -> Option<Seq<char>>
    decreases w, steps, ty,
{
    match ty {
        CanonicalTypeRef::Primitive(p) => match p {
            CanonicalPrimitiveType::Bool => if w is Bool {
                None
            } else {
                Some("expected wasm bool"@)
            },
            CanonicalPrimitiveType::S32 => if w is S32 {
                None
            } else {
                Some("expected wasm s32"@)
            },
            CanonicalPrimitiveType::S64 | CanonicalPrimitiveType::S16
            | CanonicalPrimitiveType::S8 => if w is S64 || w is S32 {
                None
            } else {
                Some("expected wasm signed integer"@)
            },
            CanonicalPrimitiveType::U32 => if w is U32 {
                None
            } else {
                Some("expected wasm u32"@)
            },
            CanonicalPrimitiveType::U64 | CanonicalPrimitiveType::U16
            | CanonicalPrimitiveType::U8 => if w is U64 || w is U32 {
                None
            } else {
                Some("expected wasm unsigned integer"@)
            },
            CanonicalPrimitiveType::String | CanonicalPrimitiveType::Char => if w is String {
                None
            } else {
                Some("expected wasm string"@)
            },
            CanonicalPrimitiveType::Float32 | CanonicalPrimitiveType::Float64 => Some(
                "float wasm values are not supported yet"@,
            ),
        },
        CanonicalTypeRef::List(inner) => match w {
            WasmValue::List(items) => from_wasm_items_failure(reg, skill, *inner, items@),
            _ => Some("expected wasm list"@),
        },
        CanonicalTypeRef::Option(inner) => match w {
            WasmValue::Option(o) => match o {
                Some(b) => from_wasm_failure(reg, skill, *inner, *b, reg.alias_budget(skill)),
                None => None,
            },
            _ => Some("expected wasm option"@),
        },
        CanonicalTypeRef::Tuple(tys) => match w {
            WasmValue::Tuple(values) => if values@.len() == tys@.len() {
                from_wasm_tuple_failure(reg, skill, tys@, values@)
            } else {
                Some("expected wasm tuple"@)
            },
            _ => Some("expected wasm tuple"@),
        },
        CanonicalTypeRef::Result { .. } => Some("wasm result wrappers are not supported yet"@),
        CanonicalTypeRef::Named(name) => match reg.type_in_skill(skill, name@) {
            None => Some(unknown_type_message(skill, name@)),
            Some(def) => match def.kind {
                CanonicalTypeDefKind::Alias(t) => if steps == 0 {
                    Some(cyclic_alias_message(skill, name@))
                } else {
                    from_wasm_failure(reg, skill, t, w, (steps - 1) as nat)
                },
                CanonicalTypeDefKind::Enum(_) => if w is Enum {
                    None
                } else {
                    Some("expected wasm enum for '"@ + type_label(skill, name@) + "'"@)
                },
                CanonicalTypeDefKind::Record(rec) => match w {
                    WasmValue::Record(ws) => from_wasm_record_failure(
                        reg,
                        skill,
                        name@,
                        rec.fields@,
                        ws@,
                    ),
                    _ => Some("expected wasm record for '"@ + type_label(skill, name@) + "'"@),
                },
                CanonicalTypeDefKind::Variant(_) => Some("variant wasm values are not supported yet"@),
                CanonicalTypeDefKind::Flags(_) => Some("flag wasm values are not supported yet"@),
            },
        },
    }
}

/// The first failure among reading back the list items `items` as `inner`.
pub open spec fn from_wasm_items_failure(
    reg: ActionRegistry,
    skill: Seq<char>,
    inner: CanonicalTypeRef,
    items: Seq<WasmValue>,
) -> Option<Seq<char>>
    decreases items, 0nat, inner,
{
    if items.len() == 0 {
        None
    } else {
        match from_wasm_items_failure(reg, skill, inner, items.drop_last()) {
            Some(e) => Some(e),
            None => from_wasm_failure(reg, skill, inner, items.last(), reg.alias_budget(skill)),
        }
    }
}

/// The first failure among reading back tuple members `values` as `tys`.
pub open spec fn from_wasm_tuple_failure(
    reg: ActionRegistry,
    skill: Seq<char>,
    tys: Seq<CanonicalTypeRef>,
    values: Seq<WasmValue>,
) -> Option<Seq<char>>
    decreases values, 0nat, tys,
{
    if values.len() == 0 || tys.len() == 0 {
        None
    } else {
        match from_wasm_tuple_failure(reg, skill, tys.drop_last(), values.drop_last()) {
            Some(e) => Some(e),
            None => from_wasm_failure(reg, skill, tys.last(), values.last(), reg.alias_budget(skill)),
        }
    }
}

/// The first failure among reading back the fields of record `name` from the
/// component record entries `ws` (the last entry of a name counting): a
/// missing field or one that cannot be read back.
pub open spec fn from_wasm_record_failure(
    reg: ActionRegistry,
    skill: Seq<char>,
    name: Seq<char>,
    fields: Seq<CanonicalField>,
    ws: Seq<(String, WasmValue)>,
) -> Option<Seq<char>>
    decreases ws, 0nat, fields,
{
    if fields.len() == 0 {
        None
    } else {
        match from_wasm_record_failure(reg, skill, name, fields.drop_last(), ws) {
            Some(e) => Some(e),
            None => {
                let f = fields.last();
                match last_lookup(ws, f.name@) {
                    None => Some(
                        "missing wasm field '"@ + f.name@ + "' for '"@ + type_label(skill, name) + "'"@,
                    ),
                    Some(x) => {
                        proof {
                            lemma_last_lookup_is_entry(ws, f.name@);
                            let i = choose|i: int| 0 <= i < ws.len() && (#[trigger] ws[i]).1 == x;
                            assert(decreases_to!(ws => ws[i]));
                        }
                        from_wasm_failure(reg, skill, f.ty, x, reg.alias_budget(skill))
                    },
                }
            },
        }
    }
}

/// `out` is the canonical value read back from component value `w` of type
/// `ty` (when `from_wasm_failure` finds no failure).
pub open spec fn from_wasm(
    reg: ActionRegistry,
    skill: Seq<char>,
    ty: CanonicalTypeRef,
    w: WasmValue,
    steps: nat,
    out: CanonicalValue,
) -> bool
    decreases w, steps, ty,
{
    match ty {
        CanonicalTypeRef::Primitive(p) => match p {
            CanonicalPrimitiveType::Bool => w matches WasmValue::Bool(b) && out
                == CanonicalValue::Bool(b),
            CanonicalPrimitiveType::S32 => w matches WasmValue::S32(n) && out
                == CanonicalValue::S32(n),
            CanonicalPrimitiveType::S64 | CanonicalPrimitiveType::S16
            | CanonicalPrimitiveType::S8 => match w {
                WasmValue::S64(n) => out == CanonicalValue::S64(n),
                WasmValue::S32(n) => out == CanonicalValue::S64(n as i64),
                _ => false,
            },
            CanonicalPrimitiveType::U32 => w matches WasmValue::U32(n) && out
                == CanonicalValue::U32(n),
            CanonicalPrimitiveType::U64 | CanonicalPrimitiveType::U16
            | CanonicalPrimitiveType::U8 => match w {
                WasmValue::U64(n) => out == CanonicalValue::U64(n),
                WasmValue::U32(n) => out == CanonicalValue::U64(n as u64),
                _ => false,
            },
            CanonicalPrimitiveType::String | CanonicalPrimitiveType::Char => w matches WasmValue::String(
                s,
            ) && out == CanonicalValue::String(s),
            CanonicalPrimitiveType::Float32 | CanonicalPrimitiveType::Float64 => false,
        },
        CanonicalTypeRef::List(inner) => w matches WasmValue::List(items) && out matches CanonicalValue::List(
            outs,
        ) && outs@.len() == items@.len() && forall|i: int|
            0 <= i < items@.len() ==> from_wasm(
                reg,
                skill,
                *inner,
                #[trigger] items@[i],
                reg.alias_budget(skill),
                outs@[i],
            ),
        CanonicalTypeRef::Option(inner) => match w {
            WasmValue::Option(o) => match o {
                Some(b) => from_wasm(reg, skill, *inner, *b, reg.alias_budget(skill), out),
                None => out is Null,
            },
            _ => false,
        },
        CanonicalTypeRef::Tuple(tys) => w matches WasmValue::Tuple(values) && out matches CanonicalValue::Tuple(
            outs,
        ) && outs@.len() == values@.len() && values@.len() == tys@.len() && forall|i: int|
            0 <= i < values@.len() ==> from_wasm(
                reg,
                skill,
                tys@[i],
                #[trigger] values@[i],
                reg.alias_budget(skill),
                outs@[i],
            ),
        CanonicalTypeRef::Result { .. } => false,
        CanonicalTypeRef::Named(name) => match reg.type_in_skill(skill, name@) {
            None => false,
            Some(def) => match def.kind {
                CanonicalTypeDefKind::Alias(t) => steps > 0 && from_wasm(
                    reg,
                    skill,
                    t,
                    w,
                    (steps - 1) as nat,
                    out,
                ),
                CanonicalTypeDefKind::Enum(_) => w matches WasmValue::Enum(s) && out
                    == CanonicalValue::EnumCase(s),
                CanonicalTypeDefKind::Record(rec) => w matches WasmValue::Record(ws) && out matches CanonicalValue::Record(
                    fs,
                ) && sorted_keys(fs@) && (forall|k: Seq<char>| #[trigger]
                    has_key(fs@, k) == exists|i: int|
                        0 <= i < rec.fields@.len() && (#[trigger] rec.fields@[i]).name@ == k)
                    && forall|i: int|
                    0 <= i < rec.fields@.len() && last_of_name(rec.fields@, i) ==> (lookup(
                        fs@,
                        (#[trigger] rec.fields@[i]).name@,
                    ) matches Some(x) && last_lookup(ws@, rec.fields@[i].name@) matches Some(y) && {
                        proof {
                            lemma_last_lookup_is_entry(ws@, rec.fields@[i].name@);
                            let j = choose|j: int| 0 <= j < ws@.len() && (#[trigger] ws@[j]).1 == y;
                            assert(decreases_to!(ws@ => ws@[j]));
                        }
                        from_wasm(reg, skill, rec.fields@[i].ty, y, reg.alias_budget(skill), x)
                    }),
                _ => false,
            },
        },
    }
}

/// The canonical record entries `fs` hold, for each of the first `n` fields
/// that no later one of them renames, the value read back from the last
/// component record entry of its name.
pub open spec fn record_prefix_from_wasm(
    reg: ActionRegistry,
    skill: Seq<char>,
    fields: Seq<CanonicalField>,
    ws: Seq<(String, WasmValue)>,
    fs: Seq<(String, CanonicalValue)>,
    n: int,
) -> bool {
    forall|j: int|
        0 <= j < n && last_before(fields, j, n) ==> (lookup(fs, (#[trigger] fields[j]).name@) matches Some(
            x,
        ) && last_lookup(ws, fields[j].name@) matches Some(y) && from_wasm(
            reg,
            skill,
            fields[j].ty,
            y,
            reg.alias_budget(skill),
            x,
        ))
}

proof fn lemma_from_wasm_items_prefix(
    reg: ActionRegistry,
    skill: Seq<char>,
    inner: CanonicalTypeRef,
    items: Seq<WasmValue>,
    n: int,
)
    requires
        0 <= n <= items.len(),
        from_wasm_items_failure(reg, skill, inner, items.take(n)) is Some,
    ensures
        from_wasm_items_failure(reg, skill, inner, items) == from_wasm_items_failure(
            reg,
            skill,
            inner,
            items.take(n),
        ),
    decreases items.len() - n,
{
    if n < items.len() {
        assert(items.take(n + 1).drop_last() =~= items.take(n));
        lemma_from_wasm_items_prefix(reg, skill, inner, items, n + 1);
    } else {
        assert(items.take(n) =~= items);
    }
}

proof fn lemma_from_wasm_tuple_prefix(
    reg: ActionRegistry,
    skill: Seq<char>,
    tys: Seq<CanonicalTypeRef>,
    values: Seq<WasmValue>,
    n: int,
)
    requires
        0 <= n <= values.len(),
        values.len() == tys.len(),
        from_wasm_tuple_failure(reg, skill, tys.take(n), values.take(n)) is Some,
    ensures
        from_wasm_tuple_failure(reg, skill, tys, values) == from_wasm_tuple_failure(
            reg,
            skill,
            tys.take(n),
            values.take(n),
        ),
    decreases values.len() - n,
{
    if n < values.len() {
        assert(values.take(n + 1).drop_last() =~= values.take(n));
        assert(tys.take(n + 1).drop_last() =~= tys.take(n));
        lemma_from_wasm_tuple_prefix(reg, skill, tys, values, n + 1);
    } else {
        assert(values.take(n) =~= values);
        assert(tys.take(n) =~= tys);
    }
}

proof fn lemma_from_wasm_record_prefix(
    reg: ActionRegistry,
    skill: Seq<char>,
    name: Seq<char>,
    fields: Seq<CanonicalField>,
    ws: Seq<(String, WasmValue)>,
    n: int,
)
    requires
        0 <= n <= fields.len(),
        from_wasm_record_failure(reg, skill, name, fields.take(n), ws) is Some,
    ensures
        from_wasm_record_failure(reg, skill, name, fields, ws) == from_wasm_record_failure(
            reg,
            skill,
            name,
            fields.take(n),
            ws,
        ),
    decreases fields.len() - n,
{
    if n < fields.len() {
        assert(fields.take(n + 1).drop_last() =~= fields.take(n));
        lemma_from_wasm_record_prefix(reg, skill, name, fields, ws, n + 1);
    } else {
        assert(fields.take(n) =~= fields);
    }
}

/// The value of the last entry named `k`, if any.
fn entry_get_last<'a, V>(entries: &'a Vec<(String, V)>, k: &str) -> (r: Option<&'a V>)
    ensures
        match r {
            Some(v) => last_lookup(entries@, k@) == Some(*v),
            None => last_lookup(entries@, k@) is None,
        },
{
    let mut found: Option<&'a V> = None;
    assert(entries@.take(0) =~= Seq::<(String, V)>::empty());
    for i in 0..entries.len()
        invariant
            match found {
                Some(v) => last_lookup(entries@.take(i as int), k@) == Some(*v),
                None => last_lookup(entries@.take(i as int), k@) is None,
            },
    {
        let ghost t = entries@.take(i + 1);
        assert(t.drop_last() =~= entries@.take(i as int));
        if crate::text::str_eq(entries[i].0.as_str(), k) {
            found = Some(&entries[i].1);
        }
    }
    assert(entries@.take(entries@.len() as int) =~= entries@);
    found
}

/// Reads back a canonical value of type `ty` of skill `skill_name` from a
/// component value.
fn wasmtime_val_to_canonical_value(
    registry: &ActionRegistry,
    skill_name: &str,
    ty: &CanonicalTypeRef,
    value: &WasmValue,
    steps: usize,
) -> (r: Result<CanonicalValue, BindingError>)
    ensures
        match r {
            Ok(out) => from_wasm_failure(*registry, skill_name@, *ty, *value, steps as nat) is None
                && from_wasm(*registry, skill_name@, *ty, *value, steps as nat, out),
            Err(e) => from_wasm_failure(*registry, skill_name@, *ty, *value, steps as nat) == Some(
                e.message()@,
            ),
        },
    decreases *value, steps, *ty,
{
    match ty {
        CanonicalTypeRef::Primitive(p) => match p {
            CanonicalPrimitiveType::Bool => match value {
                WasmValue::Bool(b) => Ok(CanonicalValue::Bool(*b)),
                _ => fail("expected wasm bool"),
            },
            CanonicalPrimitiveType::S32 => match value {
                WasmValue::S32(n) => Ok(CanonicalValue::S32(*n)),
                _ => fail("expected wasm s32"),
            },
            CanonicalPrimitiveType::S64 | CanonicalPrimitiveType::S16
            | CanonicalPrimitiveType::S8 => match value {
                WasmValue::S64(n) => Ok(CanonicalValue::S64(*n)),
                WasmValue::S32(n) => Ok(CanonicalValue::S64(*n as i64)),
                _ => fail("expected wasm signed integer"),
            },
            CanonicalPrimitiveType::U32 => match value {
                WasmValue::U32(n) => Ok(CanonicalValue::U32(*n)),
                _ => fail("expected wasm u32"),
            },
            CanonicalPrimitiveType::U64 | CanonicalPrimitiveType::U16
            | CanonicalPrimitiveType::U8 => match value {
                WasmValue::U64(n) => Ok(CanonicalValue::U64(*n)),
                WasmValue::U32(n) => Ok(CanonicalValue::U64(*n as u64)),
                _ => fail("expected wasm unsigned integer"),
            },
            CanonicalPrimitiveType::String | CanonicalPrimitiveType::Char => match value {
                WasmValue::String(s) => Ok(CanonicalValue::String(s.clone())),
                _ => fail("expected wasm string"),
            },
            CanonicalPrimitiveType::Float32 | CanonicalPrimitiveType::Float64 => fail(
                "float wasm values are not supported yet",
            ),
        },
        CanonicalTypeRef::List(inner) => match value {
            WasmValue::List(items) => {
                let budget = registry.alias_budget_of(skill_name);
                let mut outs: Vec<CanonicalValue> = Vec::new();
                assert(items@.take(0) =~= Seq::<WasmValue>::empty());
                for i in 0..items.len()
                    invariant
                        *value == WasmValue::List(*items),
                        *ty == CanonicalTypeRef::List(*inner),
                        budget == registry.alias_budget(skill_name@),
                        outs@.len() == i,
                        from_wasm_items_failure(*registry, skill_name@, **inner, items@.take(i as int))
                            is None,
                        forall|j: int|
                            0 <= j < i ==> from_wasm(
                                *registry,
                                skill_name@,
                                **inner,
                                #[trigger] items@[j],
                                budget as nat,
                                outs@[j],
                            ),
                {
                    assert(items@.take(i + 1).drop_last() =~= items@.take(i as int));
                    proof {
                        assert(decreases_to!(*value => (*value)->List_0));
                    }
                    match wasmtime_val_to_canonical_value(registry, skill_name, inner, &items[i], budget) {
                        Ok(x) => {
                            outs.push(x);
                        },
                        Err(e) => {
                            proof {
                                lemma_from_wasm_items_prefix(
                                    *registry,
                                    skill_name@,
                                    **inner,
                                    items@,
                                    i + 1,
                                );
                            }
                            return Err(e);
                        },
                    }
                }
                assert(items@.take(items@.len() as int) =~= items@);
                Ok(CanonicalValue::List(outs))
            },
            _ => fail("expected wasm list"),
        },
        CanonicalTypeRef::Option(inner) => match value {
            WasmValue::Option(o) => match o {
                Some(b) => {
                    let budget = registry.alias_budget_of(skill_name);
                    proof {
                        assert(decreases_to!(*value => (*value)->Option_0));
                    }
                    wasmtime_val_to_canonical_value(registry, skill_name, inner, &**b, budget)
                },
                None => Ok(CanonicalValue::Null),
            },
            _ => fail("expected wasm option"),
        },
        CanonicalTypeRef::Tuple(tys) => match value {
            WasmValue::Tuple(values) => {
                if values.len() != tys.len() {
                    return fail("expected wasm tuple");
                }
                let budget = registry.alias_budget_of(skill_name);
                let mut outs: Vec<CanonicalValue> = Vec::new();
                assert(values@.take(0) =~= Seq::<WasmValue>::empty());
                for i in 0..values.len()
                    invariant
                        *value == WasmValue::Tuple(*values),
                        *ty == CanonicalTypeRef::Tuple(*tys),
                        values@.len() == tys@.len(),
                        budget == registry.alias_budget(skill_name@),
                        outs@.len() == i,
                        from_wasm_tuple_failure(
                            *registry,
                            skill_name@,
                            tys@.take(i as int),
                            values@.take(i as int),
                        ) is None,
                        forall|j: int|
                            0 <= j < i ==> from_wasm(
                                *registry,
                                skill_name@,
                                tys@[j],
                                #[trigger] values@[j],
                                budget as nat,
                                outs@[j],
                            ),
                {
                    assert(values@.take(i + 1).drop_last() =~= values@.take(i as int));
                    assert(tys@.take(i + 1).drop_last() =~= tys@.take(i as int));
                    proof {
                        assert(decreases_to!(*value => (*value)->Tuple_0));
                    }
                    match wasmtime_val_to_canonical_value(registry, skill_name, &tys[i], &values[i], budget) {
                        Ok(x) => {
                            outs.push(x);
                        },
                        Err(e) => {
                            proof {
                                lemma_from_wasm_tuple_prefix(
                                    *registry,
                                    skill_name@,
                                    tys@,
                                    values@,
                                    i + 1,
                                );
                            }
                            return Err(e);
                        },
                    }
                }
                assert(values@.take(values@.len() as int) =~= values@);
                assert(tys@.take(tys@.len() as int) =~= tys@);
                Ok(CanonicalValue::Tuple(outs))
            },
            _ => fail("expected wasm tuple"),
        },
        CanonicalTypeRef::Result { .. } => fail("wasm result wrappers are not supported yet"),
        CanonicalTypeRef::Named(name) => wasmtime_named_value_to_canonical_value(
            registry,
            skill_name,
            name.as_str(),
            ty,
            value,
            steps,
        ),
    }
}

/// Reads back a canonical value of the named type `name` of skill
/// `skill_name` from a component value.
fn wasmtime_named_value_to_canonical_value(
    registry: &ActionRegistry,
    skill_name: &str,
    name: &str,
    ty: &CanonicalTypeRef,
    value: &WasmValue,
    steps: usize,
) -> (r: Result<CanonicalValue, BindingError>)
    requires
        *ty matches CanonicalTypeRef::Named(n) && n@ == name@,
    ensures
        match r {
            Ok(out) => from_wasm_failure(*registry, skill_name@, *ty, *value, steps as nat) is None
                && from_wasm(*registry, skill_name@, *ty, *value, steps as nat, out),
            Err(e) => from_wasm_failure(*registry, skill_name@, *ty, *value, steps as nat) == Some(
                e.message()@,
            ),
        },
    decreases *value, steps, *ty, 0nat,
{
    let def = match registry.type_by_name_in_skill(skill_name, name) {
        Some(d) => d,
        None => {
            return Err(
                BindingError::new(labelled_message("unknown canonical type '", skill_name, name, "'")),
            );
        },
    };
    match &def.kind {
        CanonicalTypeDefKind::Alias(alias) => {
            if steps == 0 {
                return Err(
                    BindingError::new(labelled_message("cyclic type alias '", skill_name, name, "'")),
                );
            }
            wasmtime_val_to_canonical_value(registry, skill_name, alias, value, steps - 1)
        },
        CanonicalTypeDefKind::Enum(_) => match value {
            WasmValue::Enum(s) => Ok(CanonicalValue::EnumCase(s.clone())),
            _ => Err(
                BindingError::new(labelled_message("expected wasm enum for '", skill_name, name, "'")),
            ),
        },
        CanonicalTypeDefKind::Record(record) => match value {
            WasmValue::Record(entries) => {
                let budget = registry.alias_budget_of(skill_name);
                let mut lifted: Vec<(String, CanonicalValue)> = Vec::new();
                let ghost fields = record.fields@;
                assert(fields.take(0) =~= Seq::<CanonicalField>::empty());
                for i in 0..record.fields.len()
                    invariant
                        *value == WasmValue::Record(*entries),
                        *ty matches CanonicalTypeRef::Named(nn) && nn@ == name@,
                        registry.type_in_skill(skill_name@, name@) == Some(*def),
                        def.kind == CanonicalTypeDefKind::Record(*record),
                        fields == record.fields@,
                        budget == registry.alias_budget(skill_name@),
                        sorted_keys(lifted@),
                        from_wasm_record_failure(
                            *registry,
                            skill_name@,
                            name@,
                            fields.take(i as int),
                            entries@,
                        ) is None,
                        forall|k: Seq<char>| #[trigger]
                            has_key(lifted@, k) == exists|j: int|
                                0 <= j < i && (#[trigger] fields[j]).name@ == k,
                        record_prefix_from_wasm(
                            *registry,
                            skill_name@,
                            fields,
                            entries@,
                            lifted@,
                            i as int,
                        ),
                {
                    let field = &record.fields[i];
                    assert(fields.take(i + 1).drop_last() =~= fields.take(i as int));
                    let field_value = match entry_get_last(entries, field.name.as_str()) {
                        Some(v) => v,
                        None => {
                            let mut m = String::new();
                            string_push_str(&mut m, "missing wasm field '");
                            string_push_str(&mut m, field.name.as_str());
                            let rest = labelled_message("' for '", skill_name, name, "'");
                            string_push_str(&mut m, rest.as_str());
                            proof {
                                assert(m@ =~= "missing wasm field '"@ + field.name@ + "' for '"@
                                    + type_label(skill_name@, name@) + "'"@);
                                lemma_from_wasm_record_prefix(
                                    *registry,
                                    skill_name@,
                                    name@,
                                    fields,
                                    entries@,
                                    i + 1,
                                );
                            }
                            return Err(BindingError::new(m));
                        },
                    };
                    proof {
                        lemma_last_lookup_is_entry(entries@, field.name@);
                        let j = choose|j: int|
                            0 <= j < entries@.len() && (#[trigger] entries@[j]).1 == *field_value;
                        assert(decreases_to!(*value => (*value)->Record_0));
                        assert(decreases_to!(entries@ => entries@[j]));
                    }
                    match wasmtime_val_to_canonical_value(registry, skill_name, &field.ty, field_value, budget) {
                        Ok(x) => {
                            let ghost l0 = lifted@;
                            assoc_insert(&mut lifted, field.name.clone(), x);
                            assert(record_prefix_from_wasm(
                                *registry,
                                skill_name@,
                                fields,
                                entries@,
                                lifted@,
                                i + 1,
                            )) by {
                                assert forall|j: int|
                                    0 <= j < i + 1 && last_before(fields, j, i + 1) implies (lookup(
                                    lifted@,
                                    (#[trigger] fields[j]).name@,
                                ) matches Some(xx) && last_lookup(entries@, fields[j].name@) matches Some(
                                    y,
                                ) && from_wasm(
                                    *registry,
                                    skill_name@,
                                    fields[j].ty,
                                    y,
                                    registry.alias_budget(skill_name@),
                                    xx,
                                )) by {
                                    if j < i {
                                        assert(fields[i as int].name@ != fields[j].name@);
                                        assert(last_before(fields, j, i as int));
                                    }
                                }
                            }
                            assert forall|k: Seq<char>| #[trigger]
                                has_key(lifted@, k) == exists|j: int|
                                    0 <= j < i + 1 && (#[trigger] fields[j]).name@ == k by {
                                if k == field.name@ {
                                    assert(fields[i as int].name@ == k);
                                }
                                if has_key(l0, k) {
                                    let j = choose|j: int| 0 <= j < i && (#[trigger] fields[j]).name@ == k;
                                }
                            }
                        },
                        Err(e) => {
                            proof {
                                lemma_from_wasm_record_prefix(
                                    *registry,
                                    skill_name@,
                                    name@,
                                    fields,
                                    entries@,
                                    i + 1,
                                );
                            }
                            return Err(e);
                        },
                    }
                }
                assert(fields.take(fields.len() as int) =~= fields);
                Ok(CanonicalValue::Record(lifted))
            },
            _ => Err(
                BindingError::new(
                    labelled_message("expected wasm record for '", skill_name, name, "'"),
                ),
            ),
        },
        CanonicalTypeDefKind::Variant(_) => fail("variant wasm values are not supported yet"),
        CanonicalTypeDefKind::Flags(_) => fail("flag wasm values are not supported yet"),
    }
}

/// Why the component result `w` of an action with result description
/// `result` cannot be read back, if it cannot.
pub open spec fn wasm_result_failure(
    reg: ActionRegistry,
    skill: Seq<char>,
    result: CanonicalFunctionResult,
    w: WasmValue,
) -> Option<Seq<char>> {
    match result {
        CanonicalFunctionResult::Nothing => None,
        CanonicalFunctionResult::Scalar(ty) => from_wasm_failure(
            reg,
            skill,
            ty,
            w,
            reg.alias_budget(skill),
        ),
        CanonicalFunctionResult::Named(params) => if params@.len() == 1 {
            from_wasm_failure(reg, skill, params@[0].ty, w, reg.alias_budget(skill))
        } else {
            match w {
                WasmValue::Tuple(items) => if items@.len() == params@.len() {
                    from_wasm_tuple_failure(reg, skill, param_types(params@), items@)
                } else {
                    Some("expected wasm tuple result"@)
                },
                _ => Some("expected wasm tuple result"@),
            }
        },
    }
}

/// `out` is the canonical value read back from result `w` (when
/// `wasm_result_failure` finds none): null for no result, a single result
/// read back, several results as a tuple.
pub open spec fn wasm_result_to(
    reg: ActionRegistry,
    skill: Seq<char>,
    result: CanonicalFunctionResult,
    w: WasmValue,
    out: CanonicalValue,
) -> bool {
    match result {
        CanonicalFunctionResult::Nothing => out is Null,
        CanonicalFunctionResult::Scalar(ty) => from_wasm(reg, skill, ty, w, reg.alias_budget(skill), out),
        CanonicalFunctionResult::Named(params) => if params@.len() == 1 {
            from_wasm(reg, skill, params@[0].ty, w, reg.alias_budget(skill), out)
        } else {
            w matches WasmValue::Tuple(items) && out matches CanonicalValue::Tuple(outs) && outs@.len()
                == items@.len() && items@.len() == params@.len() && forall|i: int|
                0 <= i < items@.len() ==> from_wasm(
                    reg,
                    skill,
                    params@[i].ty,
                    #[trigger] items@[i],
                    reg.alias_budget(skill),
                    outs@[i],
                )
        },
    }
}

/// Reads back the result of an action.
#[verifier::loop_isolation(false)]
fn wasmtime_val_to_canonical_result(
    registry: &ActionRegistry,
    skill_name: &str,
    result: &CanonicalFunctionResult,
    value: &WasmValue,
) -> (r: Result<CanonicalValue, BindingError>)
    ensures
        match r {
            Ok(out) => wasm_result_failure(*registry, skill_name@, *result, *value) is None
                && wasm_result_to(*registry, skill_name@, *result, *value, out),
            Err(e) => wasm_result_failure(*registry, skill_name@, *result, *value) == Some(
                e.message()@,
            ),
        },
{
    let budget = registry.alias_budget_of(skill_name);
    match result {
        CanonicalFunctionResult::Nothing => Ok(CanonicalValue::Null),
        CanonicalFunctionResult::Scalar(ty) => wasmtime_val_to_canonical_value(
            registry,
            skill_name,
            ty,
            value,
            budget,
        ),
        CanonicalFunctionResult::Named(params) => {
            if params.len() == 1 {
                wasmtime_val_to_canonical_value(registry, skill_name, &params[0].ty, value, budget)
            } else {
                match value {
                    WasmValue::Tuple(items) => {
                        if items.len() != params.len() {
                            return fail("expected wasm tuple result");
                        }
                        let ghost tys = param_types(params@);
                        let mut outs: Vec<CanonicalValue> = Vec::new();
                        assert(items@.take(0) =~= Seq::<WasmValue>::empty());
                        assert(tys.take(0) =~= Seq::<CanonicalTypeRef>::empty());
                        for i in 0..items.len()
                            invariant
                                items@.len() == params@.len(),
                                tys == param_types(params@),
                                budget == registry.alias_budget(skill_name@),
                                outs@.len() == i,
                                from_wasm_tuple_failure(
                                    *registry,
                                    skill_name@,
                                    tys.take(i as int),
                                    items@.take(i as int),
                                ) is None,
                                forall|j: int|
                                    0 <= j < i ==> from_wasm(
                                        *registry,
                                        skill_name@,
                                        params@[j].ty,
                                        #[trigger] items@[j],
                                        budget as nat,
                                        outs@[j],
                                    ),
                        {
                            assert(items@.take(i + 1).drop_last() =~= items@.take(i as int));
                            assert(tys.take(i + 1).drop_last() =~= tys.take(i as int));
                            match wasmtime_val_to_canonical_value(
                                registry,
                                skill_name,
                                &params[i].ty,
                                &items[i],
                                budget,
                            ) {
                                Ok(x) => {
                                    outs.push(x);
                                },
                                Err(e) => {
                                    proof {
                                        lemma_from_wasm_tuple_prefix(
                                            *registry,
                                            skill_name@,
                                            tys,
                                            items@,
                                            i + 1,
                                        );
                                    }
                                    return Err(e);
                                },
                            }
                        }
                        assert(items@.take(items@.len() as int) =~= items@);
                        assert(tys.take(tys.len() as int) =~= tys);
                        Ok(CanonicalValue::Tuple(outs))
                    },
                    _ => fail("expected wasm tuple result"),
                }
            }
        },
    }
}

/// `<skill>.<action>`, the canonical id of an action of a skill.
pub open spec fn canonical_id(skill: Seq<char>, action: Seq<char>) -> Seq<char> {
    skill + "."@ + action
}

/// The message for a canonical call whose argument count does not match.
pub open spec fn argument_count_message(id: Seq<char>, expected: nat, received: nat) -> Seq<char> {
    "action '"@ + id + "' expected "@ + decimal(expected) + " argument(s) but received "@ + decimal(
        received,
    )
}

/// The first failure among converting the arguments `args` of canonical call
/// `id` for the parameters `params`: a missing argument or one that cannot be
/// converted.
pub open spec fn call_arguments_failure(
    reg: ActionRegistry,
    skill: Seq<char>,
    params: Seq<ActionParam>,
    args: Seq<(String, CanonicalValue)>,
    id: Seq<char>,
) -> Option<Seq<char>>
    decreases params.len(),
{
    if params.len() == 0 {
        None
    } else {
        match call_arguments_failure(reg, skill, params.drop_last(), args, id) {
            Some(e) => Some(e),
            None => {
                let p = params.last();
                match lookup(args, p.canonical_name@) {
                    None => Some(
                        "missing canonical argument '"@ + p.canonical_name@ + "' for action '"@ + id
                            + "'"@,
                    ),
                    Some(x) => to_wasm_failure(reg, skill, p.ty, x, reg.alias_budget(skill)),
                }
            },
        }
    }
}

/// A call whose arguments lack one of its parameters fails: so
/// `canonical_invocation_to_wasmtime_invocation` succeeds only when every
/// parameter of the action has an argument under its canonical name.
pub proof fn lemma_missing_argument_fails(
    reg: ActionRegistry,
    skill: Seq<char>,
    params: Seq<ActionParam>,
    args: Seq<(String, CanonicalValue)>,
    id: Seq<char>,
    i: int,
)
    requires
        0 <= i < params.len(),
        lookup(args, params[i].canonical_name@) is None,
    ensures
        call_arguments_failure(reg, skill, params, args, id) is Some,
    decreases params.len(),
{
    if i < params.len() - 1 {
        assert(params.drop_last()[i] == params[i]);
        lemma_missing_argument_fails(reg, skill, params.drop_last(), args, id, i);
    }
}

/// `w` is parameter `p`'s argument taken from `args` and converted.
pub open spec fn argument_to_wasm(
    reg: ActionRegistry,
    skill: Seq<char>,
    p: ActionParam,
    args: Seq<(String, CanonicalValue)>,
    w: WasmValue,
) -> bool {
    &&& lookup(args, p.canonical_name@) matches Some(x)
    &&& to_wasm(reg, skill, p.ty, x, reg.alias_budget(skill), w)
}

proof fn lemma_call_arguments_prefix(
    reg: ActionRegistry,
    skill: Seq<char>,
    params: Seq<ActionParam>,
    args: Seq<(String, CanonicalValue)>,
    id: Seq<char>,
    n: int,
)
    requires
        0 <= n <= params.len(),
        call_arguments_failure(reg, skill, params.take(n), args, id) is Some,
    ensures
        call_arguments_failure(reg, skill, params, args, id) == call_arguments_failure(
            reg,
            skill,
            params.take(n),
            args,
            id,
        ),
    decreases params.len() - n,
{
    if n < params.len() {
        assert(params.take(n + 1).drop_last() =~= params.take(n));
        lemma_call_arguments_prefix(reg, skill, params, args, id, n + 1);
    } else {
        assert(params.take(n) =~= params);
    }
}

impl WasmtimeAdapter {
    /// Converts a canonical invocation of an action of skill `skill_name`
    /// into a component call: the action is found by its canonical id, the
    /// number of arguments must match its parameters, and each parameter
    /// takes the argument under its canonical name, converted to its type,
    /// in parameter order.
    #[verifier::loop_isolation(false)]
    pub fn canonical_invocation_to_wasmtime_invocation(
        &self,
        skill_name: &str,
        invocation: &CanonicalInvocation,
    ) -> (r: Result<WasmtimeInvocation, BindingError>)
        requires
            sorted_keys(invocation.arguments@),
            forall|i: int|
                0 <= i < invocation.arguments@.len() ==> (#[trigger] invocation.arguments@[i]).1.wf(),
        ensures
            ({
                let id = canonical_id(skill_name@, invocation.action_name.0@);
                match self.registry().action_by_id(id) {
                    None => r matches Err(e) && e.message()@ == "unknown canonical action '"@ + id
                        + "'"@,
                    Some(d) => if invocation.arguments@.len() != d.params@.len() {
                        r matches Err(e) && e.message()@ == argument_count_message(
                            id,
                            d.params@.len(),
                            invocation.arguments@.len(),
                        )
                    } else {
                        match r {
                            Ok(wi) => call_arguments_failure(
                                self.registry(),
                                d.skill.skill_name@,
                                d.params@,
                                invocation.arguments@,
                                id,
                            ) is None && wi.locator.skill == d.skill && wi.locator.action_name
                                == d.action_name && wi.locator.canonical_action_id
                                == d.canonical_action_id && wi.export_name == d.action_name
                                && wi.arguments@.len() == d.params@.len() && forall|i: int|
                                0 <= i < d.params@.len() ==> argument_to_wasm(
                                    self.registry(),
                                    d.skill.skill_name@,
                                    #[trigger] d.params@[i],
                                    invocation.arguments@,
                                    wi.arguments@[i],
                                ),
                            Err(e) => call_arguments_failure(
                                self.registry(),
                                d.skill.skill_name@,
                                d.params@,
                                invocation.arguments@,
                                id,
                            ) == Some(e.message()@),
                        }
                    },
                }
            }),
    {
        let registry: &ActionRegistry = &self.registry;
        let mut id = String::new();
        string_push_str(&mut id, skill_name);
        string_push_str(&mut id, ".");
        string_push_str(&mut id, invocation.action_name.as_str());
        assert(id@ =~= canonical_id(skill_name@, invocation.action_name.0@));
        let action = match registry.resolve_canonical_action(id.as_str()) {
            Some(a) => a,
            None => {
                return Err(BindingError::new(quoted_message("unknown canonical action '", id.as_str())));
            },
        };
        if invocation.arguments.len() != action.params.len() {
            let mut m = "action '".to_owned();
            string_push_str(&mut m, id.as_str());
            string_push_str(&mut m, "' expected ");
            let expected = decimal_text(action.params.len() as u64);
            string_push_str(&mut m, expected.as_str());
            string_push_str(&mut m, " argument(s) but received ");
            let received = decimal_text(invocation.arguments.len() as u64);
            string_push_str(&mut m, received.as_str());
            assert(m@ =~= argument_count_message(
                id@,
                action.params@.len(),
                invocation.arguments@.len(),
            ));
            return Err(BindingError::new(m));
        }
        let action_skill = action.skill.skill_name.as_str();
        let budget = registry.alias_budget_of(action_skill);
        let ghost params = action.params@;
        let ghost args = invocation.arguments@;
        let mut arguments: Vec<WasmValue> = Vec::new();
        assert(params.take(0) =~= Seq::<ActionParam>::empty());
        for i in 0..action.params.len()
            invariant
                params == action.params@,
                args == invocation.arguments@,
                budget == registry.alias_budget(action_skill@),
                arguments@.len() == i,
                call_arguments_failure(*registry, action_skill@, params.take(i as int), args, id@)
                    is None,
                forall|j: int|
                    0 <= j < i ==> argument_to_wasm(
                        *registry,
                        action_skill@,
                        #[trigger] params[j],
                        args,
                        arguments@[j],
                    ),
        {
            let param = &action.params[i];
            assert(params.take(i + 1).drop_last() =~= params.take(i as int));
            let value = match assoc_get_unsorted(&invocation.arguments, param.canonical_name.as_str()) {
                Some(v) => v,
                None => {
                    let mut m = String::new();
                    string_push_str(&mut m, "missing canonical argument '");
                    string_push_str(&mut m, param.canonical_name.as_str());
                    let rest = quoted_message("' for action '", id.as_str());
                    string_push_str(&mut m, rest.as_str());
                    proof {
                        assert(m@ =~= "missing canonical argument '"@ + param.canonical_name@
                            + "' for action '"@ + id@ + "'"@);
                        lemma_call_arguments_prefix(*registry, action_skill@, params, args, id@, i + 1);
                    }
                    return Err(BindingError::new(m));
                },
            };
            match canonical_value_to_wasmtime_val(registry, action_skill, &param.ty, value, budget) {
                Ok(x) => {
                    arguments.push(x);
                    assert(argument_to_wasm(
                        *registry,
                        action_skill@,
                        params[i as int],
                        args,
                        arguments@[i as int],
                    ));
                },
                Err(e) => {
                    proof {
                        lemma_call_arguments_prefix(*registry, action_skill@, params, args, id@, i + 1);
                    }
                    return Err(e);
                },
            }
        }
        assert(params.take(params.len() as int) =~= params);
        Ok(
            WasmtimeInvocation {
                locator: action.locator(),
                export_name: action.action_name.clone(),
                arguments,
            },
        )
    }

    /// Reads back the component result of the action with canonical id
    /// `action_name`.
    pub fn wasmtime_value_to_canonical_value(&self, action_name: &str, value: &WasmValue) -> (r:
        Result<CanonicalValue, BindingError>)
        ensures
            match self.registry().action_by_id(action_name@) {
                None => r matches Err(e) && e.message()@ == "unknown action '"@ + action_name@ + "'"@,
                Some(d) => match r {
                    Ok(out) => wasm_result_failure(
                        self.registry(),
                        d.skill.skill_name@,
                        d.result,
                        *value,
                    ) is None && wasm_result_to(
                        self.registry(),
                        d.skill.skill_name@,
                        d.result,
                        *value,
                        out,
                    ),
                    Err(e) => wasm_result_failure(
                        self.registry(),
                        d.skill.skill_name@,
                        d.result,
                        *value,
                    ) == Some(e.message()@),
                },
            },
    {
        let registry: &ActionRegistry = &self.registry;
        let action = match registry.resolve_canonical_action(action_name) {
            Some(a) => a,
            None => {
                return Err(BindingError::new(quoted_message("unknown action '", action_name)));
            },
        };
        wasmtime_val_to_canonical_result(registry, action.skill.skill_name.as_str(), &action.result, value)
    }
}

} // verus!
