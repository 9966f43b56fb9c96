//! Lifting a lowered model value gives the value back.
use vstd::prelude::*;

use crate::assoc::{has_key, lookup, sorted_keys};
use crate::canonical::adapters::{
    last_of_name, last_python_before, lemma_lookup_is_entry, lift_failure, lift_items_failure,
    lift_record_failure, lift_tuple_failure, lifts_to, lower_failure, lower_items_failure,
    lower_record_failure, lower_tuple_failure, lowers_to,
};
use crate::canonical::ir::{CanonicalField, CanonicalPrimitiveType, CanonicalTypeDefKind, CanonicalTypeRef};
use crate::canonical::naming::python_name;
use crate::canonical::registry::ActionRegistry;
use crate::domain::value::{CanonicalValue, Value};

verus! {

/// No two fields have the same Python name.
pub open spec fn python_names_distinct(fields: Seq<CanonicalField>) -> bool {
    forall|i: int, j: int|
        #![trigger fields[i], fields[j]]
        0 <= i < j < fields.len() ==> python_name(fields[i].name@) != python_name(fields[j].name@)
}

/// The maps of `v` fit the record types `v` is lowered at, as type `ty`:
/// each holds exactly the Python names of its record's fields, in ascending
/// order, each once, the fields have distinct Python names, and each entry
/// fits its field's type in turn.
pub open spec fn fits(reg: ActionRegistry, skill: Seq<char>, ty: CanonicalTypeRef, v: Value, steps: nat) -> bool
    decreases v, steps, ty,
{
    match ty {
        CanonicalTypeRef::List(inner) => match v {
            Value::List(items) => forall|i: int|
                0 <= i < items@.len() ==> fits(
                    reg,
                    skill,
                    *inner,
                    #[trigger] items@[i],
                    reg.alias_budget(skill),
                ),
            _ => true,
        },
        CanonicalTypeRef::Option(inner) => if v is Null {
            true
        } else {
            fits(reg, skill, *inner, v, steps)
        },
        CanonicalTypeRef::Tuple(tys) => match v {
            Value::List(values) => forall|i: int|
                0 <= i < values@.len() && i < tys@.len() ==> fits(
                    reg,
                    skill,
                    tys@[i],
                    #[trigger] values@[i],
                    reg.alias_budget(skill),
                ),
            _ => true,
        },
        CanonicalTypeRef::Named(name) => match reg.type_in_skill(skill, name@) {
            Some(def) => match def.kind {
                CanonicalTypeDefKind::Alias(t) => if steps == 0 {
                    true
                } else {
                    fits(reg, skill, t, v, (steps - 1) as nat)
                },
                CanonicalTypeDefKind::Record(rec) => match v {
                    Value::Dict(d) => {
                        &&& sorted_keys(d@)
                        &&& python_names_distinct(rec.fields@)
                        &&& forall|k: Seq<char>| #[trigger]
                            has_key(d@, k) == exists|i: int|
                                0 <= i < rec.fields@.len() && python_name(
                                    (#[trigger] rec.fields@[i]).name@,
                                ) == k
                        &&& forall|i: int|
                            0 <= i < rec.fields@.len() ==> match lookup(
                                d@,
                                python_name((#[trigger] rec.fields@[i]).name@),
                            ) {
                                Some(x) => {
                                    proof {
                                        lemma_lookup_is_entry(d@, python_name(rec.fields@[i].name@));
                                        let j = choose|j: int| 0 <= j < d@.len() && (#[trigger] d@[j]).1 == x;
                                        assert(decreases_to!(d@ => d@[j]));
                                    }
                                    fits(reg, skill, rec.fields@[i].ty, x, reg.alias_budget(skill))
                                },
                                None => true,
                            }
                    },
                    _ => true,
                },
                _ => true,
            },
            None => true,
        },
        _ => true,
    }
}

/// Each field of a record that lowers without failure has its entry, which
/// lowers without failure.
proof fn lemma_fields_lower(
    reg: ActionRegistry,
    skill: Seq<char>,
    name: Seq<char>,
    fields: Seq<CanonicalField>,
    d: Seq<(String, Value)>,
    i: int,
)
    requires
        lower_record_failure(reg, skill, name, fields, d) is None,
        0 <= i < fields.len(),
    ensures
        lookup(d, python_name(fields[i].name@)) matches Some(x) && lower_failure(
            reg,
            skill,
            fields[i].ty,
            x,
            reg.alias_budget(skill),
        ) is None,
    decreases fields.len(),
{
    if i < fields.len() - 1 {
        assert(fields.drop_last()[i] == fields[i]);
        lemma_fields_lower(reg, skill, name, fields.drop_last(), d, i);
    }
}

/// No list item fails to lower when the list does not.
proof fn lemma_items_lower(reg: ActionRegistry, skill: Seq<char>, inner: CanonicalTypeRef, items: Seq<Value>, i: int)
    requires
        lower_items_failure(reg, skill, inner, items) is None,
        0 <= i < items.len(),
    ensures
        lower_failure(reg, skill, inner, items[i], reg.alias_budget(skill)) is None,
    decreases items.len(),
{
    if i < items.len() - 1 {
        assert(items.drop_last()[i] == items[i]);
        lemma_items_lower(reg, skill, inner, items.drop_last(), i);
    }
}

/// No tuple member fails to lower when the tuple does not.
proof fn lemma_members_lower(
    reg: ActionRegistry,
    skill: Seq<char>,
    tys: Seq<CanonicalTypeRef>,
    values: Seq<Value>,
    i: int,
)
    requires
        lower_tuple_failure(reg, skill, tys, values) is None,
        values.len() == tys.len(),
        0 <= i < values.len(),
    ensures
        lower_failure(reg, skill, tys[i], values[i], reg.alias_budget(skill)) is None,
    decreases values.len(),
{
    if i < values.len() - 1 {
        assert(values.drop_last()[i] == values[i]);
        assert(tys.drop_last()[i] == tys[i]);
        lemma_members_lower(reg, skill, tys.drop_last(), values.drop_last(), i);
    }
}

/// A list whose items each lift without failure lifts without failure.
proof fn lemma_items_lift(reg: ActionRegistry, skill: Seq<char>, inner: CanonicalTypeRef, items: Seq<CanonicalValue>)
    requires
        forall|i: int|
            0 <= i < items.len() ==> lift_failure(reg, skill, inner, #[trigger] items[i], reg.alias_budget(skill))
                is None,
    ensures
        lift_items_failure(reg, skill, inner, items) is None,
    decreases items.len(),
{
    if items.len() > 0 {
        let t = items.drop_last();
        assert forall|i: int| 0 <= i < t.len() implies lift_failure(reg, skill, inner, #[trigger] t[i], reg.alias_budget(skill))
            is None by {
            assert(t[i] == items[i]);
        }
        lemma_items_lift(reg, skill, inner, t);
        assert(items.last() == items[items.len() - 1]);
    }
}

/// A tuple whose members each lift without failure lifts without failure.
proof fn lemma_members_lift(
    reg: ActionRegistry,
    skill: Seq<char>,
    tys: Seq<CanonicalTypeRef>,
    values: Seq<CanonicalValue>,
)
    requires
        values.len() == tys.len(),
        forall|i: int|
            0 <= i < values.len() ==> lift_failure(reg, skill, tys[i], #[trigger] values[i], reg.alias_budget(skill))
                is None,
    ensures
        lift_tuple_failure(reg, skill, tys, values) is None,
    decreases values.len(),
{
    if values.len() > 0 {
        let (tt, tv) = (tys.drop_last(), values.drop_last());
        assert forall|i: int| 0 <= i < tv.len() implies lift_failure(reg, skill, tt[i], #[trigger] tv[i], reg.alias_budget(skill))
            is None by {
            assert(tt[i] == tys[i] && tv[i] == values[i]);
        }
        lemma_members_lift(reg, skill, tt, tv);
        assert(values.last() == values[values.len() - 1] && tys.last() == tys[tys.len() - 1]);
    }
}

/// A record each of whose fields has an entry that lifts without failure
/// lifts without failure.
proof fn lemma_fields_lift(
    reg: ActionRegistry,
    skill: Seq<char>,
    name: Seq<char>,
    fields: Seq<CanonicalField>,
    d: Seq<(String, CanonicalValue)>,
)
    requires
        forall|i: int|
            0 <= i < fields.len() ==> (lookup(d, (#[trigger] fields[i]).name@) matches Some(x) && lift_failure(
                reg,
                skill,
                fields[i].ty,
                x,
                reg.alias_budget(skill),
            ) is None),
    ensures
        lift_record_failure(reg, skill, name, fields, d) is None,
    decreases fields.len(),
{
    if fields.len() > 0 {
        let t = fields.drop_last();
        assert forall|i: int| 0 <= i < t.len() implies (lookup(d, (#[trigger] t[i]).name@) matches Some(x)
            && lift_failure(reg, skill, t[i].ty, x, reg.alias_budget(skill)) is None) by {
            assert(t[i] == fields[i]);
        }
        lemma_fields_lift(reg, skill, name, t, d);
        assert(fields.last() == fields[fields.len() - 1]);
    }
}

/// Lifting undoes lowering: a model value whose maps fit their record types
/// (see `fits`) and that lowers without failure to `c` at type `ty` is what
/// `c` lifts to, without failure, at that type; and a value other than
/// `None` does not lower to `None`.
pub proof fn lemma_lift_undoes_lower(
    reg: ActionRegistry,
    skill: Seq<char>,
    ty: CanonicalTypeRef,
    v: Value,
    steps: nat,
    c: CanonicalValue,
)
    requires
        lower_failure(reg, skill, ty, v, steps) is None,
        lowers_to(reg, skill, ty, v, steps, c),
        fits(reg, skill, ty, v, steps),
    ensures
        lift_failure(reg, skill, ty, c, steps) is None,
        lifts_to(reg, skill, ty, c, steps, v),
        !(v is Null) ==> !(c is Null),
    decreases v, steps, ty,
{
    match ty {
        CanonicalTypeRef::Primitive(p) => match p {
            CanonicalPrimitiveType::S32 => {
                let n = v->Int_0;
                assert(((n as i32) as i64) == n) by (bit_vector)
                    requires
                        -0x8000_0000 <= n <= 0x7fff_ffff,
                ;
            },
            CanonicalPrimitiveType::U32 => {
                let n = v->Int_0;
                assert(((n as u32) as i64) == n) by (bit_vector)
                    requires
                        0 <= n <= 0xffff_ffff,
                ;
            },
            CanonicalPrimitiveType::U64 | CanonicalPrimitiveType::U16 | CanonicalPrimitiveType::U8 => {
                let n = v->Int_0;
                assert(((n as u64) as i64) == n && (n as u64) <= 0x7fff_ffff_ffff_ffff) by (bit_vector)
                    requires
                        0 <= n,
                ;
            },
            _ => {},
        },
        CanonicalTypeRef::List(inner) => {
            let items = v->List_0;
            let outs = c->List_0;
            let budget = reg.alias_budget(skill);
            assert forall|i: int| 0 <= i < outs@.len() implies lift_failure(
                reg,
                skill,
                *inner,
                #[trigger] outs@[i],
                budget,
            ) is None && lifts_to(reg, skill, *inner, outs@[i], budget, items@[i]) by {
                lemma_items_lower(reg, skill, *inner, items@, i);
                assert(decreases_to!(v => items@[i]));
                lemma_lift_undoes_lower(reg, skill, *inner, items@[i], budget, outs@[i]);
            }
            lemma_items_lift(reg, skill, *inner, outs@);
        },
        CanonicalTypeRef::Option(inner) => {
            if !(v is Null) {
                lemma_lift_undoes_lower(reg, skill, *inner, v, steps, c);
            }
        },
        CanonicalTypeRef::Tuple(tys) => {
            let values = v->List_0;
            let outs = c->Tuple_0;
            let budget = reg.alias_budget(skill);
            assert forall|i: int| 0 <= i < outs@.len() implies lift_failure(
                reg,
                skill,
                tys@[i],
                #[trigger] outs@[i],
                budget,
            ) is None && lifts_to(reg, skill, tys@[i], outs@[i], budget, values@[i]) by {
                lemma_members_lower(reg, skill, tys@, values@, i);
                assert(decreases_to!(v => values@[i]));
                lemma_lift_undoes_lower(reg, skill, tys@[i], values@[i], budget, outs@[i]);
            }
            lemma_members_lift(reg, skill, tys@, outs@);
        },
        CanonicalTypeRef::Named(name) => match reg.type_in_skill(skill, name@) {
            Some(def) => match def.kind {
                CanonicalTypeDefKind::Alias(t) => {
                    lemma_lift_undoes_lower(reg, skill, t, v, (steps - 1) as nat, c);
                },
                CanonicalTypeDefKind::Record(rec) => {
                    let d = v->Dict_0;
                    let fs = c->Record_0;
                    let fields = rec.fields@;
                    let budget = reg.alias_budget(skill);
                    assert forall|i: int| 0 <= i < fields.len() implies (lookup(
                        fs@,
                        (#[trigger] fields[i]).name@,
                    ) matches Some(y) && lookup(d@, python_name(fields[i].name@)) matches Some(x)
                        && lift_failure(reg, skill, fields[i].ty, y, budget) is None && lifts_to(
                        reg,
                        skill,
                        fields[i].ty,
                        y,
                        budget,
                        x,
                    )) by {
                        assert(last_of_name(fields, i)) by {
                            assert forall|j: int| i < j < fields.len() implies (#[trigger] fields[j]).name@
                                != fields[i].name@ by {
                                assert(python_name(fields[i].name@) != python_name(fields[j].name@));
                            }
                        }
                        lemma_fields_lower(reg, skill, name@, fields, d@, i);
                        let x = lookup(d@, python_name(fields[i].name@))->Some_0;
                        let y = lookup(fs@, fields[i].name@)->Some_0;
                        lemma_lookup_is_entry(d@, python_name(fields[i].name@));
                        let j = choose|j: int| 0 <= j < d@.len() && (#[trigger] d@[j]).1 == x;
                        assert(decreases_to!(v => x)) by {
                            assert(decreases_to!(d@ => d@[j]));
                        }
                        lemma_lift_undoes_lower(reg, skill, fields[i].ty, x, budget, y);
                    }
                    lemma_fields_lift(reg, skill, name@, fields, fs@);
                },
                _ => {},
            },
            None => {},
        },
        _ => {},
    }
}

} // verus!
