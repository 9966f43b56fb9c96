//! Values exchanged with the model and with skill components.
use vstd::prelude::*;

use crate::assoc::sorted_keys;

verus! {

/// A value on the model (Python) surface. In a well-formed value (`wf`) the
/// entries of every map and record come in ascending key order, each key
/// once, as a sorted map keeps them.
#[derive(Debug, PartialEq, Eq)]
pub enum Value {
    Null,
    Bool(bool),
    Int(i64),
    String(String),
    List(Vec<Value>),
    Tuple(Vec<Value>),
    Dict(Vec<(String, Value)>),
    Record { name: String, fields: Vec<(String, Value)> },
}

/// A value in the canonical (component model) shape. In a well-formed value
/// (`wf`) the fields of every record come in ascending name order, each name
/// once.
#[derive(Debug, PartialEq, Eq)]
pub enum CanonicalValue {
    Null,
    Bool(bool),
    S32(i32),
    S64(i64),
    U32(u32),
    U64(u64),
    String(String),
    List(Vec<CanonicalValue>),
    Record(Vec<(String, CanonicalValue)>),
    EnumCase(String),
    Tuple(Vec<CanonicalValue>),
}

impl Value {
    /// The value is well formed: the entries of every map and record in it,
    /// at any depth, come in ascending key order, each key once.
    pub open spec fn wf(self) -> bool
        decreases self,
    {
        match self {
            Value::List(xs) => forall|i: int| 0 <= i < xs@.len() ==> (#[trigger] xs@[i]).wf(),
            Value::Tuple(xs) => forall|i: int| 0 <= i < xs@.len() ==> (#[trigger] xs@[i]).wf(),
            Value::Dict(es) => sorted_keys(es@) && forall|i: int|
                0 <= i < es@.len() ==> (#[trigger] es@[i]).1.wf(),
            Value::Record { fields, .. } => sorted_keys(fields@) && forall|i: int|
                0 <= i < fields@.len() ==> (#[trigger] fields@[i]).1.wf(),
            _ => true,
        }
    }

    /// The two values are the same: equal scalars and strings, and the same
    /// items, entries and fields in the same order all the way down.
    pub closed spec fn same(self, other: Value) -> bool
        decreases self,
    {
        match self {
            Value::List(xs) => other matches Value::List(ys) && xs@.len() == ys@.len() && forall|i: int|
                0 <= i < xs@.len() ==> (#[trigger] xs@[i]).same(ys@[i]),
            Value::Tuple(xs) => other matches Value::Tuple(ys) && xs@.len() == ys@.len() && forall|i: int|
                0 <= i < xs@.len() ==> (#[trigger] xs@[i]).same(ys@[i]),
            Value::Dict(xs) => other matches Value::Dict(ys) && xs@.len() == ys@.len() && forall|i: int|
                0 <= i < xs@.len() ==> (#[trigger] xs@[i]).0 == ys@[i].0 && xs@[i].1.same(ys@[i].1),
            Value::Record { name, fields } => other matches Value::Record { name: n2, fields: f2 }
                && n2 == name && fields@.len() == f2@.len() && forall|i: int|
                0 <= i < fields@.len() ==> (#[trigger] fields@[i]).0 == f2@[i].0 && fields@[i].1.same(
                    f2@[i].1,
                ),
            _ => other == self,
        }
    }

    /// A copy of this value.
    pub fn copy(&self) -> (r: Value)
        ensures
            r.same(*self),
        decreases self,
    {
        match self {
            Value::Null => Value::Null,
            Value::Bool(b) => Value::Bool(*b),
            Value::Int(n) => Value::Int(*n),
            Value::String(s) => Value::String(s.clone()),
            Value::List(items) => Value::List(copy_values(items, self)),
            Value::Tuple(items) => Value::Tuple(copy_values(items, self)),
            Value::Dict(entries) => Value::Dict(copy_entries(entries, self)),
            Value::Record { name, fields } => Value::Record {
                name: name.clone(),
                fields: copy_entries(fields, self),
            },
        }
    }
}

fn copy_values(items: &Vec<Value>, whole: &Value) -> (r: Vec<Value>)
    requires
        forall|i: int| 0 <= i < items@.len() ==> decreases_to!(*whole => #[trigger] items@[i]),
    ensures
        r@.len() == items@.len(),
        forall|i: int| 0 <= i < items@.len() ==> (#[trigger] r@[i]).same(items@[i]),
    decreases whole, 0nat,
{
    let mut out: Vec<Value> = Vec::new();
    for i in 0..items.len()
        invariant
            forall|i: int| 0 <= i < items@.len() ==> decreases_to!(*whole => #[trigger] items@[i]),
            out@.len() == i,
            forall|j: int| 0 <= j < i ==> (#[trigger] out@[j]).same(items@[j]),
    {
        out.push(items[i].copy());
    }
    out
}

fn copy_entries(entries: &Vec<(String, Value)>, whole: &Value) -> (r: Vec<(String, Value)>)
    requires
        forall|i: int|
            0 <= i < entries@.len() ==> decreases_to!(*whole => (#[trigger] entries@[i]).1),
    ensures
        r@.len() == entries@.len(),
        forall|i: int|
            0 <= i < entries@.len() ==> (#[trigger] r@[i]).0 == entries@[i].0 && r@[i].1.same(
                entries@[i].1,
            ),
    decreases whole, 0nat,
{
    let mut out: Vec<(String, Value)> = Vec::new();
    for i in 0..entries.len()
        invariant
            forall|i: int|
                0 <= i < entries@.len() ==> decreases_to!(*whole => (#[trigger] entries@[i]).1),
            out@.len() == i,
            forall|j: int|
                0 <= j < i ==> (#[trigger] out@[j]).0 == entries@[j].0 && out@[j].1.same(entries@[j].1),
    {
        out.push((entries[i].0.clone(), entries[i].1.copy()));
    }
    out
}

impl Clone for Value {
    fn clone(&self) -> (r: Self)
        ensures
            r.same(*self),
    {
        self.copy()
    }
}

impl CanonicalValue {
    /// The value is well formed: the fields of every record in it, at any
    /// depth, come in ascending name order, each name once.
    pub open spec fn wf(self) -> bool
        decreases self,
    {
        match self {
            CanonicalValue::List(xs) => forall|i: int| 0 <= i < xs@.len() ==> (#[trigger] xs@[i]).wf(),
            CanonicalValue::Tuple(xs) => forall|i: int| 0 <= i < xs@.len() ==> (#[trigger] xs@[i]).wf(),
            CanonicalValue::Record(fs) => sorted_keys(fs@) && forall|i: int|
                0 <= i < fs@.len() ==> (#[trigger] fs@[i]).1.wf(),
            _ => true,
        }
    }

    /// The two values are the same: equal scalars and strings, and the same
    /// items and fields in the same order all the way down.
    pub closed spec fn same(self, other: CanonicalValue) -> bool
        decreases self,
    {
        match self {
            CanonicalValue::List(xs) => other matches CanonicalValue::List(ys) && xs@.len() == ys@.len()
                && forall|i: int| 0 <= i < xs@.len() ==> (#[trigger] xs@[i]).same(ys@[i]),
            CanonicalValue::Tuple(xs) => other matches CanonicalValue::Tuple(ys) && xs@.len()
                == ys@.len() && forall|i: int| 0 <= i < xs@.len() ==> (#[trigger] xs@[i]).same(ys@[i]),
            CanonicalValue::Record(xs) => other matches CanonicalValue::Record(ys) && xs@.len()
                == ys@.len() && forall|i: int|
                0 <= i < xs@.len() ==> (#[trigger] xs@[i]).0 == ys@[i].0 && xs@[i].1.same(ys@[i].1),
            _ => other == self,
        }
    }

    /// A copy of this value.
    pub fn copy(&self) -> (r: CanonicalValue)
        ensures
            r.same(*self),
        decreases self,
    {
        match self {
            CanonicalValue::Null => CanonicalValue::Null,
            CanonicalValue::Bool(b) => CanonicalValue::Bool(*b),
            CanonicalValue::S32(n) => CanonicalValue::S32(*n),
            CanonicalValue::S64(n) => CanonicalValue::S64(*n),
            CanonicalValue::U32(n) => CanonicalValue::U32(*n),
            CanonicalValue::U64(n) => CanonicalValue::U64(*n),
            CanonicalValue::String(s) => CanonicalValue::String(s.clone()),
            CanonicalValue::List(items) => CanonicalValue::List(copy_canonical_values(items, self)),
            CanonicalValue::Record(fields) => CanonicalValue::Record(
                copy_canonical_entries(fields, self),
            ),
            CanonicalValue::EnumCase(s) => CanonicalValue::EnumCase(s.clone()),
            CanonicalValue::Tuple(items) => CanonicalValue::Tuple(
                copy_canonical_values(items, self),
            ),
        }
    }
}

fn copy_canonical_values(items: &Vec<CanonicalValue>, whole: &CanonicalValue) -> (r: Vec<
    CanonicalValue,
>)
    requires
        forall|i: int| 0 <= i < items@.len() ==> decreases_to!(*whole => #[trigger] items@[i]),
    ensures
        r@.len() == items@.len(),
        forall|i: int| 0 <= i < items@.len() ==> (#[trigger] r@[i]).same(items@[i]),
    decreases whole, 0nat,
{
    let mut out: Vec<CanonicalValue> = Vec::new();
    for i in 0..items.len()
        invariant
            forall|i: int| 0 <= i < items@.len() ==> decreases_to!(*whole => #[trigger] items@[i]),
            out@.len() == i,
            forall|j: int| 0 <= j < i ==> (#[trigger] out@[j]).same(items@[j]),
    {
        out.push(items[i].copy());
    }
    out
}

fn copy_canonical_entries(entries: &Vec<(String, CanonicalValue)>, whole: &CanonicalValue) -> (r:
    Vec<(String, CanonicalValue)>)
    requires
        forall|i: int|
            0 <= i < entries@.len() ==> decreases_to!(*whole => (#[trigger] entries@[i]).1),
    ensures
        r@.len() == entries@.len(),
        forall|i: int|
            0 <= i < entries@.len() ==> (#[trigger] r@[i]).0 == entries@[i].0 && r@[i].1.same(
                entries@[i].1,
            ),
    decreases whole, 0nat,
{
    let mut out: Vec<(String, CanonicalValue)> = Vec::new();
    for i in 0..entries.len()
        invariant
            forall|i: int|
                0 <= i < entries@.len() ==> decreases_to!(*whole => (#[trigger] entries@[i]).1),
            out@.len() == i,
            forall|j: int|
                0 <= j < i ==> (#[trigger] out@[j]).0 == entries@[j].0 && out@[j].1.same(entries@[j].1),
    {
        out.push((entries[i].0.clone(), entries[i].1.copy()));
    }
    out
}

impl Clone for CanonicalValue {
    fn clone(&self) -> (r: Self)
        ensures
            r.same(*self),
    {
        self.copy()
    }
}

} // verus!
