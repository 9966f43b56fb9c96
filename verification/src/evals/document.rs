//! Structured document values (YAML/JSON data) as eval specs and action
//! arguments carry them, with the equality YAML documents have.
use vstd::prelude::*;

use crate::text::{chars_of, str_eq};

verus! {

/// A number of a document: a non-negative or a negative integer, or a
/// floating-point number kept as its IEEE-754 bits.
#[derive(Debug, Clone, Copy, PartialEq, Eq, Structural)]
pub enum DocNumber {
    PosInt(u64),
    NegInt(i64),
    Float { bits: u64 },
}

/// A document value.
#[derive(Debug, PartialEq, Eq)]
pub enum DocValue {
    Null,
    Bool(bool),
    Number(DocNumber),
    String(String),
    Sequence(Vec<DocValue>),
    Mapping(Vec<(DocValue, DocValue)>),
    Tagged { tag: String, value: Box<DocValue> },
}

/// The bits of a NaN: all exponent bits set and a non-zero fraction.
pub open spec fn is_nan_bits(b: u64) -> bool {
    (b & 0x7ff0_0000_0000_0000u64) == 0x7ff0_0000_0000_0000u64 && (b & 0x000f_ffff_ffff_ffffu64)
        != 0
}

/// Two floating-point numbers are equal as documents: both NaN (a document
/// has a single NaN), or equal as numbers: the same bits, or both zeros.
pub open spec fn float_eq(a: u64, b: u64) -> bool {
    if is_nan_bits(a) || is_nan_bits(b) {
        is_nan_bits(a) && is_nan_bits(b)
    } else {
        a == b || ((a & 0x7fff_ffff_ffff_ffffu64) == 0 && (b & 0x7fff_ffff_ffff_ffffu64) == 0)
    }
}

/// Two numbers are equal as documents: the same kind and equal values.
pub open spec fn number_eq(a: DocNumber, b: DocNumber) -> bool {
    match (a, b) {
        (DocNumber::PosInt(x), DocNumber::PosInt(y)) => x == y,
        (DocNumber::NegInt(x), DocNumber::NegInt(y)) => x == y,
        (DocNumber::Float { bits: x }, DocNumber::Float { bits: y }) => float_eq(x, y),
        _ => false,
    }
}

/// A tag without its leading `!` (a lone `!` is kept).
pub open spec fn nobang(t: Seq<char>) -> Seq<char> {
    if t.len() > 1 && t[0] == '!' {
        t.drop_first()
    } else {
        t
    }
}

/// Document equality: scalars by value, sequences item by item, mappings as
/// maps (as many entries, and each key of one found in the other with an
/// equal value), tagged values by tag (without its `!`) and value.
pub open spec fn doc_eq(a: DocValue, b: DocValue) -> bool
    decreases a, 0nat,
{
    match (a, b) {
        (DocValue::Null, DocValue::Null) => true,
        (DocValue::Bool(x), DocValue::Bool(y)) => x == y,
        (DocValue::Number(x), DocValue::Number(y)) => number_eq(x, y),
        (DocValue::String(x), DocValue::String(y)) => x@ == y@,
        (DocValue::Sequence(xs), DocValue::Sequence(ys)) => xs@.len() == ys@.len() && forall|i: int|
            0 <= i < xs@.len() ==> doc_eq(#[trigger] xs@[i], ys@[i]),
        (DocValue::Mapping(xs), DocValue::Mapping(ys)) => xs@.len() == ys@.len() && forall|i: int|
            0 <= i < xs@.len() ==> (map_get(ys@, (#[trigger] xs@[i]).0) matches Some(v) && doc_eq(
                xs@[i].1,
                v,
            )),
        (DocValue::Tagged { tag: t, value: v }, DocValue::Tagged { tag: u, value: w }) => nobang(
            t@,
        ) == nobang(u@) && doc_eq(*v, *w),
        _ => false,
    }
}

/// The value of the first entry of `m` whose key equals `k`.
pub open spec fn map_get(m: Seq<(DocValue, DocValue)>, k: DocValue) -> Option<DocValue>
    decreases k, m.len(),
{
    if m.len() == 0 {
        None
    } else if doc_eq(k, m[0].0) {
        Some(m[0].1)
    } else {
        map_get(m.drop_first(), k)
    }
}

/// Whether a tag, without its `!`, is the same as another.
fn same_tag(t: &str, u: &str) -> (r: bool)
    ensures
        r == (nobang(t@) == nobang(u@)),
{
    let x = chars_of(t);
    let y = chars_of(u);
    let xs: usize = if x.len() > 1 && x[0] == '!' {
        1
    } else {
        0
    };
    let ys: usize = if y.len() > 1 && y[0] == '!' {
        1
    } else {
        0
    };
    if x.len() - xs != y.len() - ys {
        assert(nobang(t@).len() != nobang(u@).len());
        return false;
    }
    let n = x.len() - xs;
    let mut i: usize = 0;
    while i < n
        invariant
            x@ == t@,
            y@ == u@,
            n == x@.len() - xs,
            n == y@.len() - ys,
            xs <= 1,
            ys <= 1,
            nobang(t@) =~= x@.skip(xs as int),
            nobang(u@) =~= y@.skip(ys as int),
            forall|j: int| 0 <= j < i ==> #[trigger] nobang(t@)[j] == nobang(u@)[j],
            i <= n,
        decreases n - i,
    {
        assert(nobang(t@)[i as int] == x@[i + xs]);
        assert(nobang(u@)[i as int] == y@[i + ys]);
        if x[i + xs] != y[i + ys] {
            return false;
        }
        i = i + 1;
    }
    assert(nobang(t@) =~= nobang(u@));
    true
}

/// Whether two numbers are equal as documents.
pub fn numbers_equal(a: DocNumber, b: DocNumber) -> (r: bool)
    ensures
        r == number_eq(a, b),
{
    match (a, b) {
        (DocNumber::PosInt(x), DocNumber::PosInt(y)) => x == y,
        (DocNumber::NegInt(x), DocNumber::NegInt(y)) => x == y,
        (DocNumber::Float { bits: x }, DocNumber::Float { bits: y }) => {
            let xn = (x & 0x7ff0_0000_0000_0000u64) == 0x7ff0_0000_0000_0000u64 && (x
                & 0x000f_ffff_ffff_ffffu64) != 0;
            let yn = (y & 0x7ff0_0000_0000_0000u64) == 0x7ff0_0000_0000_0000u64 && (y
                & 0x000f_ffff_ffff_ffffu64) != 0;
            if xn || yn {
                xn && yn
            } else {
                x == y || ((x & 0x7fff_ffff_ffff_ffffu64) == 0 && (y & 0x7fff_ffff_ffff_ffffu64)
                    == 0)
            }
        },
        _ => false,
    }
}

/// Whether two document values are equal as documents.
pub fn docs_equal(a: &DocValue, b: &DocValue) -> (r: bool)
    ensures
        r == doc_eq(*a, *b),
    decreases *a, 0nat,
{
    match (a, b) {
        (DocValue::Null, DocValue::Null) => true,
        (DocValue::Bool(x), DocValue::Bool(y)) => *x == *y,
        (DocValue::Number(x), DocValue::Number(y)) => numbers_equal(*x, *y),
        (DocValue::String(x), DocValue::String(y)) => str_eq(x.as_str(), y.as_str()),
        (DocValue::Sequence(xs), DocValue::Sequence(ys)) => {
            if xs.len() != ys.len() {
                return false;
            }
            for i in 0..xs.len()
                invariant
                    *a == DocValue::Sequence(*xs),
                    *b == DocValue::Sequence(*ys),
                    xs@.len() == ys@.len(),
                    forall|j: int| 0 <= j < i ==> doc_eq(#[trigger] xs@[j], ys@[j]),
            {
                proof {
                    assert(decreases_to!(*a => (*a)->Sequence_0));
                }
                if !docs_equal(&xs[i], &ys[i]) {
                    assert(!doc_eq(xs@[i as int], ys@[i as int]));
                    return false;
                }
            }
            true
        },
        (DocValue::Mapping(xs), DocValue::Mapping(ys)) => {
            if xs.len() != ys.len() {
                return false;
            }
            for i in 0..xs.len()
                invariant
                    *a == DocValue::Mapping(*xs),
                    *b == DocValue::Mapping(*ys),
                    xs@.len() == ys@.len(),
                    forall|j: int|
                        0 <= j < i ==> (map_get(ys@, (#[trigger] xs@[j]).0) matches Some(v)
                            && doc_eq(xs@[j].1, v)),
            {
                proof {
                    assert(decreases_to!(*a => (*a)->Mapping_0));
                }
                match mapping_get(ys, &xs[i].0) {
                    Some(v) => {
                        if !docs_equal(&xs[i].1, v) {
                            assert(map_get(ys@, xs@[i as int].0) == Some(*v));
                            return false;
                        }
                    },
                    None => {
                        assert(map_get(ys@, xs@[i as int].0) is None);
                        return false;
                    },
                }
            }
            true
        },
        (DocValue::Tagged { tag: t, value: v }, DocValue::Tagged { tag: u, value: w }) => {
            same_tag(t.as_str(), u.as_str()) && docs_equal(&**v, &**w)
        },
        _ => false,
    }
}

/// The value of the first entry of a mapping whose key equals `k`.
pub fn mapping_get<'a>(m: &'a Vec<(DocValue, DocValue)>, k: &DocValue) -> (r: Option<&'a DocValue>)
    ensures
        match r {
            Some(v) => map_get(m@, *k) == Some(*v),
            None => map_get(m@, *k) is None,
        },
    decreases *k, m@.len() + 1,
{
    let mut i: usize = 0;
    assert(m@.skip(0) =~= m@);
    while i < m.len()
        invariant
            i <= m@.len(),
            map_get(m@, *k) == map_get(m@.skip(i as int), *k),
        decreases m@.len() - i,
    {
        assert(m@.skip(i as int).drop_first() =~= m@.skip(i + 1));
        assert(m@.skip(i as int)[0] == m@[i as int]);
        if docs_equal(k, &m[i].0) {
            return Some(&m[i].1);
        }
        i = i + 1;
    }
    None
}

/// A document value with its strings as character sequences and its
/// sequences and mappings as `Seq`s.
pub enum DocView {
    Null,
    Bool(bool),
    Number(DocNumber),
    String(Seq<char>),
    Sequence(Seq<DocView>),
    Mapping(Seq<(DocView, DocView)>),
    Tagged { tag: Seq<char>, value: Box<DocView> },
}

/// The view of a document value.
pub open spec fn doc_view(v: DocValue) -> DocView
    decreases v,
{
    match v {
        DocValue::Null => DocView::Null,
        DocValue::Bool(b) => DocView::Bool(b),
        DocValue::Number(n) => DocView::Number(n),
        DocValue::String(s) => DocView::String(s@),
        DocValue::Sequence(xs) => DocView::Sequence(doc_views(xs@)),
        DocValue::Mapping(xs) => DocView::Mapping(entry_views(xs@)),
        DocValue::Tagged { tag, value } => DocView::Tagged {
            tag: tag@,
            value: Box::new(doc_view(*value)),
        },
    }
}

/// The views of a list of documents, one by one.
pub open spec fn doc_views(xs: Seq<DocValue>) -> Seq<DocView>
    decreases xs,
{
    Seq::new(
        xs.len(),
        |i: int|
            if 0 <= i < xs.len() {
                doc_view(xs[i])
            } else {
                DocView::Null
            },
    )
}

/// The views of a mapping's entries, one by one.
pub open spec fn entry_views(xs: Seq<(DocValue, DocValue)>) -> Seq<(DocView, DocView)>
    decreases xs,
{
    Seq::new(
        xs.len(),
        |i: int|
            if 0 <= i < xs.len() {
                (doc_view(xs[i].0), doc_view(xs[i].1))
            } else {
                (DocView::Null, DocView::Null)
            },
    )
}

/// A mapping document of string keys and string values.
pub open spec fn string_mapping(entries: Seq<(Seq<char>, Seq<char>)>) -> DocView {
    DocView::Mapping(
        Seq::new(entries.len(), |i: int| (DocView::String(entries[i].0), DocView::String(entries[i].1))),
    )
}

/// A mapping document of string keys and string values, in the given order.
pub fn string_mapping_doc(entries: &Vec<(String, String)>) -> (r: DocValue)
    ensures
        doc_view(r) == string_mapping(entries@.map_values(|e: (String, String)| (e.0@, e.1@))),
{
    let mut out: Vec<(DocValue, DocValue)> = Vec::new();
    for i in 0..entries.len()
        invariant
            out@.len() == i,
            forall|j: int|
                0 <= j < i ==> doc_view((#[trigger] out@[j]).0) == DocView::String(entries@[j].0@)
                    && doc_view(out@[j].1) == DocView::String(entries@[j].1@),
    {
        out.push((DocValue::String(entries[i].0.clone()), DocValue::String(entries[i].1.clone())));
    }
    let ghost es = entries@.map_values(|e: (String, String)| (e.0@, e.1@));
    assert(entry_views(out@) =~= Seq::new(
        es.len(),
        |i: int| (DocView::String(es[i].0), DocView::String(es[i].1)),
    ));
    DocValue::Mapping(out)
}

impl DocValue {
    /// A copy of this value.
    pub fn copy(&self) -> (r: DocValue)
        ensures
            doc_view(r) == doc_view(*self),
        decreases self,
    {
        match self {
            DocValue::Null => DocValue::Null,
            DocValue::Bool(b) => DocValue::Bool(*b),
            DocValue::Number(n) => DocValue::Number(*n),
            DocValue::String(s) => DocValue::String(s.clone()),
            DocValue::Sequence(items) => {
                let mut out: Vec<DocValue> = Vec::new();
                for i in 0..items.len()
                    invariant
                        *self == DocValue::Sequence(*items),
                        out@.len() == i,
                        forall|j: int| 0 <= j < i ==> doc_view(#[trigger] out@[j]) == doc_view(items@[j]),
                {
                    proof {
                        assert(decreases_to!(*self => (*self)->Sequence_0));
                    }
                    out.push(items[i].copy());
                }
                assert(doc_views(out@) =~= doc_views(items@));
                DocValue::Sequence(out)
            },
            DocValue::Mapping(entries) => {
                let mut out: Vec<(DocValue, DocValue)> = Vec::new();
                for i in 0..entries.len()
                    invariant
                        *self == DocValue::Mapping(*entries),
                        out@.len() == i,
                        forall|j: int|
                            0 <= j < i ==> doc_view((#[trigger] out@[j]).0) == doc_view(entries@[j].0)
                                && doc_view(out@[j].1) == doc_view(entries@[j].1),
                {
                    proof {
                        assert(decreases_to!(*self => (*self)->Mapping_0));
                    }
                    out.push((entries[i].0.copy(), entries[i].1.copy()));
                }
                assert(entry_views(out@) =~= entry_views(entries@));
                DocValue::Mapping(out)
            },
            DocValue::Tagged { tag, value } => DocValue::Tagged {
                tag: tag.clone(),
                value: Box::new((**value).copy()),
            },
        }
    }
}

impl Clone for DocValue {
    fn clone(&self) -> (r: Self)
        ensures
            doc_view(r) == doc_view(*self),
    {
        self.copy()
    }
}

/// The value under string key `key` of a mapping's entries: the first entry
/// whose key is that string.
pub open spec fn string_key_get(m: Seq<(DocValue, DocValue)>, key: Seq<char>) -> Option<DocValue>
    decreases m.len(),
{
    if m.len() == 0 {
        None
    } else if m[0].0 matches DocValue::String(s) && s@ == key {
        Some(m[0].1)
    } else {
        string_key_get(m.drop_first(), key)
    }
}

/// The field `key` of an object (`Value::get` with a string key); none for
/// anything but a mapping.
pub open spec fn field_of(v: DocValue, key: Seq<char>) -> Option<DocValue> {
    match v {
        DocValue::Mapping(m) => string_key_get(m@, key),
        _ => None,
    }
}

/// The characters of a string value (`Value::as_str`).
pub open spec fn str_of(v: Option<DocValue>) -> Option<Seq<char>> {
    match v {
        Some(DocValue::String(s)) => Some(s@),
        _ => None,
    }
}

/// The field `key` of an object.
pub fn doc_field<'a>(v: &'a DocValue, key: &str) -> (r: Option<&'a DocValue>)
    ensures
        match r {
            Some(x) => field_of(*v, key@) == Some(*x),
            None => field_of(*v, key@) is None,
        },
{
    match v {
        DocValue::Mapping(m) => {
            let mut i: usize = 0;
            assert(m@.skip(0) =~= m@);
            while i < m.len()
                invariant
                    *v == DocValue::Mapping(*m),
                    i <= m@.len(),
                    string_key_get(m@, key@) == string_key_get(m@.skip(i as int), key@),
                decreases m@.len() - i,
            {
                assert(m@.skip(i as int).drop_first() =~= m@.skip(i + 1));
                assert(m@.skip(i as int)[0] == m@[i as int]);
                match &m[i].0 {
                    DocValue::String(s) => {
                        if str_eq(s.as_str(), key) {
                            return Some(&m[i].1);
                        }
                    },
                    _ => {},
                }
                i = i + 1;
            }
            None
        },
        _ => None,
    }
}

/// The string of a string value.
pub fn doc_str<'a>(v: Option<&'a DocValue>) -> (r: Option<&'a String>)
    ensures
        match r {
            Some(s) => str_of(
                match v {
                    Some(x) => Some(*x),
                    None => None,
                },
            ) == Some(s@),
            None => str_of(
                match v {
                    Some(x) => Some(*x),
                    None => None,
                },
            ) is None,
        },
{
    match v {
        Some(DocValue::String(s)) => Some(s),
        _ => None,
    }
}

/// The position of the first entry whose key is the string `key`, from
/// position `i` on.
pub open spec fn key_index_from(es: Seq<(DocView, DocView)>, key: Seq<char>, i: int) -> Option<int>
    decreases es.len() - i,
{
    if i < 0 || i >= es.len() {
        None
    } else if es[i].0 == DocView::String(key) {
        Some(i)
    } else {
        key_index_from(es, key, i + 1)
    }
}

pub proof fn lemma_key_index_in_range(es: Seq<(DocView, DocView)>, key: Seq<char>, i: int)
    ensures
        key_index_from(es, key, i) matches Some(j) ==> 0 <= i <= j < es.len() && es[j].0
            == DocView::String(key),
    decreases es.len() - i,
{
    if 0 <= i < es.len() && es[i].0 != DocView::String(key) {
        lemma_key_index_in_range(es, key, i + 1);
    }
}

/// The entries with the value under string key `key` set to `v`: in place
/// when the key is there, else as a new last entry.
pub open spec fn set_entry(es: Seq<(DocView, DocView)>, key: Seq<char>, v: DocView) -> Seq<
    (DocView, DocView),
> {
    match key_index_from(es, key, 0) {
        Some(i) => es.update(i, (es[i].0, v)),
        None => es.push((DocView::String(key), v)),
    }
}

/// The position of the first entry whose key is the string `key`.
pub fn find_key(es: &Vec<(DocValue, DocValue)>, key: &str) -> (r: Option<usize>)
    ensures
        match r {
            Some(j) => j < es@.len() && key_index_from(
                entry_views(es@),
                key@,
                0,
            ) == Some(j as int),
            None => key_index_from(entry_views(es@), key@, 0) is None,
        },
{
    let ghost vs = entry_views(es@);
    proof {
        lemma_key_index_in_range(vs, key@, 0);
    }
    let mut i: usize = 0;
    while i < es.len()
        invariant
            i <= es@.len(),
            vs == entry_views(es@),
            key_index_from(vs, key@, 0) == key_index_from(vs, key@, i as int),
        decreases es@.len() - i,
    {
        let hit = match &es[i].0 {
            DocValue::String(k) => str_eq(k.as_str(), key),
            _ => false,
        };
        if hit {
            return Some(i);
        }
        i = i + 1;
    }
    None
}

/// A copy of a mapping's entries.
pub fn copy_entries(es: &Vec<(DocValue, DocValue)>) -> (r: Vec<(DocValue, DocValue)>)
    ensures
        entry_views(r@) == entry_views(es@),
{
    let mut out: Vec<(DocValue, DocValue)> = Vec::new();
    for i in 0..es.len()
        invariant
            out@.len() == i,
            forall|j: int|
                0 <= j < i ==> doc_view((#[trigger] out@[j]).0) == doc_view(es@[j].0)
                    && doc_view(out@[j].1) == doc_view(es@[j].1),
    {
        out.push((es[i].0.copy(), es[i].1.copy()));
    }
    assert(entry_views(out@) =~= entry_views(es@));
    out
}

/// Sets the value under string key `key`; see `set_entry`.
pub fn set_entry_in(es: &mut Vec<(DocValue, DocValue)>, key: &str, v: DocValue)
    ensures
        entry_views(final(es)@) == set_entry(
            entry_views(old(es)@),
            key@,
            doc_view(v),
        ),
{
    let ghost before = entry_views(es@);
    match find_key(es, key) {
        Some(j) => {
            let k = es[j].0.copy();
            es.set(j, (k, v));
            assert(entry_views(es@) =~= before.update(
                j as int,
                (before[j as int].0, doc_view(v)),
            ));
        },
        None => {
            es.push((DocValue::String(key.to_owned()), v));
            assert(entry_views(es@) =~= before.push(
                (DocView::String(key@), doc_view(v)),
            ));
        },
    }
}


/// What `key_index_from` finds: the first entry from `s` on under the key,
/// or that no entry from `s` on is under it.
pub proof fn lemma_key_index_facts(es: Seq<(DocView, DocView)>, key: Seq<char>, s: int)
    requires
        0 <= s,
    ensures
        match key_index_from(es, key, s) {
            Some(i) => s <= i < es.len() && es[i].0 == DocView::String(key) && forall|m: int|
                s <= m < i ==> (#[trigger] es[m]).0 != DocView::String(key),
            None => forall|m: int| s <= m < es.len() ==> (#[trigger] es[m]).0 != DocView::String(key),
        },
    decreases es.len() - s,
{
    if s < es.len() && es[s].0 != DocView::String(key) {
        lemma_key_index_facts(es, key, s + 1);
    }
}

/// The first entry from `s` on under the key is found.
pub proof fn lemma_key_index_finds(es: Seq<(DocView, DocView)>, key: Seq<char>, s: int, i: int)
    requires
        0 <= s <= i < es.len(),
        es[i].0 == DocView::String(key),
        forall|m: int| s <= m < i ==> (#[trigger] es[m]).0 != DocView::String(key),
    ensures
        key_index_from(es, key, s) == Some(i),
    decreases i - s,
{
    if s < i {
        lemma_key_index_finds(es, key, s + 1, i);
    }
}

/// After setting the value under a key, the key is found with that value.
pub proof fn lemma_set_entry_finds(es: Seq<(DocView, DocView)>, key: Seq<char>, v: DocView)
    ensures
        key_index_from(set_entry(es, key, v), key, 0) matches Some(j) && set_entry(es, key, v)[j].1
            == v,
{
    lemma_key_index_facts(es, key, 0);
    let t = set_entry(es, key, v);
    match key_index_from(es, key, 0) {
        Some(i) => {
            assert forall|m: int| 0 <= m < i implies (#[trigger] t[m]).0 != DocView::String(key) by {
                assert(t[m] == es[m]);
            }
            lemma_key_index_finds(t, key, 0, i);
        },
        None => {
            let n = es.len() as int;
            assert forall|m: int| 0 <= m < n implies (#[trigger] t[m]).0 != DocView::String(key) by {
                assert(t[m] == es[m]);
            }
            lemma_key_index_finds(t, key, 0, n);
        },
    }
}

} // verus!