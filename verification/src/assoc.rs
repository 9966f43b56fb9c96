//! Ordered string-keyed maps kept as association lists sorted by key.
//!
//! A map is a `Vec<(String, V)>` whose keys ascend strictly in the
//! lexicographic order of their characters, which is also the byte order of
//! their UTF-8 encodings: the order in which a `BTreeMap<String, V>` walks its
//! entries.
use vstd::prelude::*;

use crate::text::chars_of;

verus! {

/// Strict lexicographic order on character sequences, characters compared by
/// their scalar values.
pub open spec fn lex_lt(a: Seq<char>, b: Seq<char>) -> bool
    decreases a.len(),
{
    if a.len() == 0 {
        b.len() > 0
    } else if b.len() == 0 {
        false
    } else if a[0] == b[0] {
        lex_lt(a.drop_first(), b.drop_first())
    } else {
        a[0] < b[0]
    }
}

pub proof fn lemma_lex_irreflexive(a: Seq<char>)
    ensures
        !lex_lt(a, a),
    decreases a.len(),
{
    if a.len() > 0 {
        lemma_lex_irreflexive(a.drop_first());
    }
}

pub proof fn lemma_lex_transitive(a: Seq<char>, b: Seq<char>, c: Seq<char>)
    requires
        lex_lt(a, b),
        lex_lt(b, c),
    ensures
        lex_lt(a, c),
    decreases a.len(),
{
    if a.len() > 0 && b.len() > 0 && c.len() > 0 {
        if a[0] == b[0] && b[0] == c[0] {
            lemma_lex_transitive(a.drop_first(), b.drop_first(), c.drop_first());
        }
    }
}

pub proof fn lemma_lex_total(a: Seq<char>, b: Seq<char>)
    ensures
        a == b || lex_lt(a, b) || lex_lt(b, a),
    decreases a.len(),
{
    if a.len() == 0 && b.len() == 0 {
        assert(a =~= b);
    } else if a.len() > 0 && b.len() > 0 && a[0] == b[0] {
        lemma_lex_total(a.drop_first(), b.drop_first());
        if a.drop_first() == b.drop_first() {
            assert(a =~= seq![a[0]] + a.drop_first());
            assert(b =~= seq![b[0]] + b.drop_first());
        }
    }
}

pub proof fn lemma_lex_asymmetric(a: Seq<char>, b: Seq<char>)
    requires
        lex_lt(a, b),
    ensures
        !lex_lt(b, a),
{
    if lex_lt(b, a) {
        lemma_lex_transitive(a, b, a);
        lemma_lex_irreflexive(a);
    }
}

/// The result of comparing two keys.
#[derive(Debug, Clone, Copy, PartialEq, Eq, Structural)]
pub enum KeyOrder {
    Less,
    Equal,
    Greater,
}

/// Compares two strings by their characters.
pub fn compare_str(a: &str, b: &str) -> (r: KeyOrder)
    ensures
        r == KeyOrder::Less <==> lex_lt(a@, b@),
        r == KeyOrder::Equal <==> a@ == b@,
        r == KeyOrder::Greater <==> lex_lt(b@, a@),
{
    let x = chars_of(a);
    let y = chars_of(b);
    let mut i: usize = 0;
    assert(x@.skip(0) =~= x@);
    assert(y@.skip(0) =~= y@);
    while i < x.len() && i < y.len() && x[i] == y[i]
        invariant
            i <= x@.len(),
            i <= y@.len(),
            x@ == a@,
            y@ == b@,
            x@.take(i as int) =~= y@.take(i as int),
            lex_lt(x@, y@) == lex_lt(x@.skip(i as int), y@.skip(i as int)),
            lex_lt(y@, x@) == lex_lt(y@.skip(i as int), x@.skip(i as int)),
        decreases x@.len() - i,
    {
        let ghost xs = x@.skip(i as int);
        let ghost ys = y@.skip(i as int);
        assert(xs.drop_first() =~= x@.skip(i + 1));
        assert(ys.drop_first() =~= y@.skip(i + 1));
        assert(x@.take(i + 1) =~= x@.take(i as int).push(x@[i as int]));
        assert(y@.take(i + 1) =~= y@.take(i as int).push(y@[i as int]));
        i = i + 1;
    }
    proof {
        lemma_lex_irreflexive(x@);
    }
    if i < x.len() && i < y.len() {
        assert(x@.skip(i as int)[0] == x@[i as int]);
        assert(y@.skip(i as int)[0] == y@[i as int]);
        assert(x@ != y@) by {
            assert(x@[i as int] != y@[i as int]);
        }
        if x[i] < y[i] {
            proof {
                lemma_lex_asymmetric(x@, y@);
            }
            KeyOrder::Less
        } else {
            proof {
                lemma_lex_asymmetric(y@, x@);
            }
            KeyOrder::Greater
        }
    } else if i < y.len() {
        assert(x@.skip(i as int).len() == 0);
        assert(x@ != y@);
        proof {
            lemma_lex_asymmetric(x@, y@);
        }
        KeyOrder::Less
    } else if i < x.len() {
        assert(y@.skip(i as int).len() == 0);
        assert(x@ != y@);
        proof {
            lemma_lex_asymmetric(y@, x@);
        }
        KeyOrder::Greater
    } else {
        assert(x@ =~= x@.take(i as int));
        assert(y@ =~= y@.take(i as int));
        KeyOrder::Equal
    }
}

/// The keys of `s` ascend strictly.
pub open spec fn sorted_keys<V>(s: Seq<(String, V)>) -> bool {
    forall|i: int, j: int| 0 <= i < j < s.len() ==> lex_lt(#[trigger] s[i].0@, #[trigger] s[j].0@)
}

/// Whether some entry of `s` has key `k`.
pub open spec fn has_key<V>(s: Seq<(String, V)>, k: Seq<char>) -> bool {
    exists|i: int| 0 <= i < s.len() && #[trigger] s[i].0@ == k
}

/// The value of the first entry of `s` with key `k`.
pub open spec fn lookup<V>(s: Seq<(String, V)>, k: Seq<char>) -> Option<V>
    decreases s.len(),
{
    if s.len() == 0 {
        None
    } else if s[0].0@ == k {
        Some(s[0].1)
    } else {
        lookup(s.drop_first(), k)
    }
}

/// Keys ascending means no key occurs twice.
pub proof fn lemma_sorted_distinct<V>(s: Seq<(String, V)>, i: int, j: int)
    requires
        sorted_keys(s),
        0 <= i < s.len(),
        0 <= j < s.len(),
        i != j,
    ensures
        s[i].0@ != s[j].0@,
{
    if i < j {
        assert(lex_lt(s[i].0@, s[j].0@));
        lemma_lex_irreflexive(s[i].0@);
    } else {
        assert(lex_lt(s[j].0@, s[i].0@));
        lemma_lex_irreflexive(s[j].0@);
    }
}

/// In a sorted list, the lookup of the key at index `i` is the value there,
/// and a key that no entry has is not found.
pub proof fn lemma_lookup<V>(s: Seq<(String, V)>, k: Seq<char>)
    requires
        sorted_keys(s),
    ensures
        lookup(s, k) is None <==> !has_key(s, k),
        forall|i: int| 0 <= i < s.len() && #[trigger] s[i].0@ == k ==> lookup(s, k) == Some(s[i].1),
    decreases s.len(),
{
    if s.len() > 0 {
        let t = s.drop_first();
        assert(sorted_keys(t)) by {
            assert forall|i: int, j: int| 0 <= i < j < t.len() implies lex_lt(
                #[trigger] t[i].0@,
                #[trigger] t[j].0@,
            ) by {
                assert(t[i] == s[i + 1] && t[j] == s[j + 1]);
            }
        }
        lemma_lookup(t, k);
        if s[0].0@ == k {
            assert forall|i: int| 0 <= i < s.len() && #[trigger] s[i].0@ == k implies lookup(s, k)
                == Some(s[i].1) by {
                if i != 0 {
                    lemma_sorted_distinct(s, 0, i);
                }
            }
        } else {
            assert forall|i: int| 0 <= i < s.len() && #[trigger] s[i].0@ == k implies lookup(s, k)
                == Some(s[i].1) by {
                assert(i != 0);
                assert(t[i - 1] == s[i]);
            }
            if has_key(s, k) {
                let i = choose|i: int| 0 <= i < s.len() && #[trigger] s[i].0@ == k;
                assert(t[i - 1].0@ == k);
            }
            if has_key(t, k) {
                let i = choose|i: int| 0 <= i < t.len() && #[trigger] t[i].0@ == k;
                assert(s[i + 1].0@ == k);
            }
        }
    }
}

/// Finds the index of the entry with key `k`.
pub fn assoc_find<V>(entries: &Vec<(String, V)>, k: &str) -> (r: Option<usize>)
    requires
        sorted_keys(entries@),
    ensures
        match r {
            Some(i) => i < entries@.len() && entries@[i as int].0@ == k@ && lookup(entries@, k@)
                == Some(entries@[i as int].1),
            None => !has_key(entries@, k@) && lookup(entries@, k@) is None,
        },
{
    proof {
        lemma_lookup(entries@, k@);
    }
    let mut i: usize = 0;
    while i < entries.len()
        invariant
            i <= entries@.len(),
            sorted_keys(entries@),
            forall|j: int| 0 <= j < i ==> (#[trigger] entries@[j]).0@ != k@,
        decreases entries@.len() - i,
    {
        if crate::text::str_eq(entries[i].0.as_str(), k) {
            proof {
                lemma_lookup(entries@, k@);
            }
            assert(entries@[i as int].0@ == k@);
            return Some(i);
        }
        i = i + 1;
    }
    assert(!has_key(entries@, k@)) by {
        if has_key(entries@, k@) {
            let j = choose|j: int| 0 <= j < entries@.len() && #[trigger] entries@[j].0@ == k@;
            assert(entries@[j].0@ != k@);
        }
    }
    None
}

/// The value stored under `k`, if any.
pub fn assoc_get<'a, V>(entries: &'a Vec<(String, V)>, k: &str) -> (r: Option<&'a V>)
    requires
        sorted_keys(entries@),
    ensures
        match r {
            Some(v) => lookup(entries@, k@) == Some(*v),
            None => lookup(entries@, k@) is None,
        },
{
    match assoc_find(entries, k) {
        Some(i) => Some(&entries[i].1),
        None => None,
    }
}

/// The value of the first entry with key `k`, whatever the order of the
/// entries.
pub fn assoc_get_unsorted<'a, V>(entries: &'a Vec<(String, V)>, k: &str) -> (r: Option<&'a V>)
    ensures
        match r {
            Some(v) => lookup(entries@, k@) == Some(*v),
            None => lookup(entries@, k@) is None,
        },
{
    let mut i: usize = 0;
    assert(entries@.skip(0) =~= entries@);
    while i < entries.len()
        invariant
            i <= entries@.len(),
            lookup(entries@, k@) == lookup(entries@.skip(i as int), k@),
        decreases entries@.len() - i,
    {
        assert(entries@.skip(i as int).drop_first() =~= entries@.skip(i + 1));
        assert(entries@.skip(i as int)[0] == entries@[i as int]);
        if crate::text::str_eq(entries[i].0.as_str(), k) {
            return Some(&entries[i].1);
        }
        i = i + 1;
    }
    None
}

/// Stores `value` under `key`, keeping the keys in ascending order; returns
/// whether the key was present before.
pub fn assoc_insert<V>(entries: &mut Vec<(String, V)>, key: String, value: V) -> (replaced: bool)
    requires
        sorted_keys(old(entries)@),
    ensures
        sorted_keys(final(entries)@),
        replaced == has_key(old(entries)@, key@),
        forall|k: Seq<char>| #[trigger]
            lookup(final(entries)@, k) == if k == key@ {
                Some(value)
            } else {
                lookup(old(entries)@, k)
            },
        forall|k: Seq<char>| #[trigger]
            has_key(final(entries)@, k) == (k == key@ || has_key(old(entries)@, k)),
        final(entries)@.len() == old(entries)@.len() + if replaced {
            0int
        } else {
            1int
        },
{
    let ghost s0 = entries@;
    proof {
        lemma_lookup(s0, key@);
    }
    let mut i: usize = 0;
    while i < entries.len()
        invariant
            entries@ == s0,
            old(entries)@ == s0,
            i <= s0.len(),
            sorted_keys(s0),
            forall|j: int| 0 <= j < i ==> lex_lt((#[trigger] s0[j]).0@, key@),
        ensures
            entries@ == s0,
            i <= s0.len(),
            forall|j: int| 0 <= j < i ==> lex_lt((#[trigger] s0[j]).0@, key@),
            i < s0.len() ==> lex_lt(key@, s0[i as int].0@),
        decreases s0.len() - i,
    {
        let o = compare_str(entries[i].0.as_str(), key.as_str());
        match o {
            KeyOrder::Less => {
                i = i + 1;
            },
            KeyOrder::Equal => {
                let (k0, _old) = entries.remove(i);
                entries.insert(i, (k0, value));
                let ghost s1 = entries@;
                assert(s1 =~= s0.update(i as int, (s0[i as int].0, value)));
                proof {
                    assert(sorted_keys(s1)) by {
                        assert forall|a: int, b: int| 0 <= a < b < s1.len() implies lex_lt(
                            #[trigger] s1[a].0@,
                            #[trigger] s1[b].0@,
                        ) by {
                            assert(s1[a].0 == s0[a].0 && s1[b].0 == s0[b].0);
                        }
                    }
                    lemma_lookup(s1, key@);
                    assert forall|k: Seq<char>| #[trigger]
                        lookup(s1, k) == if k == key@ {
                            Some(value)
                        } else {
                            lookup(s0, k)
                        } by {
                        lemma_lookup(s1, k);
                        lemma_lookup(s0, k);
                        if k != key@ {
                            if has_key(s0, k) {
                                let j = choose|j: int| 0 <= j < s0.len() && #[trigger] s0[j].0@ == k;
                                assert(s1[j].0@ == k);
                            }
                            if has_key(s1, k) {
                                let j = choose|j: int| 0 <= j < s1.len() && #[trigger] s1[j].0@ == k;
                                assert(s0[j].0@ == k);
                                assert(j != i);
                            }
                        } else {
                            assert(s1[i as int].0@ == k);
                        }
                    }
                    assert forall|k: Seq<char>| #[trigger]
                        has_key(s1, k) == (k == key@ || has_key(s0, k)) by {
                        if has_key(s0, k) {
                            let j = choose|j: int| 0 <= j < s0.len() && #[trigger] s0[j].0@ == k;
                            assert(s1[j].0@ == k);
                        }
                        if has_key(s1, k) {
                            let j = choose|j: int| 0 <= j < s1.len() && #[trigger] s1[j].0@ == k;
                            assert(s0[j].0@ == k);
                        }
                        if k == key@ {
                            assert(s1[i as int].0@ == k);
                        }
                    }
                    assert(has_key(s0, key@)) by {
                        assert(s0[i as int].0@ == key@);
                    }
                }
                return true;
            },
            KeyOrder::Greater => {
                break;
            },
        }
    }
    // every entry before `i` is below `key`, every entry from `i` on above it
    let ghost k = key@;
    proof {
        assert forall|j: int| i <= j < s0.len() implies lex_lt(k, #[trigger] s0[j].0@) by {
            assert(lex_lt(k, s0[i as int].0@));
            if j > i {
                assert(lex_lt(s0[i as int].0@, s0[j].0@));
                lemma_lex_transitive(k, s0[i as int].0@, s0[j].0@);
            }
        }
        assert(!has_key(s0, k)) by {
            if has_key(s0, k) {
                let j = choose|j: int| 0 <= j < s0.len() && #[trigger] s0[j].0@ == k;
                lemma_lex_irreflexive(k);
                if j < i {
                    assert(lex_lt(s0[j].0@, k));
                } else {
                    assert(lex_lt(k, s0[j].0@));
                }
            }
        }
    }
    entries.insert(i, (key, value));
    let ghost s1 = entries@;
    proof {
        assert(s1 =~= s0.insert(i as int, s1[i as int]));
        assert(sorted_keys(s1)) by {
            assert forall|a: int, b: int| 0 <= a < b < s1.len() implies lex_lt(
                #[trigger] s1[a].0@,
                #[trigger] s1[b].0@,
            ) by {
                if b < i {
                    assert(s1[a] == s0[a] && s1[b] == s0[b]);
                } else if b == i {
                    assert(s1[a] == s0[a]);
                } else if a == i {
                    assert(s1[b] == s0[b - 1]);
                } else if a < i {
                    assert(s1[a] == s0[a] && s1[b] == s0[b - 1]);
                    assert(lex_lt(s0[a].0@, k));
                    assert(lex_lt(k, s0[b - 1].0@));
                    lemma_lex_transitive(s0[a].0@, k, s0[b - 1].0@);
                } else {
                    assert(s1[a] == s0[a - 1] && s1[b] == s0[b - 1]);
                }
            }
        }
        assert forall|kk: Seq<char>| #[trigger]
            has_key(s1, kk) == (kk == k || has_key(s0, kk)) by {
            if has_key(s0, kk) {
                let j = choose|j: int| 0 <= j < s0.len() && #[trigger] s0[j].0@ == kk;
                if j < i {
                    assert(s1[j].0@ == kk);
                } else {
                    assert(s1[j + 1].0@ == kk);
                }
            }
            if has_key(s1, kk) {
                let j = choose|j: int| 0 <= j < s1.len() && #[trigger] s1[j].0@ == kk;
                if j < i {
                    assert(s0[j].0@ == kk);
                } else if j > i {
                    assert(s0[j - 1].0@ == kk);
                }
            }
            if kk == k {
                assert(s1[i as int].0@ == kk);
            }
        }
        assert forall|kk: Seq<char>| #[trigger]
            lookup(s1, kk) == if kk == k {
                Some(value)
            } else {
                lookup(s0, kk)
            } by {
            lemma_lookup(s1, kk);
            lemma_lookup(s0, kk);
            if kk == k {
                assert(s1[i as int].0@ == kk);
            } else if has_key(s0, kk) {
                let j = choose|j: int| 0 <= j < s0.len() && #[trigger] s0[j].0@ == kk;
                if j < i {
                    assert(s1[j] == s0[j]);
                    assert(s1[j].0@ == kk);
                } else {
                    assert(s1[j + 1] == s0[j]);
                    assert(s1[j + 1].0@ == kk);
                }
            } else {
                assert(!has_key(s1, kk));
            }
        }
    }
    false
}

/// Removes the entry with key `k` and returns its value.
pub fn assoc_remove<V>(entries: &mut Vec<(String, V)>, k: &str) -> (r: Option<V>)
    requires
        sorted_keys(old(entries)@),
    ensures
        sorted_keys(final(entries)@),
        r == lookup(old(entries)@, k@),
        forall|kk: Seq<char>| #[trigger]
            lookup(final(entries)@, kk) == if kk == k@ {
                None
            } else {
                lookup(old(entries)@, kk)
            },
        forall|kk: Seq<char>| #[trigger]
            has_key(final(entries)@, kk) == (kk != k@ && has_key(old(entries)@, kk)),
{
    let ghost s0 = entries@;
    match assoc_find(entries, k) {
        None => {
            proof {
                assert forall|kk: Seq<char>| #[trigger]
                    lookup(s0, kk) == if kk == k@ {
                        None
                    } else {
                        lookup(s0, kk)
                    } by {}
                assert forall|kk: Seq<char>| #[trigger]
                    has_key(s0, kk) == (kk != k@ && has_key(s0, kk)) by {}
            }
            None
        },
        Some(i) => {
            let (_key, v) = entries.remove(i);
            let ghost s1 = entries@;
            proof {
                assert(sorted_keys(s1)) by {
                    assert forall|a: int, b: int| 0 <= a < b < s1.len() implies lex_lt(
                        #[trigger] s1[a].0@,
                        #[trigger] s1[b].0@,
                    ) by {
                        if b < i {
                            assert(s1[a] == s0[a] && s1[b] == s0[b]);
                        } else if a < i {
                            assert(s1[a] == s0[a] && s1[b] == s0[b + 1]);
                        } else {
                            assert(s1[a] == s0[a + 1] && s1[b] == s0[b + 1]);
                        }
                    }
                }
                assert forall|kk: Seq<char>| #[trigger]
                    has_key(s1, kk) == (kk != k@ && has_key(s0, kk)) by {
                    if has_key(s1, kk) {
                        let j = choose|j: int| 0 <= j < s1.len() && #[trigger] s1[j].0@ == kk;
                        if j < i {
                            assert(s0[j].0@ == kk);
                            lemma_sorted_distinct(s0, j, i as int);
                        } else {
                            assert(s0[j + 1].0@ == kk);
                            lemma_sorted_distinct(s0, j + 1, i as int);
                        }
                    }
                    if kk != k@ && has_key(s0, kk) {
                        let j = choose|j: int| 0 <= j < s0.len() && #[trigger] s0[j].0@ == kk;
                        assert(j != i);
                        if j < i {
                            assert(s1[j].0@ == kk);
                        } else {
                            assert(s1[j - 1].0@ == kk);
                        }
                    }
                }
                assert forall|kk: Seq<char>| #[trigger]
                    lookup(s1, kk) == if kk == k@ {
                        None
                    } else {
                        lookup(s0, kk)
                    } by {
                    lemma_lookup(s1, kk);
                    lemma_lookup(s0, kk);
                    if kk != k@ && has_key(s0, kk) {
                        let j = choose|j: int| 0 <= j < s0.len() && #[trigger] s0[j].0@ == kk;
                        assert(j != i);
                        if j < i {
                            assert(s1[j] == s0[j]);
                            assert(s1[j].0@ == kk);
                        } else {
                            assert(s1[j - 1] == s0[j]);
                            assert(s1[j - 1].0@ == kk);
                        }
                    }
                }
            }
            Some(v)
        },
    }
}

} // verus!
