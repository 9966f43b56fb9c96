//! Overrides of an evaluation spec given on the command line: `PATH=VALUE`
//! settings of a dotted path in the spec document.
use vstd::prelude::*;

use crate::cli::errors::{CliError, CliErrorView};
use crate::evals::document::{
    copy_entries, doc_view, find_key, key_index_from, lemma_set_entry_finds, set_entry, set_entry_in,
    DocNumber, DocValue,
    DocView,
};
use crate::evals::json::{json_document, parse_json};
use crate::text::{chars_of, find_chars, first_from, str_eq, string_from_chars, string_push_str, trim, trimmed_chars};

verus! {

/// The text before the first `=` and the text after it, if there is one.
pub open spec fn assignment_parts(raw: Seq<char>) -> Option<(Seq<char>, Seq<char>)> {
    match first_from(raw, seq!['='], 0) {
        Some(i) => Some((raw.take(i), raw.skip(i + 1))),
        None => None,
    }
}

/// The message for a setting without `=`.
pub open spec fn assignment_message() -> Seq<char> {
    "override values must use PATH=VALUE syntax"@
}

/// Splits `PATH=VALUE` at the first `=`.
pub fn split_assignment(raw: &str) -> (r: Result<(String, String), CliError>)
    ensures
        match assignment_parts(raw@) {
            Some((p, v)) => r matches Ok((a, b)) && a@ == p && b@ == v,
            None => r matches Err(CliError::InvalidArguments(m)) && m@ == assignment_message(),
        },
{
    let cs = chars_of(raw);
    let eq: Vec<char> = vec!['='];
    assert(eq@ =~= seq!['=']);
    proof {
        crate::text::lemma_first_from_bounds(cs@, eq@, 0);
    }
    match find_chars(&cs, &eq) {
        Some(i) => {
            assert(i + 1 <= cs.len());
            let before = crate::text::chars_upto(&cs, i);
            let after = crate::text::chars_from(&cs, i + 1);
            Ok((string_from_chars(before.as_slice()), string_from_chars(after.as_slice())))
        },
        None => Err(
            CliError::InvalidArguments("override values must use PATH=VALUE syntax".to_owned()),
        ),
    }
}

/// The pieces of `s` between dots (`str::split('.')`).
pub open spec fn split_dots(s: Seq<char>) -> Seq<Seq<char>>
    decreases s.len(),
{
    if s.len() == 0 {
        seq![Seq::empty()]
    } else {
        let prev = split_dots(s.drop_last());
        if s.last() == '.' {
            prev.push(Seq::empty())
        } else {
            prev.drop_last().push(prev.last().push(s.last()))
        }
    }
}

/// The pieces trimmed, blank ones dropped.
pub open spec fn nonblank_trimmed(pieces: Seq<Seq<char>>) -> Seq<Seq<char>>
    decreases pieces.len(),
{
    if pieces.len() == 0 {
        Seq::empty()
    } else {
        let prev = nonblank_trimmed(pieces.drop_last());
        let t = trim(pieces.last());
        if t.len() == 0 {
            prev
        } else {
            prev.push(t)
        }
    }
}

/// The segments of a dotted override path: split at dots, trimmed, blank
/// ones dropped.
pub open spec fn path_segments(raw: Seq<char>) -> Seq<Seq<char>> {
    nonblank_trimmed(split_dots(raw))
}

proof fn lemma_split_dots_nonempty(s: Seq<char>)
    ensures
        split_dots(s).len() >= 1,
    decreases s.len(),
{
    if s.len() > 0 {
        lemma_split_dots_nonempty(s.drop_last());
    }
}

/// The segments of a dotted override path, which must have one.
pub fn parse_path(raw: &str) -> (r: Result<Vec<String>, CliError>)
    ensures
        path_segments(raw@).len() == 0 ==> (r matches Err(CliError::InvalidArguments(m)) && m@
            == "override path cannot be empty"@),
        path_segments(raw@).len() > 0 ==> (r matches Ok(v) && v@.map_values(|s: String| s@)
            == path_segments(raw@)),
{
    let cs = chars_of(raw);
    let mut done: Vec<String> = Vec::new();
    let mut cur: Vec<char> = Vec::new();
    assert(cs@.take(0) =~= Seq::<char>::empty());
    for i in 0..cs.len()
        invariant
            cs@ == raw@,
            split_dots(cs@.take(i as int)).len() >= 1,
            done@.map_values(|s: String| s@) == nonblank_trimmed(
                split_dots(cs@.take(i as int)).drop_last(),
            ),
            cur@ == split_dots(cs@.take(i as int)).last(),
    {
        let ghost t = cs@.take(i + 1);
        assert(t.drop_last() =~= cs@.take(i as int));
        proof {
            lemma_split_dots_nonempty(cs@.take(i as int));
        }
        if cs[i] == '.' {
            let piece = string_from_chars(cur.as_slice());
            let trimmed = trimmed_chars(piece.as_str());
            let ghost pieces = split_dots(cs@.take(i as int));
            if trimmed.len() > 0 {
                let ghost before = done@;
                done.push(string_from_chars(trimmed.as_slice()));
                assert(done@.map_values(|s: String| s@) =~= before.map_values(|s: String| s@).push(
                    trimmed@,
                ));
            }
            assert(split_dots(t).drop_last() =~= pieces);
            assert(pieces.drop_last().push(pieces.last()) =~= pieces);
            cur = Vec::new();
            assert(cur@ =~= Seq::<char>::empty());
        } else {
            let ghost pieces = split_dots(cs@.take(i as int));
            cur.push(cs[i]);
            assert(split_dots(t).drop_last() =~= pieces.drop_last());
        }
    }
    assert(cs@.take(cs@.len() as int) =~= cs@);
    proof {
        lemma_split_dots_nonempty(cs@);
    }
    let piece = string_from_chars(cur.as_slice());
    let trimmed = trimmed_chars(piece.as_str());
    let ghost pieces = split_dots(cs@);
    if trimmed.len() > 0 {
        let ghost before = done@;
        done.push(string_from_chars(trimmed.as_slice()));
        assert(done@.map_values(|s: String| s@) =~= before.map_values(|s: String| s@).push(trimmed@));
    }
    assert(pieces.drop_last().push(pieces.last()) =~= pieces);
    if done.len() == 0 {
        return Err(CliError::InvalidArguments("override path cannot be empty".to_owned()));
    }
    Ok(done)
}

/// An ASCII digit.
pub open spec fn is_digit(c: char) -> bool {
    '0' <= c <= '9'
}

/// The value of a string of digits.
pub open spec fn digits_value(s: Seq<char>) -> nat
    decreases s.len(),
{
    if s.len() == 0 {
        0
    } else {
        digits_value(s.drop_last()) * 10 + ((s.last() as u32) - 48) as nat
    }
}

/// `s` without its leading sign, if it has one.
pub open spec fn unsigned_part(s: Seq<char>) -> Seq<char> {
    if s.len() > 0 && (s[0] == '-' || s[0] == '+') {
        s.skip(1)
    } else {
        s
    }
}

/// Every character of `d` is a digit.
pub open spec fn all_digits(d: Seq<char>) -> bool {
    forall|i: int| 0 <= i < d.len() ==> is_digit(#[trigger] d[i])
}

/// The integer `i64::from_str` reads from `s`: an optional sign, then one or
/// more digits, the value within the range of `i64`.
pub open spec fn parsed_i64(s: Seq<char>) -> Option<int> {
    let digits = unsigned_part(s);
    if digits.len() == 0 || !all_digits(digits) {
        None
    } else {
        let v: int = if s.len() > 0 && s[0] == '-' {
            -(digits_value(digits) as int)
        } else {
            digits_value(digits) as int
        };
        if i64::MIN <= v <= i64::MAX {
            Some(v)
        } else {
            None
        }
    }
}

proof fn lemma_digits_value_grows(s: Seq<char>, i: int)
    requires
        0 <= i <= s.len(),
        all_digits(s),
    ensures
        digits_value(s.take(i)) <= digits_value(s),
    decreases s.len() - i,
{
    if i < s.len() {
        lemma_digits_value_grows(s, i + 1);
        assert(s.take(i + 1).drop_last() =~= s.take(i));
        assert(digits_value(s.take(i + 1)) >= digits_value(s.take(i)) * 10) by (nonlinear_arith)
            requires
                digits_value(s.take(i + 1)) == digits_value(s.take(i)) * 10 + ((s[i] as u32)
                    - 48) as nat,
        {
        }
    } else {
        assert(s.take(i) =~= s);
    }
}

/// The integer a setting's text reads as, when it reads as one.
pub fn parse_i64(raw: &str) -> (r: Option<i64>)
    ensures
        match r {
            Some(n) => parsed_i64(raw@) == Some(n as int),
            None => parsed_i64(raw@) is None,
        },
{
    let cs = chars_of(raw);
    let n = cs.len();
    let mut start: usize = 0;
    let mut negative = false;
    if n > 0 && (cs[0] == '-' || cs[0] == '+') {
        negative = cs[0] == '-';
        start = 1;
    }
    let ghost digits = unsigned_part(raw@);
    assert(digits =~= cs@.skip(start as int));
    if start >= n {
        return None;
    }
    let limit: u64 = if negative {
        9223372036854775808
    } else {
        9223372036854775807
    };
    let mut value: u64 = 0;
    let mut i = start;
    while i < n
        invariant
            start <= i <= n == cs@.len(),
            cs@ == raw@,
            digits == cs@.skip(start as int),
            value == digits_value(digits.take(i - start)),
            value <= limit,
            9223372036854775807 <= limit <= 9223372036854775808,
            limit == 9223372036854775808 <==> negative,
            negative == (raw@.len() > 0 && raw@[0] == '-'),
            digits == unsigned_part(raw@),
            forall|j: int| 0 <= j < i - start ==> is_digit(#[trigger] digits[j]),
        decreases n - i,
    {
        let c = cs[i];
        if !('0' <= c && c <= '9') {
            assert(digits[i - start] == c);
            assert(!is_digit(digits[i - start]));
            assert(!all_digits(digits));
            return None;
        }
        let cu: u32 = c as u32;
        assert(48 <= cu <= 57);
        let d: u64 = (cu - 48) as u64;
        assert(digits.take(i - start + 1).drop_last() =~= digits.take(i - start));
        if value > (limit - d) / 10 {
            proof {
                assert forall|j: int| 0 <= j < i - start + 1 implies is_digit(
                    #[trigger] digits.take(i - start + 1)[j],
                ) by {}
                assert(digits_value(digits.take(i - start + 1)) > limit) by (nonlinear_arith)
                    requires
                        digits_value(digits.take(i - start + 1)) == value * 10 + d,
                        value > (limit - d) / 10,
                        d <= 9,
                        limit >= 9,
                {
                }
                if all_digits(digits) {
                    lemma_digits_value_grows(digits, i - start + 1);
                }
            }
            return None;
        }
        assert(value * 10 + d <= limit) by (nonlinear_arith)
            requires
                value <= (limit - d) / 10,
                d <= 9,
                limit >= 9,
        {
        }
        value = value * 10 + d;
        i = i + 1;
    }
    assert(digits.take(n - start) =~= digits);
    if negative {
        if value == 9223372036854775808 {
            Some(-9223372036854775807i64 - 1)
        } else {
            let v: i64 = value as i64;
            Some(-v)
        }
    } else {
        Some(value as i64)
    }
}

/// The document a scalar setting stands for: `null`, `true` and `false`;
/// an integer; else the float the text reads as (`float_bits`, the bits of
/// that reading, when it reads as one); else the text as a string.
pub open spec fn scalar_document(raw: Seq<char>, float_bits: Option<u64>) -> DocView {
    if raw == "null"@ {
        DocView::Null
    } else if raw == "true"@ {
        DocView::Bool(true)
    } else if raw == "false"@ {
        DocView::Bool(false)
    } else {
        match parsed_i64(raw) {
            Some(n) => if n >= 0 {
                DocView::Number(DocNumber::PosInt(n as u64))
            } else {
                DocView::Number(DocNumber::NegInt(n as i64))
            },
            None => match float_bits {
                Some(b) => DocView::Number(DocNumber::Float { bits: b }),
                None => DocView::String(raw),
            },
        }
    }
}

/// The document a scalar setting stands for; `float_bits` is what the text
/// reads as as a floating-point number (its bits), if it reads as one.
pub fn parse_scalar_value(raw: &str, float_bits: Option<u64>) -> (r: DocValue)
    ensures
        doc_view(r) == scalar_document(raw@, float_bits),
{
    if str_eq(raw, "null") {
        DocValue::Null
    } else if str_eq(raw, "true") {
        DocValue::Bool(true)
    } else if str_eq(raw, "false") {
        DocValue::Bool(false)
    } else {
        match parse_i64(raw) {
            Some(n) => if n >= 0 {
                DocValue::Number(DocNumber::PosInt(n as u64))
            } else {
                DocValue::Number(DocNumber::NegInt(n))
            },
            None => match float_bits {
                Some(b) => DocValue::Number(DocNumber::Float { bits: b }),
                None => DocValue::String(raw.to_owned()),
            },
        }
    }
}

/// Why an override cannot be applied.
#[derive(Debug, Clone, Copy, PartialEq, Eq)]
pub enum OverrideFailure {
    /// The path goes through a value that is neither a mapping nor null.
    Traverses,
    /// The path's last segment is not a field of a mapping.
    NotObject,
}

/// `root` with the value at `path` set to `v`: the mappings along the path
/// are entered, a missing or null one created empty, and the last segment
/// set in its mapping.
pub open spec fn overridden(root: DocView, path: Seq<Seq<char>>, v: DocView) -> Result<
    DocView,
    OverrideFailure,
>
    decreases path.len(),
{
    if path.len() <= 1 {
        match root {
            DocView::Mapping(es) => Ok(DocView::Mapping(set_entry(es, path[0], v))),
            _ => Err(OverrideFailure::NotObject),
        }
    } else {
        let cur = if root is Null {
            DocView::Mapping(Seq::empty())
        } else {
            root
        };
        match cur {
            DocView::Mapping(es) => {
                let child = match key_index_from(es, path[0], 0) {
                    Some(i) => es[i].1,
                    None => DocView::Mapping(Seq::empty()),
                };
                match overridden(child, path.drop_first(), v) {
                    Ok(c) => Ok(DocView::Mapping(set_entry(es, path[0], c))),
                    Err(e) => Err(e),
                }
            },
            _ => Err(OverrideFailure::Traverses),
        }
    }
}

/// The path's segments, as sequences.
pub open spec fn segments_view(path: Seq<String>) -> Seq<Seq<char>> {
    path.map_values(|s: String| s@)
}

/// `node` with the value at the path's segments from `i` on set to `value`.
fn overridden_document(node: &DocValue, path: &Vec<String>, i: usize, value: &DocValue) -> (r: Result<
    DocValue,
    OverrideFailure,
>)
    requires
        i < path@.len(),
    ensures
        match r {
            Ok(d) => overridden(doc_view(*node), segments_view(path@).skip(i as int), doc_view(*value))
                == Ok::<DocView, OverrideFailure>(doc_view(d)),
            Err(e) => overridden(doc_view(*node), segments_view(path@).skip(i as int), doc_view(*value))
                == Err::<DocView, OverrideFailure>(e),
        },
    decreases path@.len() - i,
{
    let ghost segs = segments_view(path@).skip(i as int);
    assert(segs[0] == path@[i as int]@);
    let key = path[i].as_str();
    let n: usize = path.len();
    if i + 1 == n {
        return match node {
            DocValue::Mapping(es) => {
                let mut es2 = copy_entries(es);
                set_entry_in(&mut es2, key, value.copy());
                Ok(DocValue::Mapping(es2))
            },
            _ => Err(OverrideFailure::NotObject),
        };
    }
    assert(segs.drop_first() =~= segments_view(path@).skip(i + 1));
    let cur = match node {
        DocValue::Null => DocValue::Mapping(Vec::new()),
        _ => node.copy(),
    };
    assert(crate::evals::document::entry_views(Seq::<(DocValue, DocValue)>::empty()) =~= Seq::<
        (DocView, DocView),
    >::empty());
    match cur {
        DocValue::Mapping(es) => {
            let child = match find_key(&es, key) {
                Some(j) => es[j].1.copy(),
                None => {
                    let empty = DocValue::Mapping(Vec::new());
                    empty
                },
            };
            match overridden_document(&child, path, i + 1, value) {
                Ok(c) => {
                    let mut es2 = es;
                    set_entry_in(&mut es2, key, c);
                    Ok(DocValue::Mapping(es2))
                },
                Err(e) => Err(e),
            }
        },
        _ => Err(OverrideFailure::Traverses),
    }
}

/// The message for an override that cannot be applied.
pub open spec fn override_message(e: OverrideFailure, path: Seq<Seq<char>>) -> Seq<char> {
    match e {
        OverrideFailure::Traverses => "override path '"@ + crate::text::join(path, "."@)
            + "' traverses a non-object value"@,
        OverrideFailure::NotObject => "override path '"@ + crate::text::join(path, "."@)
            + "' does not target an object field"@,
    }
}

/// Sets the value at `path` of `root` to `value`; see `overridden`. On
/// failure `root` is left as it was.
pub fn apply_override(root: &mut DocValue, path: &Vec<String>, value: DocValue) -> (r: Result<
    (),
    CliError,
>)
    requires
        path@.len() > 0,
    ensures
        match overridden(doc_view(*old(root)), segments_view(path@), doc_view(value)) {
            Ok(d) => r is Ok && doc_view(*final(root)) == d,
            Err(e) => *final(root) == *old(root) && (r matches Err(CliError::UnexpectedStateOwned(m))
                && m@ == override_message(e, segments_view(path@))),
        },
{
    assert(segments_view(path@).skip(0) =~= segments_view(path@));
    match overridden_document(root, path, 0, &value) {
        Ok(d) => {
            *root = d;
            Ok(())
        },
        Err(e) => {
            let joined = crate::text::join_strings(path, ".");
            let mut m = "override path '".to_owned();
            string_push_str(&mut m, joined.as_str());
            match e {
                OverrideFailure::Traverses => string_push_str(&mut m, "' traverses a non-object value"),
                OverrideFailure::NotObject => string_push_str(&mut m, "' does not target an object field"),
            }
            Err(CliError::UnexpectedStateOwned(m))
        },
    }
}

/// One override as its path's segments and the value set there.
pub type OverrideView = (Seq<Seq<char>>, DocView);

/// The override a `PATH=VALUE` setting gives; `float_bits` is the value
/// read as a float, where it reads as one.
pub open spec fn scalar_override(raw: Seq<char>, float_bits: Option<u64>) -> Result<
    OverrideView,
    CliErrorView,
> {
    match assignment_parts(raw) {
        None => Err(CliErrorView::InvalidArguments(assignment_message())),
        Some((p, v)) => if path_segments(p).len() == 0 {
            Err(CliErrorView::InvalidArguments("override path cannot be empty"@))
        } else {
            Ok((path_segments(p), scalar_document(v, float_bits)))
        },
    }
}

/// The override a `PATH=JSON` setting gives, where `parsed` is the JSON
/// text after the first `=` read as a document, or why it does not read.
pub open spec fn json_override(raw: Seq<char>, parsed: Result<DocView, Seq<char>>) -> Result<
    OverrideView,
    CliErrorView,
> {
    match assignment_parts(raw) {
        None => Err(CliErrorView::InvalidArguments(assignment_message())),
        Some((p, v)) => match parsed {
            Err(e) => Err(
                CliErrorView::UnexpectedState("invalid JSON override for '"@ + p + "': "@ + e),
            ),
            Ok(d) => if path_segments(p).len() == 0 {
                Err(CliErrorView::InvalidArguments("override path cannot be empty"@))
            } else {
                Ok((path_segments(p), d))
            },
        },
    }
}

/// The overrides of the scalar settings, one each.
pub open spec fn scalar_overrides(sets: Seq<String>, bits: Seq<Option<u64>>) -> Seq<
    Result<OverrideView, CliErrorView>,
> {
    Seq::new(sets.len(), |i: int| scalar_override(sets[i]@, bits[i]))
}

/// What the text after the first `=` of a `PATH=JSON` setting reads as:
/// the document `serde_json` reads, or its error's text.
pub open spec fn json_setting_value(raw: Seq<char>) -> Result<DocView, Seq<char>> {
    match assignment_parts(raw) {
        Some((_, v)) => match json_document(v) {
            Ok(d) => Ok(doc_view(d)),
            Err(e) => Err(e),
        },
        None => Err(Seq::empty()),
    }
}

/// The overrides of the JSON settings, one each.
pub open spec fn json_overrides(sets: Seq<String>) -> Seq<Result<OverrideView, CliErrorView>> {
    Seq::new(sets.len(), |i: int| json_override(sets[i]@, json_setting_value(sets[i]@)))
}

/// All the overrides in order, or the first failure among them.
pub open spec fn collected(rs: Seq<Result<OverrideView, CliErrorView>>) -> Result<
    Seq<OverrideView>,
    CliErrorView,
>
    decreases rs.len(),
{
    if rs.len() == 0 {
        Ok(Seq::empty())
    } else {
        match collected(rs.drop_last()) {
            Err(e) => Err(e),
            Ok(xs) => match rs.last() {
                Ok(x) => Ok(xs.push(x)),
                Err(e) => Err(e),
            },
        }
    }
}

proof fn lemma_collected_failure_stays(rs: Seq<Result<OverrideView, CliErrorView>>, k: int)
    requires
        0 <= k <= rs.len(),
        collected(rs.take(k)) is Err,
    ensures
        collected(rs) == collected(rs.take(k)),
    decreases rs.len() - k,
{
    if k < rs.len() {
        assert(rs.take(k + 1).drop_last() =~= rs.take(k));
        lemma_collected_failure_stays(rs, k + 1);
    } else {
        assert(rs.take(k) =~= rs);
    }
}

proof fn lemma_scalar_failure(
    first: Seq<Result<OverrideView, CliErrorView>>,
    second: Seq<Result<OverrideView, CliErrorView>>,
    i: int,
)
    requires
        0 <= i < first.len(),
        collected(first.take(i + 1)) is Err,
    ensures
        collected(first + second) == collected(first.take(i + 1)),
{
    lemma_collected_failure_stays(first, i + 1);
    assert((first + second).take(first.len() as int) =~= first);
    assert(first.take(first.len() as int) =~= first);
    lemma_collected_failure_stays(first + second, first.len() as int);
}

proof fn lemma_collected_concat(a: Seq<Result<OverrideView, CliErrorView>>, b: Seq<Result<OverrideView, CliErrorView>>, k: int)
    requires
        0 <= k <= b.len(),
    ensures
        collected(a + b.take(k)) == match collected(a) {
            Err(e) => Err(e),
            Ok(xs) => match collected(b.take(k)) {
                Ok(ys) => Ok(xs + ys),
                Err(e) => Err(e),
            },
        },
    decreases k,
{
    if k == 0 {
        assert(a + b.take(0) =~= a);
        assert(b.take(0) =~= Seq::<Result<OverrideView, CliErrorView>>::empty());
        if let Ok(xs) = collected(a) {
            assert(xs + Seq::<OverrideView>::empty() =~= xs);
        }
    } else {
        lemma_collected_concat(a, b, k - 1);
        assert((a + b.take(k)).drop_last() =~= a + b.take(k - 1));
        assert(b.take(k).drop_last() =~= b.take(k - 1));
        if let Ok(xs) = collected(a) {
            if let Ok(ys) = collected(b.take(k - 1)) {
                if let Ok(y) = b[k - 1] {
                    assert(xs + ys.push(y) =~= (xs + ys).push(y));
                }
            }
        }
    }
}

/// The overrides given by `--set` settings (`PATH=VALUE`) and then by
/// `--set-json` settings (`PATH=JSON`), or the first failure among them.
pub open spec fn overrides_from(
    sets: Seq<String>,
    bits: Seq<Option<u64>>,
    json_sets: Seq<String>,
) -> Result<Seq<OverrideView>, CliErrorView> {
    collected(scalar_overrides(sets, bits) + json_overrides(json_sets))
}

/// One override: a path in the spec document and the value to set there.
#[derive(Debug)]
pub struct OverrideEntry {
    path: Vec<String>,
    value: DocValue,
}

/// The override as its path's segments and its value.
spec fn entry_view(e: OverrideEntry) -> OverrideView {
    (segments_view(e.path@), doc_view(e.value))
}

/// The overrides given on the command line, in the order they apply.
#[derive(Debug)]
pub struct OverrideSet {
    entries: Vec<OverrideEntry>,
}

impl View for OverrideSet {
    type V = Seq<OverrideView>;

    closed spec fn view(&self) -> Seq<OverrideView> {
        self.entries@.map_values(|e: OverrideEntry| entry_view(e))
    }
}

/// Applies the overrides in turn to `root`: the document reached, and the
/// first override that could not be applied with the reason, if one could
/// not (those after it are not applied).
pub open spec fn applied(root: DocView, es: Seq<OverrideView>) -> (
    DocView,
    Option<(OverrideFailure, Seq<Seq<char>>)>,
)
    decreases es.len(),
{
    if es.len() == 0 {
        (root, None)
    } else {
        let (d, f) = applied(root, es.drop_last());
        if f is Some {
            (d, f)
        } else {
            match overridden(d, es.last().0, es.last().1) {
                Ok(d2) => (d2, None),
                Err(e) => (d, Some((e, es.last().0))),
            }
        }
    }
}

impl OverrideSet {
    #[verifier::type_invariant]
    closed spec fn paths_nonempty(self) -> bool {
        forall|i: int| 0 <= i < self.entries@.len() ==> (#[trigger] self.entries@[i]).path@.len() > 0
    }

    /// No overrides.
    pub fn new() -> (r: Self)
        ensures
            r@ == Seq::<OverrideView>::empty(),
    {
        let r = OverrideSet { entries: Vec::new() };
        assert(r@ =~= Seq::<OverrideView>::empty());
        r
    }

    /// Reads the overrides of the command line: each of `set_values` is
    /// `PATH=VALUE`, with the float reading of its value at the same place in
    /// `float_bits`; each of `set_json_values` is `PATH=JSON`, whose JSON
    /// text is read as a document.
    pub fn from_cli(
        set_values: &Vec<String>,
        float_bits: &Vec<Option<u64>>,
        set_json_values: &Vec<String>,
    ) -> (r: Result<Self, CliError>)
        requires
            float_bits@.len() == set_values@.len(),
        ensures
            match overrides_from(set_values@, float_bits@, set_json_values@) {
                Ok(xs) => r matches Ok(s) && s@ == xs,
                Err(e) => r matches Err(err) && err@ == e,
            },
    {
        let ghost first = scalar_overrides(set_values@, float_bits@);
        let ghost second = json_overrides(set_json_values@);
        let mut entries: Vec<OverrideEntry> = Vec::new();
        assert(first.take(0) =~= Seq::<Result<OverrideView, CliErrorView>>::empty());
        assert(entries@.map_values(|e: OverrideEntry| entry_view(e)) =~= Seq::<OverrideView>::empty());
        for i in 0..set_values.len()
            invariant
                float_bits@.len() == set_values@.len(),
                first == scalar_overrides(set_values@, float_bits@),
                second == json_overrides(set_json_values@),
                collected(first.take(i as int)) == Ok::<Seq<OverrideView>, CliErrorView>(
                    entries@.map_values(|e: OverrideEntry| entry_view(e)),
                ),
                forall|j: int| 0 <= j < entries@.len() ==> (#[trigger] entries@[j]).path@.len() > 0,
                entries@.len() == i,
        {
            assert(first.take(i + 1).drop_last() =~= first.take(i as int));
            let ghost before = entries@;
            let raw = set_values[i].as_str();
            let (path, value) = match split_assignment(raw) {
                Ok(parts) => parts,
                Err(e) => {
                    proof {
                        lemma_scalar_failure(first, second, i as int);
                    }
                    return Err(e);
                },
            };
            let segs = match parse_path(path.as_str()) {
                Ok(p) => p,
                Err(e) => {
                    proof {
                        lemma_scalar_failure(first, second, i as int);
                    }
                    return Err(e);
                },
            };
            let v = parse_scalar_value(value.as_str(), float_bits[i]);
            entries.push(OverrideEntry { path: segs, value: v });
            assert(entries@.map_values(|e: OverrideEntry| entry_view(e)) =~= before.map_values(
                |e: OverrideEntry| entry_view(e),
            ).push(entry_view(entries@[before.len() as int])));
        }
        assert(first.take(first.len() as int) =~= first);
        let ghost done = entries@.len();
        assert(second.take(0) =~= Seq::<Result<OverrideView, CliErrorView>>::empty());
        assert(entries@.take(done as int) =~= entries@);
        assert(entries@.skip(done as int).map_values(|e: OverrideEntry| entry_view(e)) =~= Seq::<
            OverrideView,
        >::empty());
        for i in 0..set_json_values.len()
            invariant
                first == scalar_overrides(set_values@, float_bits@),
                second == json_overrides(set_json_values@),
                collected(first) == Ok::<Seq<OverrideView>, CliErrorView>(
                    entries@.take(done as int).map_values(|e: OverrideEntry| entry_view(e)),
                ),
                done <= entries@.len(),
                collected(second.take(i as int)) == Ok::<Seq<OverrideView>, CliErrorView>(
                    entries@.skip(done as int).map_values(|e: OverrideEntry| entry_view(e)),
                ),
                forall|j: int| 0 <= j < entries@.len() ==> (#[trigger] entries@[j]).path@.len() > 0,
        {
            assert(second.take(i + 1).drop_last() =~= second.take(i as int));
            let ghost before = entries@;
            let raw = set_json_values[i].as_str();
            let (path, value) = match split_assignment(raw) {
                Ok(parts) => parts,
                Err(e) => {
                    proof {
                        lemma_collected_failure_stays(second, i + 1);
                        lemma_collected_concat(first, second, second.len() as int);
                        assert(second.take(second.len() as int) =~= second);
                        assert((first + second.take(second.len() as int)) =~= first + second);
                    }
                    return Err(e);
                },
            };
            let parsed = match parse_json(value.as_str()) {
                Ok(d) => d,
                Err(msg) => {
                    let mut m = "invalid JSON override for '".to_owned();
                    string_push_str(&mut m, path.as_str());
                    string_push_str(&mut m, "': ");
                    string_push_str(&mut m, msg.as_str());
                    proof {
                        lemma_collected_failure_stays(second, i + 1);
                        lemma_collected_concat(first, second, second.len() as int);
                        assert(second.take(second.len() as int) =~= second);
                        assert((first + second.take(second.len() as int)) =~= first + second);
                    }
                    return Err(CliError::UnexpectedStateOwned(m));
                },
            };
            let segs = match parse_path(path.as_str()) {
                Ok(p) => p,
                Err(e) => {
                    proof {
                        lemma_collected_failure_stays(second, i + 1);
                        lemma_collected_concat(first, second, second.len() as int);
                        assert(second.take(second.len() as int) =~= second);
                        assert((first + second.take(second.len() as int)) =~= first + second);
                    }
                    return Err(e);
                },
            };
            entries.push(OverrideEntry { path: segs, value: parsed });
            assert(entries@.take(done as int) =~= before.take(done as int));
            assert(entries@.skip(done as int) =~= before.skip(done as int).push(entries@[before.len() as int]));
            assert(entries@.skip(done as int).map_values(|e: OverrideEntry| entry_view(e)) =~= before.skip(done as int).map_values(
                |e: OverrideEntry| entry_view(e),
            ).push(entry_view(entries@[before.len() as int])));
        }
        proof {
            assert(second.take(second.len() as int) =~= second);
            lemma_collected_concat(first, second, second.len() as int);
            assert((first + second.take(second.len() as int)) =~= first + second);
            assert(entries@.map_values(|e: OverrideEntry| entry_view(e)) =~= entries@.take(done as int).map_values(|e: OverrideEntry| entry_view(e))
                + entries@.skip(done as int).map_values(|e: OverrideEntry| entry_view(e)));
        }
        Ok(OverrideSet { entries })
    }

    /// Applies the overrides in order to `root`; see `applied`. At the first
    /// one that cannot be applied `root` keeps what the ones before it made
    /// of it, and the reason is returned.
    pub fn apply(&self, root: &mut DocValue) -> (r: Result<(), CliError>)
        ensures
            doc_view(*final(root)) == applied(doc_view(*old(root)), self@).0,
            match applied(doc_view(*old(root)), self@).1 {
                None => r is Ok,
                Some((e, p)) => r matches Err(CliError::UnexpectedStateOwned(m)) && m@
                    == override_message(e, p),
            },
    {
        proof {
            use_type_invariant(self);
        }
        let ghost start = doc_view(*root);
        let ghost es = self@;
        assert(es.take(0) =~= Seq::<OverrideView>::empty());
        for i in 0..self.entries.len()
            invariant
                es == self@,
                start == doc_view(*old(root)),
                es.len() == self.entries@.len(),
                forall|j: int| 0 <= j < self.entries@.len() ==> (#[trigger] self.entries@[j]).path@.len() > 0,
                applied(start, es.take(i as int)) == (doc_view(*root), Option::<(OverrideFailure, Seq<Seq<char>>)>::None),
        {
            let entry = &self.entries[i];
            assert(es[i as int] == entry_view(*entry));
            assert(es.take(i + 1).drop_last() =~= es.take(i as int));
            match apply_override(root, &entry.path, entry.value.copy()) {
                Ok(()) => {},
                Err(e) => {
                    proof {
                        lemma_applied_failure_stays(start, es, i + 1);
                        assert(es.take(es.len() as int) =~= es);
                    }
                    return Err(e);
                },
            }
        }
        assert(es.take(es.len() as int) =~= es);
        Ok(())
    }

    /// The overrides as paths and values, in the order they apply.
    pub fn entries(&self) -> (r: Vec<(Vec<String>, DocValue)>)
        ensures
            r@.len() == self@.len(),
            forall|i: int|
                0 <= i < r@.len() ==> (segments_view((#[trigger] r@[i]).0@), doc_view(r@[i].1))
                    == self@[i],
    {
        let mut out: Vec<(Vec<String>, DocValue)> = Vec::new();
        for i in 0..self.entries.len()
            invariant
                out@.len() == i,
                i <= self.entries@.len(),
                self@.len() == self.entries@.len(),
                forall|j: int|
                    0 <= j < i ==> (segments_view((#[trigger] out@[j]).0@), doc_view(out@[j].1))
                        == self@[j],
        {
            let e = &self.entries[i];
            assert(self@[i as int] == entry_view(*e));
            out.push((e.path.clone(), e.value.copy()));
        }
        out
    }
}

proof fn lemma_applied_failure_stays(root: DocView, es: Seq<OverrideView>, k: int)
    requires
        0 <= k <= es.len(),
        applied(root, es.take(k)).1 is Some,
    ensures
        applied(root, es) == applied(root, es.take(k)),
    decreases es.len() - k,
{
    if k < es.len() {
        assert(es.take(k + 1).drop_last() =~= es.take(k));
        lemma_applied_failure_stays(root, es, k + 1);
    } else {
        assert(es.take(k) =~= es);
    }
}

/// The value at a path of mappings: each segment is looked up as a string
/// key in the mapping reached so far.
pub open spec fn value_at(doc: DocView, path: Seq<Seq<char>>) -> Option<DocView>
    decreases path.len(),
{
    if path.len() == 0 {
        Some(doc)
    } else {
        match doc {
            DocView::Mapping(es) => match key_index_from(es, path[0], 0) {
                Some(i) => value_at(es[i].1, path.drop_first()),
                None => None,
            },
            _ => None,
        }
    }
}

/// An override that applies sets the value at its path: reading the path
/// back gives the value set.
pub proof fn lemma_override_reads_back(root: DocView, path: Seq<Seq<char>>, v: DocView)
    requires
        path.len() > 0,
        overridden(root, path, v) is Ok,
    ensures
        value_at(overridden(root, path, v)->Ok_0, path) == Some(v),
    decreases path.len(),
{
    let d = overridden(root, path, v)->Ok_0;
    if path.len() == 1 {
        let es = root->Mapping_0;
        assert(d == DocView::Mapping(set_entry(es, path[0], v)));
        lemma_set_entry_finds(es, path[0], v);
        let j = key_index_from(set_entry(es, path[0], v), path[0], 0)->Some_0;
        assert(value_at(v, path.drop_first()) == Some(v));
        assert(value_at(d, path) == value_at(set_entry(es, path[0], v)[j].1, path.drop_first()));
    } else {
        let cur = if root is Null {
            DocView::Mapping(Seq::empty())
        } else {
            root
        };
        let es = cur->Mapping_0;
        let child = match key_index_from(es, path[0], 0) {
            Some(i) => es[i].1,
            None => DocView::Mapping(Seq::empty()),
        };
        let c = overridden(child, path.drop_first(), v)->Ok_0;
        lemma_override_reads_back(child, path.drop_first(), v);
        assert(d == DocView::Mapping(set_entry(es, path[0], c)));
        lemma_set_entry_finds(es, path[0], c);
        let j = key_index_from(set_entry(es, path[0], c), path[0], 0)->Some_0;
        assert(value_at(d, path) == value_at(set_entry(es, path[0], c)[j].1, path.drop_first()));
    }
}

} // verus!
