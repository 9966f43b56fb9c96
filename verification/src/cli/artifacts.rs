//! The names of an evaluation run's artifacts.
use vstd::prelude::*;

use crate::text::{
    chars_of, decimal, decimal_text, lemma_decimal_injective, lemma_decimal_nonempty, string_from_chars,
    string_push_str,
};

verus! {

/// ASCII letters and digits.
pub open spec fn ascii_alnum(c: char) -> bool {
    ('a' <= c <= 'z') || ('A' <= c <= 'Z') || ('0' <= c <= '9')
}

/// ASCII lower case of a character.
pub open spec fn ascii_lower(c: char) -> char {
    if 'A' <= c <= 'Z' {
        ((c as u32) + 32) as char
    } else {
        c
    }
}

/// `s` read from the start: letters and digits kept in lower case, each run
/// of other characters one `-`.
pub open spec fn dashed(s: Seq<char>) -> Seq<char>
    decreases s.len(),
{
    if s.len() == 0 {
        Seq::empty()
    } else {
        let prev = dashed(s.drop_last());
        let c = s.last();
        if ascii_alnum(c) {
            prev.push(ascii_lower(c))
        } else if prev.len() > 0 && prev.last() == '-' {
            prev
        } else {
            prev.push('-')
        }
    }
}

/// The number of `-` at the start of `s`.
pub open spec fn leading_dashes(s: Seq<char>) -> nat
    decreases s.len(),
{
    if s.len() > 0 && s[0] == '-' {
        1 + leading_dashes(s.drop_first())
    } else {
        0
    }
}

/// The number of `-` at the end of `s`.
pub open spec fn trailing_dashes(s: Seq<char>) -> nat
    decreases s.len(),
{
    if s.len() > 0 && s.last() == '-' {
        1 + trailing_dashes(s.drop_last())
    } else {
        0
    }
}

/// `s` without `-` at either end.
pub open spec fn trim_dashes(s: Seq<char>) -> Seq<char> {
    let t = s.skip(leading_dashes(s) as int);
    t.take(t.len() - trailing_dashes(t))
}

/// The name of a run directory for `name`: lower-case ASCII letters and
/// digits, other runs of characters as single `-`, none at the ends; `eval`
/// when nothing is left.
pub open spec fn slug(name: Seq<char>) -> Seq<char> {
    let t = trim_dashes(dashed(name));
    if t.len() == 0 {
        "eval"@
    } else {
        t
    }
}

proof fn lemma_leading_dashes_bound(s: Seq<char>)
    ensures
        leading_dashes(s) <= s.len(),
    decreases s.len(),
{
    if s.len() > 0 && s[0] == '-' {
        lemma_leading_dashes_bound(s.drop_first());
    }
}

proof fn lemma_leading_dashes_all(s: Seq<char>, i: int)
    requires
        0 <= i <= s.len(),
        forall|j: int| 0 <= j < i ==> s[j] == '-',
        i == s.len() || s[i] != '-',
    ensures
        leading_dashes(s) == i,
    decreases i,
{
    if i > 0 {
        lemma_leading_dashes_all(s.drop_first(), i - 1);
    }
}

proof fn lemma_trailing_dashes_all(s: Seq<char>, i: int)
    requires
        0 <= i <= s.len(),
        forall|j: int| s.len() - i <= j < s.len() ==> s[j] == '-',
        i == s.len() || s[s.len() - 1 - i] != '-',
    ensures
        trailing_dashes(s) == i,
    decreases i,
{
    if i > 0 {
        lemma_trailing_dashes_all(s.drop_last(), i - 1);
    }
}

/// The name of a run directory for `value`.
pub fn slugify(value: &str) -> (r: String)
    ensures
        r@ == slug(value@),
{
    let cs = chars_of(value);
    let mut out: Vec<char> = Vec::new();
    let mut last_was_separator = false;
    for i in 0..cs.len()
        invariant
            cs@ == value@,
            out@ == dashed(cs@.take(i as int)),
            last_was_separator == (out@.len() > 0 && out@.last() == '-'),
    {
        let ghost t = cs@.take(i + 1);
        assert(t.drop_last() =~= cs@.take(i as int));
        let c = cs[i];
        if ('a' <= c && c <= 'z') || ('A' <= c && c <= 'Z') || ('0' <= c && c <= '9') {
            let lower = if 'A' <= c && c <= 'Z' {
                let n: u32 = c as u32;
                let b: u8 = (n + 32) as u8;
                b as char
            } else {
                c
            };
            out.push(lower);
            last_was_separator = false;
        } else if !last_was_separator {
            out.push('-');
            last_was_separator = true;
        }
    }
    assert(cs@.take(cs@.len() as int) =~= cs@);
    let ghost d = out@;
    let n = out.len();
    let mut start: usize = 0;
    while start < n && out[start] == '-'
        invariant
            start <= n == d.len(),
            out@ == d,
            forall|j: int| 0 <= j < start ==> d[j] == '-',
        decreases n - start,
    {
        start = start + 1;
    }
    proof {
        lemma_leading_dashes_all(d, start as int);
    }
    let mut end = n;
    while end > start && out[end - 1] == '-'
        invariant
            start <= end <= n == d.len(),
            out@ == d,
            forall|j: int| end <= j < n ==> d[j] == '-',
        decreases end,
    {
        end = end - 1;
    }
    let ghost t = d.skip(start as int);
    proof {
        lemma_trailing_dashes_all(t, (n - end) as int);
    }
    let mut kept: Vec<char> = Vec::new();
    let mut k = start;
    while k < end
        invariant
            start <= k <= end <= n == d.len(),
            out@ == d,
            kept@ == d.subrange(start as int, k as int),
        decreases end - k,
    {
        kept.push(out[k]);
        assert(kept@ =~= d.subrange(start as int, k + 1));
        k = k + 1;
    }
    assert(kept@ =~= trim_dashes(d));
    if kept.len() == 0 {
        "eval".to_owned()
    } else {
        string_from_chars(kept.as_slice())
    }
}


/// A character of a run directory name: a lower-case ASCII letter, a digit
/// or `-`.
pub open spec fn slug_char(c: char) -> bool {
    ('a' <= c <= 'z') || ('0' <= c <= '9') || c == '-'
}

/// A clean run directory name: not empty, only letters, digits and single
/// `-` between them.
pub open spec fn clean_name(r: Seq<char>) -> bool {
    &&& r.len() > 0
    &&& forall|i: int| 0 <= i < r.len() ==> slug_char(#[trigger] r[i])
    &&& r[0] != '-'
    &&& r.last() != '-'
    &&& forall|i: int| 0 <= i < r.len() - 1 ==> !(#[trigger] r[i] == '-' && r[i + 1] == '-')
}

proof fn lemma_dashed_shape(s: Seq<char>)
    ensures
        forall|i: int| 0 <= i < dashed(s).len() ==> slug_char(#[trigger] dashed(s)[i]),
        forall|i: int|
            0 <= i < dashed(s).len() - 1 ==> !(#[trigger] dashed(s)[i] == '-' && dashed(s)[i + 1]
                == '-'),
    decreases s.len(),
{
    if s.len() > 0 {
        lemma_dashed_shape(s.drop_last());
        let prev = dashed(s.drop_last());
        let c = s.last();
        if ascii_alnum(c) {
            let l = ascii_lower(c);
            if 'A' <= c <= 'Z' {
                let n: u32 = c as u32;
                assert(65 <= n <= 90);
                assert('a' <= l <= 'z');
            }
            assert(slug_char(l));
            assert(dashed(s) == prev.push(l));
        }
    }
}

proof fn lemma_leading_dashes_facts(s: Seq<char>)
    ensures
        leading_dashes(s) <= s.len(),
        leading_dashes(s) < s.len() ==> s[leading_dashes(s) as int] != '-',
    decreases s.len(),
{
    if s.len() > 0 && s[0] == '-' {
        lemma_leading_dashes_facts(s.drop_first());
    }
}

proof fn lemma_trailing_dashes_facts(s: Seq<char>)
    ensures
        trailing_dashes(s) <= s.len(),
        trailing_dashes(s) < s.len() ==> s[s.len() - 1 - trailing_dashes(s)] != '-',
    decreases s.len(),
{
    if s.len() > 0 && s.last() == '-' {
        lemma_trailing_dashes_facts(s.drop_last());
    }
}

/// A run directory name is clean: lower-case letters, digits and single
/// dashes between them, never empty.
pub proof fn lemma_slug_is_clean(name: Seq<char>)
    ensures
        clean_name(slug(name)),
{
    let d = dashed(name);
    lemma_dashed_shape(name);
    lemma_leading_dashes_facts(d);
    let t = d.skip(leading_dashes(d) as int);
    lemma_trailing_dashes_facts(t);
    let u = t.take(t.len() - trailing_dashes(t));
    assert(trim_dashes(d) == u);
    let off = leading_dashes(d) as int;
    assert forall|i: int| 0 <= i < u.len() implies u[i] == d[i + off] by {}
    if u.len() == 0 {
        reveal_strlit("eval");
        let e = "eval"@;
        assert(e.len() == 4);
        assert(e[0] == 'e' && e[1] == 'v' && e[2] == 'a' && e[3] == 'l');
        assert forall|i: int| 0 <= i < e.len() implies slug_char(#[trigger] e[i]) by {}
        assert forall|i: int| 0 <= i < e.len() - 1 implies !(#[trigger] e[i] == '-' && e[i + 1] == '-') by {}
    } else {
        assert(u[0] == d[off]);
        assert(u.last() == t[t.len() - 1 - trailing_dashes(t)]);
        assert forall|i: int| 0 <= i < u.len() implies slug_char(#[trigger] u[i]) by {
            assert(u[i] == d[i + off]);
        }
        assert forall|i: int| 0 <= i < u.len() - 1 implies !(#[trigger] u[i] == '-' && u[i + 1] == '-') by {
            assert(u[i] == d[i + off]);
            assert(u[i + 1] == d[(i + off) + 1]);
        }
    }
}


/// The name of an evaluation run's directory: the time stamp, `-` and the
/// slug of the run's name; for a later try at a free name, `-` and the try's
/// counter after that.
pub open spec fn run_dir_name(timestamp: Seq<char>, name: Seq<char>, counter: Option<usize>) -> Seq<char> {
    let base = timestamp + "-"@ + slug(name);
    match counter {
        None => base,
        Some(c) => base + "-"@ + decimal(c as nat),
    }
}

/// The name of an evaluation run's directory; see `run_dir_name`.
pub fn run_dir_candidate(timestamp: &str, name: &str, counter: Option<usize>) -> (r: String)
    ensures
        r@ == run_dir_name(timestamp@, name@, counter),
{
    let mut s = timestamp.to_owned();
    string_push_str(&mut s, "-");
    let slugged = slugify(name);
    string_push_str(&mut s, slugged.as_str());
    match counter {
        None => {},
        Some(c) => {
            string_push_str(&mut s, "-");
            let digits = decimal_text(c as u64);
            string_push_str(&mut s, digits.as_str());
        },
    }
    s
}

/// Each try at a run directory has a name of its own.
pub proof fn lemma_run_dir_names_differ(
    timestamp: Seq<char>,
    name: Seq<char>,
    a: Option<usize>,
    b: Option<usize>,
)
    requires
        a != b,
    ensures
        run_dir_name(timestamp, name, a) != run_dir_name(timestamp, name, b),
{
    let base = timestamp + "-"@ + slug(name);
    reveal_strlit("-");
    match (a, b) {
        (Some(x), Some(y)) => {
            let na = run_dir_name(timestamp, name, a);
            let nb = run_dir_name(timestamp, name, b);
            if na == nb {
                assert(na.skip(base.len() + 1int) =~= decimal(x as nat));
                assert(nb.skip(base.len() + 1int) =~= decimal(y as nat));
                lemma_decimal_injective(x as nat, y as nat);
            }
        },
        (Some(x), None) => {
            lemma_decimal_nonempty(x as nat);
        },
        (None, Some(y)) => {
            lemma_decimal_nonempty(y as nat);
        },
        (None, None) => {},
    }
}

} // verus!
