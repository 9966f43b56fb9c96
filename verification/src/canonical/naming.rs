//! How canonical (kebab-case) names appear on the Python surface.
use vstd::prelude::*;

use crate::text::{chars_of, string_push};

verus! {

/// The character a canonical name character becomes in a Python identifier:
/// `-`, space and `.` become `_`.
pub open spec fn python_name_char(c: char) -> char {
    if c == '-' || c == ' ' || c == '.' {
        '_'
    } else {
        c
    }
}

/// The Python identifier for a canonical name: each `-`, space or `.` replaced
/// by `_`, every other character kept.
pub open spec fn python_name(s: Seq<char>) -> Seq<char> {
    s.map_values(|c: char| python_name_char(c))
}

/// Characters that separate the words of a name.
pub open spec fn is_word_separator(c: char) -> bool {
    c == '-' || c == '_' || c == ' ' || c == '.'
}

/// `char::to_ascii_uppercase`: ASCII `a`..`z` to `A`..`Z`, all else unchanged.
pub open spec fn ascii_upper(c: char) -> char {
    if 'a' <= c <= 'z' {
        ((c as u32) - 32) as char
    } else {
        c
    }
}

/// The Python class name for a canonical name: the words (the runs of
/// characters between separators) joined with the first character of each
/// in ASCII upper case.
pub open spec fn python_class_name(s: Seq<char>) -> Seq<char>
    decreases s.len(),
{
    if s.len() == 0 {
        Seq::empty()
    } else {
        let prev = python_class_name(s.drop_last());
        let c = s.last();
        if is_word_separator(c) {
            prev
        } else if s.len() == 1 || is_word_separator(s[s.len() - 2]) {
            prev.push(ascii_upper(c))
        } else {
            prev.push(c)
        }
    }
}

/// The ASCII upper-case form of a character.
pub fn to_ascii_upper(c: char) -> (r: char)
    ensures
        r == ascii_upper(c),
{
    if 'a' <= c && c <= 'z' {
        let n: u32 = c as u32;
        let b: u8 = (n - 32) as u8;
        b as char
    } else {
        c
    }
}

/// The Python identifier for a canonical function, parameter or field name.
pub fn python_function_name(name: &str) -> (r: String)
    ensures
        r@ == python_name(name@),
{
    let cs = chars_of(name);
    let mut out = String::new();
    for i in 0..cs.len()
        invariant
            cs@ == name@,
            out@ == python_name(cs@.take(i as int)),
    {
        let c = cs[i];
        if c == '-' || c == ' ' || c == '.' {
            string_push(&mut out, '_');
        } else {
            string_push(&mut out, c);
        }
        assert(python_name(cs@.take(i + 1)) =~= python_name(cs@.take(i as int)).push(
            python_name_char(c),
        ));
    }
    assert(cs@.take(cs@.len() as int) =~= cs@);
    out
}

/// The Python module name for a world.
pub fn python_module_name(name: &str) -> (r: String)
    ensures
        r@ == python_name(name@),
{
    python_function_name(name)
}

/// The Python class name for a canonical type or case name.
pub fn python_type_name(name: &str) -> (r: String)
    ensures
        r@ == python_class_name(name@),
{
    let cs = chars_of(name);
    let mut out = String::new();
    for i in 0..cs.len()
        invariant
            cs@ == name@,
            out@ == python_class_name(cs@.take(i as int)),
    {
        let c = cs[i];
        let ghost t = cs@.take(i + 1);
        assert(t.drop_last() =~= cs@.take(i as int));
        assert(t.last() == c);
        if c == '-' || c == '_' || c == ' ' || c == '.' {
        } else if i == 0 || cs[i - 1] == '-' || cs[i - 1] == '_' || cs[i - 1] == ' ' || cs[i - 1]
            == '.' {
            assert(i > 0 ==> t[t.len() - 2] == cs@[i - 1]);
            string_push(&mut out, to_ascii_upper(c));
        } else {
            assert(t[t.len() - 2] == cs@[i - 1]);
            string_push(&mut out, c);
        }
    }
    assert(cs@.take(cs@.len() as int) =~= cs@);
    out
}

/// The words of a name, in order: its runs of characters between
/// separators (`-`, `_`, space, `.`), none of them empty.
pub open spec fn name_words(s: Seq<char>) -> Seq<Seq<char>>
    decreases s.len(),
{
    if s.len() == 0 {
        Seq::empty()
    } else {
        let w = name_words(s.drop_last());
        let c = s.last();
        if is_word_separator(c) {
            w
        } else if s.len() == 1 || is_word_separator(s[s.len() - 2]) {
            w.push(seq![c])
        } else {
            w.drop_last().push(w.last().push(c))
        }
    }
}

/// A word with its first letter in upper case.
pub open spec fn capitalized(w: Seq<char>) -> Seq<char> {
    if w.len() == 0 {
        w
    } else {
        seq![ascii_upper(w[0])] + w.drop_first()
    }
}

/// The words, each capitalized, one after the other.
pub open spec fn joined_capitalized(ws: Seq<Seq<char>>) -> Seq<char>
    decreases ws.len(),
{
    if ws.len() == 0 {
        Seq::empty()
    } else {
        joined_capitalized(ws.drop_last()) + capitalized(ws.last())
    }
}

/// A Python class name is the name split into words at its separators,
/// each word capitalized, and the words joined with nothing between them
/// (`calendar-event` gives `CalendarEvent`).
pub proof fn lemma_class_name_is_capitalized_words(s: Seq<char>)
    ensures
        python_class_name(s) == joined_capitalized(name_words(s)),
        (s.len() > 0 && !is_word_separator(s.last())) ==> name_words(s).len() > 0 && name_words(
            s,
        ).last().len() > 0,
    decreases s.len(),
{
    if s.len() > 0 {
        let t = s.drop_last();
        let c = s.last();
        let w = name_words(t);
        lemma_class_name_is_capitalized_words(t);
        if is_word_separator(c) {
        } else if s.len() == 1 || is_word_separator(s[s.len() - 2]) {
            let nw = w.push(seq![c]);
            assert(nw.drop_last() =~= w);
            assert(capitalized(seq![c]) =~= seq![ascii_upper(c)]);
            assert(python_class_name(s) =~= joined_capitalized(nw));
        } else {
            assert(t.last() == s[s.len() - 2]);
            let x = w.last();
            let nw = w.drop_last().push(x.push(c));
            assert(nw.drop_last() =~= w.drop_last());
            assert(capitalized(x.push(c)) =~= capitalized(x).push(c));
            assert(joined_capitalized(w) == joined_capitalized(w.drop_last()) + capitalized(x));
            assert(python_class_name(s) =~= joined_capitalized(nw));
        }
    }
}

} // verus!
