//! Identifiers used across runs, actions and agent loops.
use vstd::prelude::*;

use crate::text::string_push;

verus! {

/// Identifier of a submitted or scheduled action (a 128-bit UUID value).
#[derive(Debug, Clone, Copy, PartialEq, Eq, Structural)]
pub struct ActionId {
    pub value: u128,
}

/// Identifier of an orchestrated run or of a code execution run.
#[derive(Debug, Clone, Copy, PartialEq, Eq, Structural)]
pub struct RunId {
    pub value: u128,
}

/// Identifier of one agent loop (the work item a participant is serving).
#[derive(Debug, Clone, Copy, PartialEq, Eq, Structural)]
pub struct WorkItemId {
    pub value: u128,
}

/// Identifier of a stored code artifact.
#[derive(Debug, Clone, Copy, PartialEq, Eq, Structural)]
pub struct CodeArtifactId {
    pub value: u128,
}

/// Name of a skill action as the canonical interface spells it.
#[derive(Debug, Clone, PartialEq, Eq, PartialOrd, Ord, Hash)]
pub struct ActionName(pub String);

/// Name of an input bound into a code artifact.
#[derive(Debug, Clone, PartialEq, Eq, PartialOrd, Ord, Hash)]
pub struct InputName(pub String);

impl ActionName {
    /// Wraps an action name.
    pub fn new(value: String) -> (r: Self)
        ensures
            r.0 == value,
    {
        ActionName(value)
    }

    /// The name as a string slice.
    pub fn as_str(&self) -> (r: &str)
        ensures
            r@ == self.0@,
    {
        self.0.as_str()
    }
}

/// The lower-case hexadecimal digit for `d` (below sixteen).
pub open spec fn hex_digit(d: nat) -> char {
    if d < 10 {
        (48 + d) as char
    } else {
        (87 + d) as char
    }
}

/// The `i`-th of the 32 hexadecimal digits of `v`, most significant first.
pub open spec fn nibble(v: u128, i: nat) -> nat {
    ((v >> ((124 - 4 * i) as u128)) & 0xfu128) as nat
}

/// The hexadecimal digits of `v` from position `from` up to `to`.
pub open spec fn hex_run(v: u128, from: nat, to: nat) -> Seq<char>
    decreases to,
{
    if to <= from {
        Seq::empty()
    } else {
        hex_run(v, from, (to - 1) as nat).push(hex_digit(nibble(v, (to - 1) as nat)))
    }
}

/// The hyphenated lower-case form of a 128-bit identifier:
/// `xxxxxxxx-xxxx-xxxx-xxxx-xxxxxxxxxxxx`.
pub open spec fn uuid_text(v: u128) -> Seq<char> {
    hex_run(v, 0, 8) + "-"@ + hex_run(v, 8, 12) + "-"@ + hex_run(v, 12, 16) + "-"@ + hex_run(
        v,
        16,
        20,
    ) + "-"@ + hex_run(v, 20, 32)
}

fn push_hex_run(out: &mut String, v: u128, from: usize, to: usize)
    requires
        from <= to <= 32,
    ensures
        final(out)@ == old(out)@ + hex_run(v, from as nat, to as nat),
{
    let ghost start = out@;
    assert(hex_run(v, from as nat, from as nat) =~= Seq::<char>::empty());
    for i in from..to
        invariant
            to <= 32,
            from <= to,
            out@ == start + hex_run(v, from as nat, i as nat),
    {
        let shift: u128 = (124 - 4 * i) as u128;
        let d: u128 = (v >> shift) & 0xfu128;
        assert(d < 16) by (bit_vector)
            requires
                d == (v >> shift) & 0xfu128,
        ;
        let c: char = if d < 10 {
            (48u8 + d as u8) as char
        } else {
            (87u8 + d as u8) as char
        };
        string_push(out, c);
        assert(out@ =~= start + hex_run(v, from as nat, (i + 1) as nat));
    }
}

/// The hyphenated lower-case form of a 128-bit identifier.
pub fn uuid_string(v: u128) -> (r: String)
    ensures
        r@ == uuid_text(v),
{
    let mut s = String::new();
    push_hex_run(&mut s, v, 0, 8);
    string_push(&mut s, '-');
    push_hex_run(&mut s, v, 8, 12);
    string_push(&mut s, '-');
    push_hex_run(&mut s, v, 12, 16);
    string_push(&mut s, '-');
    push_hex_run(&mut s, v, 16, 20);
    string_push(&mut s, '-');
    push_hex_run(&mut s, v, 20, 32);
    proof {
        reveal_strlit("-");
    }
    assert(s@ =~= uuid_text(v));
    s
}

} // verus!
