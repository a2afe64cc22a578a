//! JSON text: writing strings as `serde_json` escapes them.

use vstd::prelude::*;

verus! {

broadcast use crate::text::lemma_chars_deep_view;

/// The escaped form of one character inside a JSON string, as `serde_json`
/// writes it.
pub open spec fn json_escape_char(c: char) -> Seq<char> {
    if c == '"' {
        seq!['\\', '"']
    } else if c == '\\' {
        seq!['\\', '\\']
    } else if c == '\n' {
        seq!['\\', 'n']
    } else if c == '\r' {
        seq!['\\', 'r']
    } else if c == '\t' {
        seq!['\\', 't']
    } else if c == '\u{8}' {
        seq!['\\', 'b']
    } else if c == '\u{c}' {
        seq!['\\', 'f']
    } else if (c as u32) < 32 {
        seq!['\\', 'u', '0', '0', crate::ids::hex_digit((c as u32 / 16) as int), crate::ids::hex_digit((c as u32 % 16) as int)]
    } else {
        seq![c]
    }
}

/// The escaped form of a text inside a JSON string.
pub open spec fn json_escape(s: Seq<char>) -> Seq<char>
    decreases s.len(),
{
    if s.len() == 0 {
        Seq::empty()
    } else {
        json_escape(s.drop_last()) + json_escape_char(s.last())
    }
}

/// A JSON string holding `s`.
pub open spec fn json_str(s: Seq<char>) -> Seq<char> {
    seq!['"'] + json_escape(s) + seq!['"']
}

/// A JSON string holding `s`, or `null`.
pub open spec fn json_opt_str(o: Option<Seq<char>>) -> Seq<char> {
    match o {
        Some(s) => json_str(s),
        None => "null"@,
    }
}

/// The escaped form of one character.
fn escape_char_of(c: char) -> (r: Vec<char>)
    ensures
        r@ == json_escape_char(c),
{
    let mut v: Vec<char> = Vec::new();
    if c == '"' {
        v.push('\\');
        v.push('"');
    } else if c == '\\' {
        v.push('\\');
        v.push('\\');
    } else if c == '\n' {
        v.push('\\');
        v.push('n');
    } else if c == '\r' {
        v.push('\\');
        v.push('r');
    } else if c == '\t' {
        v.push('\\');
        v.push('t');
    } else if c == '\u{8}' {
        v.push('\\');
        v.push('b');
    } else if c == '\u{c}' {
        v.push('\\');
        v.push('f');
    } else if (c as u32) < 32 {
        let n: u32 = c as u32;
        v.push('\\');
        v.push('u');
        v.push('0');
        v.push('0');
        v.push(crate::hashing::hex_digit_of((n / 16) as u8));
        v.push(crate::hashing::hex_digit_of((n % 16) as u8));
    } else {
        v.push(c);
    }
    assert(v@ =~= json_escape_char(c));
    v
}

/// A JSON string holding `s`.
pub fn json_str_of(s: &str) -> (r: Vec<char>)
    ensures
        r@ == json_str(s@),
{
    let cs = crate::text::chars_of(s);
    let mut out: Vec<char> = Vec::new();
    out.push('"');
    let mut i: usize = 0;
    assert(cs@.subrange(0, 0) =~= Seq::<char>::empty());
    while i < cs.len()
        invariant
            i <= cs@.len(),
            out@ == seq!['"'] + json_escape(cs@.subrange(0, i as int)),
        decreases cs.len() - i,
    {
        proof {
            assert(cs@.subrange(0, i + 1).drop_last() =~= cs@.subrange(0, i as int));
        }
        let e = escape_char_of(cs[i]);
        out = crate::text::concat_chars(&out, &e);
        proof {
            assert(out@ =~= seq!['"'] + json_escape(cs@.subrange(0, i + 1)));
        }
        i = i + 1;
    }
    out.push('"');
    assert(cs@.subrange(0, cs@.len() as int) =~= cs@);
    assert(out@ =~= json_str(s@));
    out
}

/// A JSON string holding `o`, or `null`.
pub fn json_opt_str_of(o: &Option<String>) -> (r: Vec<char>)
    ensures
        r@ == json_opt_str(crate::skill_engine::opt_view(*o)),
{
    match o {
        Some(s) => json_str_of(s.as_str()),
        None => crate::text::chars_of("null"),
    }
}

} // verus!
