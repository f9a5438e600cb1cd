//! JSON text framing: string escaping and the small encoders the library
//! needs to hand structured values to the template engine, the database
//! and the on-disk search index. The library builds the JSON text itself;
//! outside code only parses it.

use vstd::prelude::*;

use crate::fingerprint::HEX_DIGITS;
use crate::strutil::{push_char, str_to_chars};

verus! {

/// How one character appears inside a JSON string literal: quote,
/// backslash and control characters are escaped, with the short escapes
/// for the common control characters, and everything else stands as is.
pub open spec fn spec_escaped_char(c: char) -> Seq<char> {
    if c == '"' {
        seq!['\\', '"']
    } else if c == '\\' {
        seq!['\\', '\\']
    } else if c == '\n' {
        seq!['\\', 'n']
    } else if c == '\r' {
        seq!['\\', 'r']
    } else if c == '\t' {
        seq!['\\', 't']
    } else if c == '\u{8}' {
        seq!['\\', 'b']
    } else if c == '\u{c}' {
        seq!['\\', 'f']
    } else if (c as int) < 32 {
        seq!['\\', 'u', '0', '0', HEX_DIGITS@[(c as int) / 16], HEX_DIGITS@[(c as int) % 16]]
    } else {
        seq![c]
    }
}

/// The escaped body of a JSON string literal holding `s`.
pub open spec fn spec_escaped(s: Seq<char>) -> Seq<char>
    decreases s.len(),
{
    if s.len() == 0 {
        Seq::empty()
    } else {
        spec_escaped(s.drop_last()) + spec_escaped_char(s.last())
    }
}

/// A JSON string literal holding `s`.
pub open spec fn spec_json_string(s: Seq<char>) -> Seq<char> {
    seq!['"'] + spec_escaped(s) + seq!['"']
}

/// The comma-separated JSON string literals of `ts`, without brackets.
pub open spec fn spec_json_strings_inner(ts: Seq<Seq<char>>) -> Seq<char>
    decreases ts.len(),
{
    if ts.len() == 0 {
        Seq::empty()
    } else if ts.len() == 1 {
        spec_json_string(ts[0])
    } else {
        spec_json_string(ts.first()) + seq![','] + spec_json_strings_inner(ts.drop_first())
    }
}

/// A JSON array of string literals.
pub open spec fn spec_json_str_array(ts: Seq<Seq<char>>) -> Seq<char> {
    seq!['['] + spec_json_strings_inner(ts) + seq![']']
}

/// Appends one character in its JSON-escaped form.
fn push_escaped(out: &mut String, c: char)
    ensures
        final(out)@ == old(out)@ + spec_escaped_char(c),
{
    if c == '"' {
        push_char(out, '\\');
        push_char(out, '"');
    } else if c == '\\' {
        push_char(out, '\\');
        push_char(out, '\\');
    } else if c == '\n' {
        push_char(out, '\\');
        push_char(out, 'n');
    } else if c == '\r' {
        push_char(out, '\\');
        push_char(out, 'r');
    } else if c == '\t' {
        push_char(out, '\\');
        push_char(out, 't');
    } else if c == '\u{8}' {
        push_char(out, '\\');
        push_char(out, 'b');
    } else if c == '\u{c}' {
        push_char(out, '\\');
        push_char(out, 'f');
    } else if (c as u32) < 32 {
        push_char(out, '\\');
        push_char(out, 'u');
        push_char(out, '0');
        push_char(out, '0');
        let n = c as u32;
        assert((n / 16) < 16 && (n % 16) < 16);
        push_char(out, HEX_DIGITS[(n / 16) as usize]);
        push_char(out, HEX_DIGITS[(n % 16) as usize]);
    } else {
        push_char(out, c);
    }
    proof {
        assert(final(out)@ =~= old(out)@ + spec_escaped_char(c));
    }
}

/// Appends a JSON string literal holding `s`.
pub fn push_json_string(out: &mut String, s: &str)
    ensures
        final(out)@ == old(out)@ + spec_json_string(s@),
{
    let v = str_to_chars(s);
    push_char(out, '"');
    let ghost opened = out@;
    let mut k: usize = 0;
    proof {
        assert(s@.take(0) =~= Seq::<char>::empty());
    }
    while k < v.len()
        invariant
            k <= v@.len(),
            v@ == s@,
            out@ == opened + spec_escaped(s@.take(k as int)),
        decreases v@.len() - k,
    {
        let ghost pre = out@;
        push_escaped(out, v[k]);
        proof {
            assert(s@.take(k + 1).drop_last() =~= s@.take(k as int));
            assert(s@.take(k + 1).last() == s@[k as int]);
            assert(out@ =~= opened + spec_escaped(s@.take(k + 1)));
        }
        k = k + 1;
    }
    proof {
        assert(s@.take(v@.len() as int) =~= s@);
    }
    push_char(out, '"');
    proof {
        assert(final(out)@ =~= old(out)@ + spec_json_string(s@));
    }
}

/// The JSON string literal holding `s`.
pub fn json_string(s: &str) -> (r: String)
    ensures
        r@ == spec_json_string(s@),
{
    let mut out = String::new();
    push_json_string(&mut out, s);
    proof {
        assert(out@ =~= spec_json_string(s@));
    }
    out
}

/// Appending one more string to the comma-separated literals.
proof fn lemma_json_strings_push(ts: Seq<Seq<char>>, x: Seq<char>)
    ensures
        ts.len() == 0 ==> spec_json_strings_inner(ts.push(x)) == spec_json_string(x),
        ts.len() > 0 ==> spec_json_strings_inner(ts.push(x)) == spec_json_strings_inner(ts)
            + seq![','] + spec_json_string(x),
    decreases ts.len(),
{
    if ts.len() == 0 {
        assert(ts.push(x)[0] == x);
    } else if ts.len() == 1 {
        assert(ts.push(x).drop_first() =~= seq![x]);
        assert(spec_json_strings_inner(seq![x]) == spec_json_string(x));
    } else {
        lemma_json_strings_push(ts.drop_first(), x);
        assert(ts.push(x).drop_first() =~= ts.drop_first().push(x));
        assert(spec_json_string(ts.first()) + seq![','] + (spec_json_strings_inner(
            ts.drop_first(),
        ) + seq![','] + spec_json_string(x)) =~= (spec_json_string(ts.first()) + seq![',']
            + spec_json_strings_inner(ts.drop_first())) + seq![','] + spec_json_string(x));
    }
}

/// The JSON array of string literals holding `ts`, the form tag lists
/// take in the database, the template context and the search index.
pub fn json_str_array(ts: &Vec<String>) -> (r: String)
    ensures
        r@ == spec_json_str_array(ts.deep_view()),
{
    let mut out = String::new();
    push_char(&mut out, '[');
    let ghost opened = out@;
    let mut k: usize = 0;
    proof {
        assert(ts.deep_view().take(0) =~= Seq::<Seq<char>>::empty());
    }
    while k < ts.len()
        invariant
            k <= ts@.len(),
            out@ == opened + spec_json_strings_inner(ts.deep_view().take(k as int)),
        decreases ts@.len() - k,
    {
        let ghost pre = ts.deep_view().take(k as int);
        if k > 0 {
            push_char(&mut out, ',');
        }
        push_json_string(&mut out, ts[k].as_str());
        proof {
            lemma_json_strings_push(pre, ts.deep_view()[k as int]);
            assert(ts.deep_view().take(k + 1) =~= pre.push(ts.deep_view()[k as int]));
            if k > 0 {
                assert(out@ =~= opened + (spec_json_strings_inner(pre) + seq![',']
                    + spec_json_string(ts.deep_view()[k as int])));
            } else {
                assert(out@ =~= opened + spec_json_string(ts.deep_view()[k as int]));
            }
        }
        k = k + 1;
    }
    proof {
        assert(ts.deep_view().take(ts@.len() as int) =~= ts.deep_view());
    }
    push_char(&mut out, ']');
    proof {
        assert(out@ =~= spec_json_str_array(ts.deep_view()));
    }
    out
}

/// The comma-separated members of a JSON object: each key as a string
/// literal, a colon, and the member's already-encoded JSON value.
pub open spec fn spec_obj_members(members: Seq<(Seq<char>, Seq<char>)>) -> Seq<char>
    decreases members.len(),
{
    if members.len() == 0 {
        Seq::empty()
    } else if members.len() == 1 {
        spec_json_string(members[0].0) + seq![':'] + members[0].1
    } else {
        spec_obj_members(members.drop_last()) + seq![','] + spec_json_string(members.last().0)
            + seq![':'] + members.last().1
    }
}

/// A JSON object over already-encoded member values.
pub open spec fn spec_obj(members: Seq<(Seq<char>, Seq<char>)>) -> Seq<char> {
    seq!['{'] + spec_obj_members(members) + seq!['}']
}

/// Appending one more member.
proof fn lemma_obj_members_push(members: Seq<(Seq<char>, Seq<char>)>, x: (Seq<char>, Seq<char>))
    ensures
        members.len() == 0 ==> spec_obj_members(members.push(x)) == spec_json_string(x.0)
            + seq![':'] + x.1,
        members.len() > 0 ==> spec_obj_members(members.push(x)) == spec_obj_members(members)
            + seq![','] + spec_json_string(x.0) + seq![':'] + x.1,
{
    if members.len() == 0 {
        assert(members.push(x).len() == 1);
        assert(members.push(x)[0] == x);
    } else {
        assert(members.push(x).drop_last() =~= members);
        assert(members.push(x).last() == x);
    }
}

/// Builds a JSON object from keys and already-encoded member values.
pub fn json_object(members: &Vec<(String, String)>) -> (r: String)
    ensures
        r@ == spec_obj(members.deep_view()),
{
    let mut out = String::new();
    push_char(&mut out, '{');
    let mut k: usize = 0;
    proof {
        assert(members.deep_view().take(0) =~= Seq::<(Seq<char>, Seq<char>)>::empty());
    }
    while k < members.len()
        invariant
            k <= members@.len(),
            out@ == seq!['{'] + spec_obj_members(members.deep_view().take(k as int)),
        decreases members@.len() - k,
    {
        let ghost pre = members.deep_view().take(k as int);
        if k > 0 {
            push_char(&mut out, ',');
        }
        push_json_string(&mut out, members[k].0.as_str());
        push_char(&mut out, ':');
        out.append(members[k].1.as_str());
        proof {
            lemma_obj_members_push(pre, members.deep_view()[k as int]);
            assert(members.deep_view().take(k + 1) =~= pre.push(members.deep_view()[k as int]));
            assert(members.deep_view()[k as int].0 == members@[k as int].0@);
            assert(members.deep_view()[k as int].1 == members@[k as int].1@);
            assert(out@ =~= seq!['{'] + spec_obj_members(members.deep_view().take(k + 1)));
        }
        k = k + 1;
    }
    proof {
        assert(members.deep_view().take(members@.len() as int) =~= members.deep_view());
    }
    push_char(&mut out, '}');
    proof {
        assert(out@ =~= spec_obj(members.deep_view()));
    }
    out
}

} // verus!
