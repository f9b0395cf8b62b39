//! The little of JSON that the runtime needs: writing a text so that it can stand in a script,
//! and reading one field of a file.

use vstd::prelude::*;
use vstd::string::*;

use crate::text;

verus! {

broadcast use vstd::string::group_string_axioms;

// ---------------------------------------------------------------------------
// Writing
// ---------------------------------------------------------------------------

/// The hexadecimal digit for a number below 16.
pub open spec fn hex_digit(d: nat) -> char
    recommends
        d < 16,
{
    if d < 10 {
        text::digit(d)
    } else {
        (('a' as u32 + d - 10) as u32) as char
    }
}

/// How a character is written inside a JSON string: quotes, backslashes and control
/// characters by an escape sequence, every other character as itself.
pub open spec fn escaped_char(c: char) -> Seq<char> {
    let u = c as u32;
    if c == '"' {
        seq!['\\', '"']
    } else if c == '\\' {
        seq!['\\', '\\']
    } else if u == 0x8 {
        seq!['\\', 'b']
    } else if u == 0x9 {
        seq!['\\', 't']
    } else if u == 0xa {
        seq!['\\', 'n']
    } else if u == 0xc {
        seq!['\\', 'f']
    } else if u == 0xd {
        seq!['\\', 'r']
    } else if u < 0x20 {
        seq!['\\', 'u', '0', '0', hex_digit((u / 16) as nat), hex_digit((u % 16) as nat)]
    } else {
        seq![c]
    }
}

/// How a text is written inside a JSON string.
pub open spec fn escaped(s: Seq<char>) -> Seq<char>
    decreases s.len(),
{
    if s.len() == 0 {
        Seq::empty()
    } else {
        escaped_char(s[0]) + escaped(s.skip(1))
    }
}

/// A text as a JSON string.
pub open spec fn json_string(s: Seq<char>) -> Seq<char> {
    seq!['"'] + escaped(s) + seq!['"']
}

/// Writes a text as a JSON string, by `serde_json::Value`'s `Display`. Trusted: between two
/// quotes stands the text, in which a quote, a backslash and the characters below the space
/// are escaped, by their short escape sequence where there is one and else by four lower-case
/// hexadecimal digits, and every other character is itself.
#[verifier::external_body]
pub(crate) fn quote(s: &str) -> (r: String)
    ensures
        r@ == json_string(s@),
{
    serde_json::Value::String(s.to_string()).to_string()
}

// ---------------------------------------------------------------------------
// Reading
// ---------------------------------------------------------------------------

/// The string that `serde_json` finds under `key` in the object that `json` holds; none if
/// `json` is not JSON, not an object, lacks the key, or has something else than a string
/// there.
pub uninterp spec fn json_field(json: Seq<char>, key: Seq<char>) -> Option<Seq<char>>;

/// Reads the string under `key`, by `serde_json::from_str`, `Value::get` and
/// `Value::as_str`. Trusted: what they find depends on the text and the key alone. What
/// counts as JSON is left to `serde_json`.
#[verifier::external_body]
pub(crate) fn text_field(json: &str, key: &str) -> (r: Option<String>)
    ensures
        text::opt_text(r) == json_field(json@, key@),
{
    let value: serde_json::Value = serde_json::from_str(json).ok()?;
    value.get(key)?.as_str().map(|s| s.to_string())
}

// ---------------------------------------------------------------------------
// Laws
// ---------------------------------------------------------------------------

/// The number that a hexadecimal digit stands for.
pub open spec fn hex_value(c: char) -> nat {
    let u = c as u32;
    if 48 <= u <= 57 {
        (u - 48) as nat
    } else {
        (u - 97 + 10) as nat
    }
}

/// The character that an escape sequence stands for, and how long the sequence is; a text
/// that does not start with a backslash starts with a character for itself.
pub open spec fn first_char(e: Seq<char>) -> (char, nat) {
    if e[0] != '\\' {
        (e[0], 1)
    } else if e[1] == 'b' {
        (0x8u32 as char, 2)
    } else if e[1] == 't' {
        (0x9u32 as char, 2)
    } else if e[1] == 'n' {
        (0xau32 as char, 2)
    } else if e[1] == 'f' {
        (0xcu32 as char, 2)
    } else if e[1] == 'r' {
        (0xdu32 as char, 2)
    } else if e[1] == 'u' {
        (((hex_value(e[4]) * 16 + hex_value(e[5])) as u32) as char, 6)
    } else {
        (e[1], 2)
    }
}

/// What a reader finds in a JSON string behind its opening quote: the text up to the quote
/// that closes it, and what follows that quote.
pub open spec fn read_string(e: Seq<char>) -> (Seq<char>, Seq<char>)
    decreases e.len(),
{
    if e.len() == 0 {
        (Seq::empty(), Seq::empty())
    } else if e[0] == '"' {
        (Seq::empty(), e.skip(1))
    } else if first_char(e).1 > e.len() {
        (Seq::empty(), Seq::empty())
    } else {
        let (c, n) = first_char(e);
        let (s, rest) = read_string(e.skip(n as int));
        (seq![c] + s, rest)
    }
}

/// An escape sequence reads back as its character, whatever follows.
proof fn lemma_read_char(c: char, rest: Seq<char>)
    ensures
        ({
            let e = escaped_char(c) + rest;
            &&& e.len() > 0
            &&& e[0] != '"'
            &&& first_char(e) == (c, escaped_char(c).len())
            &&& e.skip(escaped_char(c).len() as int) == rest
        }),
{
    let e = escaped_char(c) + rest;
    let u = c as u32;
    assert(e.skip(escaped_char(c).len() as int) =~= rest);
    if escaped_char(c).len() == 6 {
        assert(u < 0x20);
        assert(hex_value(hex_digit((u / 16) as nat)) == u / 16);
        assert(hex_value(hex_digit((u % 16) as nat)) == u % 16);
        assert((u / 16) * 16 + u % 16 == u);
    }
}

/// A quoted text stays a text, whatever it holds: a reader finds it unchanged, and the
/// quote that closes it is the one that was written behind it.
pub proof fn lemma_quoted_text_reads_back(s: Seq<char>, rest: Seq<char>)
    ensures
        read_string((json_string(s) + rest).skip(1)) == (s, rest),
        (json_string(s) + rest)[0] == '"',
    decreases s.len(),
{
    let e = escaped(s) + seq!['"'] + rest;
    assert((json_string(s) + rest).skip(1) =~= e);
    if s.len() == 0 {
        assert(e.skip(1) =~= rest);
        assert(s =~= Seq::empty());
    } else {
        let tail = escaped(s.skip(1)) + seq!['"'] + rest;
        lemma_quoted_text_reads_back(s.skip(1), rest);
        assert((json_string(s.skip(1)) + rest).skip(1) =~= tail);
        assert(e =~= escaped_char(s[0]) + tail);
        lemma_read_char(s[0], tail);
        assert(seq![s[0]] + s.skip(1) =~= s);
    }
}

/// Two texts are never written the same.
pub proof fn lemma_quoted_texts_differ(a: Seq<char>, b: Seq<char>)
    requires
        json_string(a) == json_string(b),
    ensures
        a == b,
{
    lemma_quoted_text_reads_back(a, Seq::empty());
    lemma_quoted_text_reads_back(b, Seq::empty());
    assert(json_string(a) + Seq::<char>::empty() =~= json_string(a));
    assert(json_string(b) + Seq::<char>::empty() =~= json_string(b));
}

/// A quoted text stays on one line: it holds no control character of ASCII.
pub proof fn lemma_quoted_text_is_one_line(s: Seq<char>)
    ensures
        forall|i: int| 0 <= i < json_string(s).len() ==> (#[trigger] json_string(s)[i]) as u32
            >= 0x20,
{
    lemma_escaped_is_one_line(s);
}

proof fn lemma_escaped_is_one_line(s: Seq<char>)
    ensures
        forall|i: int| 0 <= i < escaped(s).len() ==> (#[trigger] escaped(s)[i]) as u32 >= 0x20,
    decreases s.len(),
{
    if s.len() > 0 {
        lemma_escaped_is_one_line(s.skip(1));
        let e = escaped_char(s[0]);
        let u = s[0] as u32;
        assert(u < 0x20 ==> hex_digit((u / 16) as nat) as u32 >= 0x20 && hex_digit(
            (u % 16) as nat,
        ) as u32 >= 0x20);
        assert(forall|i: int| 0 <= i < e.len() ==> (#[trigger] e[i]) as u32 >= 0x20);
        assert forall|i: int| 0 <= i < escaped(s).len() implies (#[trigger] escaped(s)[i]) as u32
            >= 0x20 by {
            if i < e.len() {
                assert(escaped(s)[i] == e[i]);
            } else {
                assert(escaped(s)[i] == escaped(s.skip(1))[i - e.len()]);
            }
        }
    }
}

} // verus!
