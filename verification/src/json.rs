//! JSON text: quoted strings and flat objects.
use crate::text::{digit, join, joined, texts};
use vstd::prelude::*;
use vstd::string::*;

verus! {

/// How one character stands in a JSON string.
pub open spec fn escaped_char(c: char) -> Seq<char> {
    let n = c as u32;
    if c == '"' {
        seq!['\\', '"']
    } else if c == '\\' {
        seq!['\\', '\\']
    } else if n == 0x8 {
        seq!['\\', 'b']
    } else if n == 0x9 {
        seq!['\\', 't']
    } else if n == 0xA {
        seq!['\\', 'n']
    } else if n == 0xC {
        seq!['\\', 'f']
    } else if n == 0xD {
        seq!['\\', 'r']
    } else if n < 0x20 {
        seq!['\\', 'u', '0', '0', digit((n / 16) as int), digit((n % 16) as int)]
    } else {
        seq![c]
    }
}

/// How a text stands in a JSON string, without the quotes.
pub open spec fn escaped(s: Seq<char>) -> Seq<char>
    decreases s.len(),
{
    if s.len() == 0 {
        Seq::empty()
    } else {
        escaped(s.drop_last()) + escaped_char(s.last())
    }
}

/// A text as a JSON string.
pub open spec fn quoted(s: Seq<char>) -> Seq<char> {
    seq!['"'] + escaped(s) + seq!['"']
}

/// A text as a JSON string.
///
/// Calls `serde_json::Value::to_string` on a string value, which puts the text
/// between quotes and escapes the quote, the backslash and the characters
/// below U+0020, the latter by their short form where JSON has one and by
/// `\u00` and two lower-case hexadecimal digits elsewhere. Every other
/// character stands for itself.
#[verifier::external_body]
pub(crate) fn json_string(s: &str) -> (res: String)
    ensures
        res@ == quoted(s@),
{
    serde_json::Value::String(s.to_owned()).to_string()
}

/// A member of an object: its key and the text of its value.
pub open spec fn member(key: Seq<char>, value: Seq<char>) -> Seq<char> {
    quoted(key) + ":"@ + value
}

/// An object with the given members, in the given order.
pub open spec fn object(members: Seq<Seq<char>>) -> Seq<char> {
    "{"@ + joined(members, ","@) + "}"@
}

/// A member of an object: its key and the text of its value.
pub fn member_text(key: &str, value: &String) -> (res: String)
    ensures
        res@ == member(key@, value@),
{
    let mut out = json_string(key);
    out.append(":");
    out.append(value.as_str());
    out
}

/// A member of an object with a string for its value.
pub fn string_member(key: &str, value: &str) -> (res: String)
    ensures
        res@ == member(key@, quoted(value@)),
{
    member_text(key, &json_string(value))
}

/// An object with the given members, in the given order.
pub fn object_text(members: &Vec<String>) -> (res: String)
    ensures
        res@ == object(texts(members@)),
{
    let mut out = "{".to_owned();
    out.append(join(members, ",").as_str());
    out.append("}");
    out
}

/// A text stands in a JSON string character by character; the quote, the backslash and
/// the characters that do not show are escaped, and all others stand for themselves.
pub proof fn texts_are_escaped_character_by_character(a: Seq<char>, b: Seq<char>, c: char)
    ensures
        escaped(Seq::empty()) == Seq::<char>::empty(),
        escaped(a + b) == escaped(a) + escaped(b),
        escaped(seq![c]) == escaped_char(c),
        c >= ' ' && c != '"' && c != '\\' ==> escaped_char(c) == seq![c],
        c < ' ' || c == '"' || c == '\\' ==> escaped_char(c).len() >= 2
            && escaped_char(c)[0] == '\\',
        quoted(a) == seq!['"'] + escaped(a) + seq!['"'],
    decreases b.len(),
{
    assert(seq![c].drop_last() =~= Seq::<char>::empty());
    assert(escaped(Seq::<char>::empty()) == Seq::<char>::empty());
    assert(escaped(seq![c]) =~= escaped_char(c));
    if b.len() == 0 {
        assert(a + b =~= a);
        assert(escaped(a) + escaped(b) =~= escaped(a));
    } else {
        assert((a + b).drop_last() =~= a + b.drop_last());
        texts_are_escaped_character_by_character(a, b.drop_last(), c);
        assert(escaped(a + b) =~= escaped(a) + escaped(b));
    }
}

/// An object holds its members in their order between braces, with a comma between
/// each two, and a member is its key, a colon and its value.
pub proof fn objects_hold_their_members(key: Seq<char>, value: Seq<char>, members: Seq<Seq<char>>)
    ensures
        member(key, value) == seq!['"'] + escaped(key) + seq!['"'] + ":"@ + value,
        object(members) == "{"@ + joined(members, ","@) + "}"@,
{
}

} // verus!
