//! The JSON text of an entity document, as the engine's entity loader reads it.
//!
//! The text is compact: no white space between tokens. Strings are escaped as
//! JSON requires, so any attribute text gives a well-formed document.

use crate::attrs::{texts, AttrModel, AttrValue, AttributeRecord, RecordModel};
use crate::text::{decimal, push_decimal};
use vstd::prelude::*;

verus! {

/// The character that writes the hexadecimal digit `d`.
pub open spec fn hex_char(d: int) -> char {
    if d == 0 {
        '0'
    } else if d == 1 {
        '1'
    } else if d == 2 {
        '2'
    } else if d == 3 {
        '3'
    } else if d == 4 {
        '4'
    } else if d == 5 {
        '5'
    } else if d == 6 {
        '6'
    } else if d == 7 {
        '7'
    } else if d == 8 {
        '8'
    } else if d == 9 {
        '9'
    } else if d == 10 {
        'a'
    } else if d == 11 {
        'b'
    } else if d == 12 {
        'c'
    } else if d == 13 {
        'd'
    } else if d == 14 {
        'e'
    } else {
        'f'
    }
}

/// One character as it stands inside a JSON string: the quote and the
/// backslash behind a backslash, a control character as `\u00XX`, any other
/// character as itself.
pub open spec fn escaped_char(c: char) -> Seq<char> {
    if c == '"' {
        seq!['\\', '"']
    } else if c == '\\' {
        seq!['\\', '\\']
    } else if (c as u32) < 0x20 {
        seq!['\\', 'u', '0', '0', hex_char((c as u32 / 16) as int), hex_char((c as u32 % 16) as int)]
    } else {
        seq![c]
    }
}

/// A text as it stands inside a JSON string.
pub open spec fn escaped(s: Seq<char>) -> Seq<char>
    decreases s.len(),
{
    if s.len() == 0 {
        Seq::empty()
    } else {
        escaped(s.drop_last()) + escaped_char(s.last())
    }
}

/// A text as a JSON string.
pub open spec fn quoted(s: Seq<char>) -> Seq<char> {
    seq!['"'] + escaped(s) + seq!['"']
}

/// The parts with a comma between each two.
pub open spec fn comma_joined(parts: Seq<Seq<char>>) -> Seq<char>
    decreases parts.len(),
{
    if parts.len() == 0 {
        Seq::empty()
    } else if parts.len() == 1 {
        parts[0]
    } else {
        comma_joined(parts.drop_last()) + seq![','] + parts.last()
    }
}

/// Each text as a JSON string.
pub open spec fn quoted_all(items: Seq<Seq<char>>) -> Seq<Seq<char>> {
    Seq::new(items.len(), |i: int| quoted(items[i]))
}

/// Texts as a JSON array of strings.
pub open spec fn list_text(items: Seq<Seq<char>>) -> Seq<char> {
    seq!['['] + comma_joined(quoted_all(items)) + seq![']']
}

/// An integer as a JSON number.
pub open spec fn long_text(v: int) -> Seq<char> {
    if v < 0 {
        seq!['-'] + decimal((-v) as nat)
    } else {
        decimal(v as nat)
    }
}

/// A truth value as a JSON literal.
pub open spec fn flag_text(b: bool) -> Seq<char> {
    if b {
        "true"@
    } else {
        "false"@
    }
}

/// An attribute value as JSON.
pub open spec fn value_text(v: AttrModel) -> Seq<char> {
    match v {
        AttrModel::Text(s) => quoted(s),
        AttrModel::Long(n) => long_text(n),
        AttrModel::Flag(b) => flag_text(b),
        AttrModel::TextSet(items) => list_text(items),
    }
}

/// One member of a JSON object.
pub open spec fn member_text(m: (Seq<char>, AttrModel)) -> Seq<char> {
    quoted(m.0) + seq![':'] + value_text(m.1)
}

/// Each member of a record as a member of a JSON object.
pub open spec fn members(r: RecordModel) -> Seq<Seq<char>> {
    Seq::new(r.len(), |i: int| member_text(r[i]))
}

/// A record as a JSON object, members in the record's order.
pub open spec fn object_text(r: RecordModel) -> Seq<char> {
    seq!['{'] + comma_joined(members(r)) + seq!['}']
}

/// One entity without parents.
pub open spec fn entity_text(kind: Seq<char>, id: Seq<char>, attrs: RecordModel) -> Seq<char> {
    "{\"uid\":{\"type\":"@ + quoted(kind) + ",\"id\":"@ + quoted(id) + "},\"attrs\":"@
        + object_text(attrs) + ",\"parents\":[]}"@
}

/// The entity document of a scenario: the principal, a `User` with the given
/// attributes, and the resource, a `Resource` with none.
pub open spec fn entities_text(principal: Seq<char>, attrs: RecordModel, resource: Seq<char>) -> Seq<
    char,
> {
    seq!['['] + entity_text("User"@, principal, attrs) + seq![','] + entity_text(
        "Resource"@,
        resource,
        Seq::empty(),
    ) + seq![']']
}

/// The hexadecimal digit character of `d`.
pub fn hex_digit(d: u32) -> (c: char)
    requires
        d < 16,
    ensures
        c == hex_char(d as int),
{
    if d == 0 {
        '0'
    } else if d == 1 {
        '1'
    } else if d == 2 {
        '2'
    } else if d == 3 {
        '3'
    } else if d == 4 {
        '4'
    } else if d == 5 {
        '5'
    } else if d == 6 {
        '6'
    } else if d == 7 {
        '7'
    } else if d == 8 {
        '8'
    } else if d == 9 {
        '9'
    } else if d == 10 {
        'a'
    } else if d == 11 {
        'b'
    } else if d == 12 {
        'c'
    } else if d == 13 {
        'd'
    } else if d == 14 {
        'e'
    } else {
        'f'
    }
}

/// Appends one character, escaped.
pub fn push_escaped_char(out: &mut String, c: char)
    ensures
        final(out)@ == old(out)@ + escaped_char(c),
{
    let code: u32 = c as u32;
    if c == '"' {
        out.push('\\');
        out.push('"');
    } else if c == '\\' {
        out.push('\\');
        out.push('\\');
    } else if code < 0x20 {
        out.push('\\');
        out.push('u');
        out.push('0');
        out.push('0');
        out.push(hex_digit(code / 16));
        out.push(hex_digit(code % 16));
    } else {
        out.push(c);
    }
    assert(out@ =~= old(out)@ + escaped_char(c));
}

/// Appends a text as a JSON string.
pub fn push_quoted(out: &mut String, s: &str)
    ensures
        final(out)@ == old(out)@ + quoted(s@),
{
    let ghost start = out@;
    out.push('"');
    let n = s.unicode_len();
    let mut i: usize = 0;
    assert(s@.take(0) =~= Seq::<char>::empty());
    while i < n
        invariant
            i <= n,
            n == s@.len(),
            out@ == start + seq!['"'] + escaped(s@.take(i as int)),
        decreases n - i,
    {
        let c = s.get_char(i);
        push_escaped_char(out, c);
        proof {
            assert(s@.take(i as int + 1).drop_last() =~= s@.take(i as int));
            assert(out@ =~= start + seq!['"'] + escaped(s@.take(i as int + 1)));
        }
        i = i + 1;
    }
    out.push('"');
    proof {
        assert(s@.take(n as int) =~= s@);
        assert(out@ =~= start + quoted(s@));
    }
}

/// Appends texts as a JSON array of strings.
pub fn push_list(out: &mut String, items: &Vec<String>)
    ensures
        final(out)@ == old(out)@ + list_text(texts(items@)),
{
    let ghost start = out@;
    let ghost parts = quoted_all(texts(items@));
    out.push('[');
    let mut i: usize = 0;
    while i < items.len()
        invariant
            i <= items@.len(),
            parts == quoted_all(texts(items@)),
            out@ == start + seq!['['] + comma_joined(parts.take(i as int)),
        decreases items.len() - i,
    {
        let ghost head = out@;
        if i > 0 {
            out.push(',');
        }
        push_quoted(out, items[i].as_str());
        proof {
            let next = parts.take(i as int + 1);
            assert(next.drop_last() =~= parts.take(i as int));
            assert(next.last() == quoted(items@[i as int]@));
            assert(out@ =~= start + seq!['['] + comma_joined(next));
        }
        i = i + 1;
    }
    out.push(']');
    proof {
        assert(parts.take(i as int) =~= parts);
        assert(out@ =~= start + list_text(texts(items@)));
    }
}

/// Appends an integer as a JSON number.
pub fn push_long(out: &mut String, v: i64)
    ensures
        final(out)@ == old(out)@ + long_text(v as int),
{
    if v < 0 {
        out.push('-');
        let magnitude: u64 = ((-(v + 1)) as u64) + 1;
        push_decimal(out, magnitude);
        assert(out@ =~= old(out)@ + long_text(v as int));
    } else {
        push_decimal(out, v as u64);
    }
}

/// Appends an attribute value as JSON.
pub fn push_value(out: &mut String, value: &AttrValue)
    ensures
        final(out)@ == old(out)@ + value_text(value@),
{
    match value {
        AttrValue::Text(s) => push_quoted(out, s.as_str()),
        AttrValue::Long(n) => push_long(out, *n),
        AttrValue::Flag(b) => {
            if *b {
                out.append("true");
            } else {
                out.append("false");
            }
        },
        AttrValue::TextSet(items) => push_list(out, items),
    }
}

/// Appends a record as a JSON object.
pub fn push_object(out: &mut String, record: &AttributeRecord)
    ensures
        final(out)@ == old(out)@ + object_text(record@),
{
    let ghost start = out@;
    let ghost parts = members(record@);
    out.push('{');
    let n = record.len();
    let mut i: usize = 0;
    while i < n
        invariant
            i <= n,
            n == record@.len(),
            parts == members(record@),
            out@ == start + seq!['{'] + comma_joined(parts.take(i as int)),
        decreases n - i,
    {
        if i > 0 {
            out.push(',');
        }
        let member = record.entry(i);
        push_quoted(out, member.name.as_str());
        out.push(':');
        push_value(out, &member.value);
        proof {
            let next = parts.take(i as int + 1);
            assert(next.drop_last() =~= parts.take(i as int));
            assert(next.last() == member_text(record@[i as int]));
            assert(out@ =~= start + seq!['{'] + comma_joined(next));
        }
        i = i + 1;
    }
    out.push('}');
    proof {
        assert(parts.take(i as int) =~= parts);
        assert(out@ =~= start + object_text(record@));
    }
}

/// Appends one entity without parents.
pub fn push_entity(out: &mut String, kind: &str, id: &str, attrs: &AttributeRecord)
    ensures
        final(out)@ == old(out)@ + entity_text(kind@, id@, attrs@),
{
    out.append("{\"uid\":{\"type\":");
    push_quoted(out, kind);
    out.append(",\"id\":");
    push_quoted(out, id);
    out.append("},\"attrs\":");
    push_object(out, attrs);
    out.append(",\"parents\":[]}");
    assert(out@ =~= old(out)@ + entity_text(kind@, id@, attrs@));
}

/// The entity document of a scenario.
pub fn entities_json(principal: &str, attrs: &AttributeRecord, resource: &str) -> (doc: String)
    ensures
        doc@ == entities_text(principal@, attrs@, resource@),
{
    let mut doc = String::new();
    let bare = AttributeRecord::new();
    doc.push('[');
    push_entity(&mut doc, "User", principal, attrs);
    doc.push(',');
    push_entity(&mut doc, "Resource", resource, &bare);
    doc.push(']');
    assert(doc@ =~= entities_text(principal@, attrs@, resource@));
    doc
}

} // verus!
