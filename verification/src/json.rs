//! How records are read back: a reader of JSON objects, and the proof that it gives back
//! what a record was written from.
use vstd::prelude::*;
use vstd::utf8::*;

use crate::record::{
    hex_digit, json_char, json_chars, json_member, json_members, json_object, json_string,
    json_value, object_bytes, value_of, JsonValue, Property,
};

verus! {

/// What a hexadecimal digit stands for.
pub open spec fn hex_value(c: char) -> Option<nat> {
    if '0' <= c <= '9' {
        Some((c as int - 48) as nat)
    } else if 'a' <= c <= 'f' {
        Some((c as int - 87) as nat)
    } else if 'A' <= c <= 'F' {
        Some((c as int - 55) as nat)
    } else {
        None
    }
}

/// The code that four hexadecimal digits denote, where it is that of a character.
pub open spec fn hex_code(a: char, b: char, c: char, d: char) -> Option<char> {
    match (hex_value(a), hex_value(b), hex_value(c), hex_value(d)) {
        (Some(p), Some(q), Some(r), Some(s)) => {
            let code = 4096 * p + 256 * q + 16 * r + s;
            if 0xD800 <= code <= 0xDFFF {
                None
            } else {
                Some(code as char)
            }
        },
        _ => None,
    }
}

/// The character that a backslash and the given character stand for.
pub open spec fn short_escape(c: char) -> Option<char> {
    if c == '"' || c == '\\' || c == '/' {
        Some(c)
    } else if c == 'b' {
        Some('\u{8}')
    } else if c == 'f' {
        Some('\u{c}')
    } else if c == 'n' {
        Some('\n')
    } else if c == 'r' {
        Some('\r')
    } else if c == 't' {
        Some('\t')
    } else {
        None
    }
}

/// What has been read, with a text before it.
pub open spec fn prepended(text: Seq<char>, read: Option<(Seq<char>, Seq<char>)>) -> Option<
    (Seq<char>, Seq<char>),
> {
    match read {
        Some((rest, tail)) => Some((text + rest, tail)),
        None => None,
    }
}

/// Reads a JSON string behind its opening quote: the text up to the closing quote, and
/// what follows that. Characters that are escaped as a pair of surrogates are not read.
pub open spec fn read_string(text: Seq<char>) -> Option<(Seq<char>, Seq<char>)>
    decreases text.len(),
{
    if text.len() == 0 || 32 > text[0] as nat {
        None
    } else if text[0] == '"' {
        Some((Seq::empty(), text.skip(1)))
    } else if text[0] == '\\' {
        if text.len() >= 2 && short_escape(text[1]) is Some {
            prepended(seq![short_escape(text[1])->0], read_string(text.skip(2)))
        } else if text.len() >= 6 && text[1] == 'u' && hex_code(
            text[2],
            text[3],
            text[4],
            text[5],
        ) is Some {
            prepended(
                seq![hex_code(text[2], text[3], text[4], text[5])->0],
                read_string(text.skip(6)),
            )
        } else {
            None
        }
    } else {
        prepended(seq![text[0]], read_string(text.skip(1)))
    }
}

/// Reads a JSON string, `true`, `false` or `null`: the value, and what follows it.
pub open spec fn read_value(text: Seq<char>) -> Option<(JsonValue, Seq<char>)> {
    if text.len() > 0 && text[0] == '"' {
        match read_string(text.skip(1)) {
            Some((value, tail)) => Some((JsonValue::Text(value), tail)),
            None => None,
        }
    } else if "true"@.is_prefix_of(text) {
        Some((JsonValue::Boolean(true), text.skip(4)))
    } else if "false"@.is_prefix_of(text) {
        Some((JsonValue::Boolean(false), text.skip(5)))
    } else if "null"@.is_prefix_of(text) {
        Some((JsonValue::Null, text.skip(4)))
    } else {
        None
    }
}

/// Reads a member of a JSON object: its name, its value, and what follows them.
pub open spec fn read_member(text: Seq<char>) -> Option<((Seq<char>, JsonValue), Seq<char>)> {
    if text.len() > 0 && text[0] == '"' {
        match read_string(text.skip(1)) {
            Some((name, tail)) => if tail.len() > 0 && tail[0] == ':' {
                match read_value(tail.skip(1)) {
                    Some((value, rest)) => Some(((name, value), rest)),
                    None => None,
                }
            } else {
                None
            },
            None => None,
        }
    } else {
        None
    }
}

/// Reads at most `limit` members of a JSON object, with commas between them, up to its
/// closing brace: the members, and what follows the brace.
pub open spec fn read_members(text: Seq<char>, limit: nat) -> Option<
    (Seq<(Seq<char>, JsonValue)>, Seq<char>),
>
    decreases limit,
{
    if limit == 0 {
        None
    } else {
        match read_member(text) {
            Some((member, tail)) => if tail.len() > 0 && tail[0] == '}' {
                Some((seq![member], tail.skip(1)))
            } else if tail.len() > 0 && tail[0] == ',' {
                match read_members(tail.skip(1), (limit - 1) as nat) {
                    Some((members, rest)) => Some((seq![member] + members, rest)),
                    None => None,
                }
            } else {
                None
            },
            None => None,
        }
    }
}

/// Reads a JSON object of strings, booleans and nulls that is written without white
/// space: its members, in their order.
pub open spec fn read_object(text: Seq<char>) -> Option<Seq<(Seq<char>, JsonValue)>> {
    if text.len() == 2 && text[0] == '{' && text[1] == '}' {
        Some(Seq::empty())
    } else if text.len() > 0 && text[0] == '{' {
        match read_members(text.skip(1), text.len()) {
            Some((members, tail)) => if tail.len() == 0 {
                Some(members)
            } else {
                None
            },
            None => None,
        }
    } else {
        None
    }
}

/// Reads a line of a dataset.
pub open spec fn read_line(bytes: Seq<u8>) -> Option<Seq<(Seq<char>, JsonValue)>> {
    if valid_utf8(bytes) {
        read_object(decode_utf8(bytes))
    } else {
        None
    }
}

/// The members that an object with these properties has in a record.
pub open spec fn members_of(ps: Seq<Property>) -> Seq<(Seq<char>, JsonValue)> {
    ps.map_values(|p: Property| (p.key@, value_of(p)))
}

proof fn lemma_hex(d: nat)
    requires
        d < 16,
    ensures
        hex_value(hex_digit(d)) == Some(d),
{
    if d < 10 {
        assert(hex_digit(d) as int == 48 + d);
    } else {
        assert(hex_digit(d) as int == 87 + d);
    }
}

proof fn lemma_read_char(c: char, tail: Seq<char>)
    ensures
        read_string(json_char(c) + tail) == prepended(seq![c], read_string(tail)),
{
    let text = json_char(c) + tail;
    if json_char(c).len() == 1 {
        assert(text[0] == c);
        assert(text.skip(1) =~= tail);
    } else if json_char(c).len() == 2 {
        assert(text[0] == '\\' && text[1] == json_char(c)[1]);
        assert(short_escape(text[1]) == Some(c));
        assert(text.skip(2) =~= tail);
    } else {
        let n = c as nat;
        lemma_hex(n / 16);
        lemma_hex(n % 16);
        assert(text[0] == '\\' && text[1] == 'u' && text[2] == '0' && text[3] == '0');
        assert(text[4] == hex_digit(n / 16) && text[5] == hex_digit(n % 16));
        assert(hex_value('0') == Some(0nat));
        assert(16 * (n / 16) + n % 16 == n);
        assert(hex_code(text[2], text[3], text[4], text[5]) == Some(c));
        assert(text.skip(6) =~= tail);
    }
}

proof fn lemma_read_chars(text: Seq<char>, tail: Seq<char>)
    ensures
        read_string(json_chars(text) + tail) == prepended(text, read_string(tail)),
    decreases text.len(),
{
    if text.len() == 0 {
        assert(json_chars(text) + tail =~= tail);
        assert(read_string(tail) matches Some((rest, _)) ==> text + rest =~= rest);
    } else {
        let front = text.drop_last();
        let last = text.last();
        let next = json_char(last) + tail;
        assert(json_chars(text) + tail =~= json_chars(front) + next);
        lemma_read_chars(front, next);
        lemma_read_char(last, tail);
        assert(read_string(tail) matches Some((rest, _)) ==> front + (seq![last] + rest) =~= text
            + rest);
    }
}

/// Reading a string gives back the text that it was written from, and what follows.
pub proof fn lemma_read_string(text: Seq<char>, tail: Seq<char>)
    ensures
        (json_string(text) + tail)[0] == '"',
        read_string((json_string(text) + tail).skip(1)) == Some((text, tail)),
{
    let closing = seq!['"'] + tail;
    assert((json_string(text) + tail).skip(1) =~= json_chars(text) + closing);
    lemma_read_chars(text, closing);
    assert(closing.skip(1) =~= tail);
    assert(text + Seq::<char>::empty() =~= text);
}

proof fn lemma_read_value(value: JsonValue, tail: Seq<char>)
    ensures
        read_value(json_value(value) + tail) == Some((value, tail)),
{
    let text = json_value(value) + tail;
    reveal_strlit("true");
    reveal_strlit("false");
    reveal_strlit("null");
    match value {
        JsonValue::Text(t) => {
            lemma_read_string(t, tail);
        },
        JsonValue::Boolean(b) => {
            if b {
                assert("true"@ =~= text.take(4));
                assert(text.skip(4) =~= tail);
            } else {
                assert(text[0] == 'f');
                assert("false"@ =~= text.take(5));
                assert("true"@.is_prefix_of(text) ==> text.take(4)[0] == 't');
                assert(text.skip(5) =~= tail);
            }
        },
        JsonValue::Null => {
            assert(text[0] == 'n');
            assert("null"@ =~= text.take(4));
            assert("true"@.is_prefix_of(text) ==> text.take(4)[0] == 't');
            assert("false"@.is_prefix_of(text) ==> text.take(5)[0] == 'f');
            assert(text.skip(4) =~= tail);
        },
    }
}

proof fn lemma_read_member(p: Property, tail: Seq<char>)
    ensures
        read_member(json_member(p) + tail) == Some(((p.key@, value_of(p)), tail)),
{
    let value = json_value(value_of(p)) + tail;
    let colon = seq![':'] + value;
    assert(json_member(p) + tail =~= json_string(p.key@) + colon);
    lemma_read_string(p.key@, colon);
    assert(colon.skip(1) =~= value);
    lemma_read_value(value_of(p), tail);
}

proof fn lemma_read_members(ps: Seq<Property>, tail: Seq<char>, limit: nat)
    requires
        0 < ps.len() <= limit,
    ensures
        read_members(json_members(ps) + seq!['}'] + tail, limit) == Some((members_of(ps), tail)),
    decreases ps.len(),
{
    let text = json_members(ps) + seq!['}'] + tail;
    if ps.len() == 1 {
        let closing = seq!['}'] + tail;
        assert(text =~= json_member(ps[0]) + closing);
        lemma_read_member(ps[0], closing);
        assert(closing.skip(1) =~= tail);
        assert(members_of(ps) =~= seq![(ps[0].key@, value_of(ps[0]))]);
    } else {
        let next = json_members(ps.skip(1)) + seq!['}'] + tail;
        let comma = seq![','] + next;
        assert(text =~= json_member(ps[0]) + comma);
        lemma_read_member(ps[0], comma);
        assert(comma.skip(1) =~= next);
        lemma_read_members(ps.skip(1), tail, (limit - 1) as nat);
        assert(members_of(ps) =~= seq![(ps[0].key@, value_of(ps[0]))] + members_of(ps.skip(1)));
    }
}

proof fn lemma_members_len(ps: Seq<Property>)
    ensures
        json_members(ps).len() >= ps.len(),
        ps.len() > 0 ==> json_members(ps).len() > ps.len(),
    decreases ps.len(),
{
    if ps.len() > 1 {
        lemma_members_len(ps.skip(1));
    }
}

/// Reading a record gives back the names and values of the object that it was written
/// from.
pub proof fn lemma_read_object(ps: Seq<Property>)
    ensures
        read_object(json_object(ps)) == Some(members_of(ps)),
        read_line(object_bytes(ps)) == Some(members_of(ps)),
{
    let text = json_object(ps);
    lemma_members_len(ps);
    if ps.len() == 0 {
        assert(members_of(ps) =~= Seq::empty());
    } else {
        assert(text.skip(1) =~= json_members(ps) + seq!['}'] + Seq::empty());
        lemma_read_members(ps, Seq::empty(), text.len());
    }
    encode_utf8_valid_utf8(text);
    encode_utf8_decode_utf8(text);
}

} // verus!
