//! Records: how an object handed over by the caller is written into the dataset, one JSON
//! object on a line.
use vstd::prelude::*;
use vstd::utf8::*;

use crate::text::{
    all_digits, decimal, decimal_chars, is_digit, lemma_decimal_digits, signed_decimal,
    signed_decimal_chars, string_of,
};

verus! {

/// The error of `serde_json`.
#[verifier::external_type_specification]
#[verifier::external_body]
pub struct ExJsonError(serde_json::Error);

pub const LINE_FEED: u8 = 10;

/// The outcome of reading a property as a value of one type.
pub enum Reading<T> {
    /// The property does not convert to the type.
    Failed,
    /// The property is undefined.
    Absent,
    /// The property converts to this value.
    Present(T),
}

/// A property of an object, read as each of the types that a record knows.
pub struct Property {
    pub key: String,
    pub text: Reading<String>,
    pub unsigned: Reading<u32>,
    pub signed: Reading<i32>,
    pub bytes: Reading<Vec<u8>>,
    pub boolean: Reading<bool>,
}

/// An object handed over by the caller: its properties in the order of its keys, or
/// nothing where the keys could not be listed.
pub struct Object {
    pub properties: Option<Vec<Property>>,
}

/// Why an object gives no record.
#[derive(Debug, Clone, Copy, PartialEq, Eq, Structural)]
pub enum RecordError {
    /// The keys of the object could not be listed.
    Keys,
}

/// A value in a record.
pub ghost enum JsonValue {
    Text(Seq<char>),
    Boolean(bool),
    Null,
}

/// How one character stands in a JSON string.
pub open spec fn json_char(c: char) -> Seq<char> {
    if c == '"' {
        seq!['\\', '"']
    } else if c == '\\' {
        seq!['\\', '\\']
    } else if c == '\u{8}' {
        seq!['\\', 'b']
    } else if c == '\t' {
        seq!['\\', 't']
    } else if c == '\n' {
        seq!['\\', 'n']
    } else if c == '\u{c}' {
        seq!['\\', 'f']
    } else if c == '\r' {
        seq!['\\', 'r']
    } else if 32 > c as nat {
        seq!['\\', 'u', '0', '0', hex_digit(c as nat / 16), hex_digit(c as nat % 16)]
    } else {
        seq![c]
    }
}

/// The lower-case hexadecimal digit of a number below sixteen.
pub open spec fn hex_digit(d: nat) -> char {
    if d < 10 {
        (48 + d) as char
    } else {
        (87 + d) as char
    }
}

/// The characters of a text as they stand in a JSON string.
pub open spec fn json_chars(text: Seq<char>) -> Seq<char>
    decreases text.len(),
{
    if text.len() == 0 {
        Seq::empty()
    } else {
        json_chars(text.drop_last()) + json_char(text.last())
    }
}

/// A text as a JSON string, with its quotes.
pub open spec fn json_string(text: Seq<char>) -> Seq<char> {
    seq!['"'] + json_chars(text) + seq!['"']
}

/// `serde_json::to_string` on a string: always succeeds, and gives the JSON string
/// in which quotes, backslashes and the control characters below the space are
/// escaped and everything else stands as it is.
#[verifier::external_body]
fn to_json(text: &String) -> (r: Result<String, serde_json::Error>)
    ensures
        r is Ok,
        r->Ok_0@ == json_string(text@),
{
    serde_json::to_string(text)
}

/// The text that bytes encode, or nothing where they are not UTF-8.
pub open spec fn lenient_text(bytes: Seq<u8>) -> Seq<char> {
    if valid_utf8(bytes) {
        decode_utf8(bytes)
    } else {
        Seq::empty()
    }
}

/// The text of a text reading.
pub open spec fn text_value(reading: Reading<String>) -> Seq<char> {
    match reading {
        Reading::Present(s) => s@,
        _ => Seq::empty(),
    }
}

/// The text of an unsigned reading.
pub open spec fn unsigned_value(reading: Reading<u32>) -> Seq<char> {
    match reading {
        Reading::Present(n) => decimal(n as nat),
        _ => decimal(0),
    }
}

/// The text of a signed reading.
pub open spec fn signed_value(reading: Reading<i32>) -> Seq<char> {
    match reading {
        Reading::Present(n) => signed_decimal(n as int),
        _ => signed_decimal(0),
    }
}

/// The text of a byte-buffer reading.
pub open spec fn buffer_value(reading: Reading<Vec<u8>>) -> Seq<char> {
    match reading {
        Reading::Present(b) => lenient_text(b@),
        _ => Seq::empty(),
    }
}

/// The value that a property has in a record: that of the first of text, unsigned
/// number, signed number, byte buffer and boolean that it converts to, where numbers and
/// buffers become texts. What converts to none of them, as `null` does, is null.
pub open spec fn value_of(p: Property) -> JsonValue {
    if !(p.text is Failed) {
        JsonValue::Text(text_value(p.text))
    } else if !(p.unsigned is Failed) {
        JsonValue::Text(unsigned_value(p.unsigned))
    } else if !(p.signed is Failed) {
        JsonValue::Text(signed_value(p.signed))
    } else if !(p.bytes is Failed) {
        JsonValue::Text(buffer_value(p.bytes))
    } else if !(p.boolean is Failed) {
        JsonValue::Boolean(p.boolean is Present && p.boolean->Present_0)
    } else {
        JsonValue::Null
    }
}

/// A value as JSON.
pub open spec fn json_value(value: JsonValue) -> Seq<char> {
    match value {
        JsonValue::Text(text) => json_string(text),
        JsonValue::Boolean(b) => if b {
            "true"@
        } else {
            "false"@
        },
        JsonValue::Null => "null"@,
    }
}

/// A property as a member of a JSON object.
pub open spec fn json_member(p: Property) -> Seq<char> {
    json_string(p.key@) + seq![':'] + json_value(value_of(p))
}

/// The properties as the members of a JSON object, with commas between them.
pub open spec fn json_members(ps: Seq<Property>) -> Seq<char>
    decreases ps.len(),
{
    if ps.len() == 0 {
        Seq::empty()
    } else if ps.len() == 1 {
        json_member(ps[0])
    } else {
        json_member(ps[0]) + seq![','] + json_members(ps.skip(1))
    }
}

/// The JSON object with these properties.
pub open spec fn json_object(ps: Seq<Property>) -> Seq<char> {
    seq!['{'] + json_members(ps) + seq!['}']
}

/// The JSON object with these properties, as bytes.
pub open spec fn object_bytes(ps: Seq<Property>) -> Seq<u8> {
    encode_utf8(json_object(ps))
}

/// Whether a record is followed by a line feed.
pub open spec fn ends_line(collected_size: nat, link_count: nat) -> bool {
    collected_size > 0 && collected_size + 1 < link_count
}

/// The record of an object with these properties, for a dataset of `collected_size`
/// bytes and a site with `link_count` visited links.
pub open spec fn record_bytes(
    ps: Seq<Property>,
    collected_size: nat,
    link_count: nat,
) -> Seq<u8> {
    if ends_line(collected_size, link_count) {
        object_bytes(ps).push(LINE_FEED)
    } else {
        object_bytes(ps)
    }
}

/// Whether a line of a dataset is still open at its end.
pub open spec fn line_is_open(data: Seq<u8>) -> bool {
    data.len() > 0 && data.last() != LINE_FEED
}

/// A dataset ready for the next record, which begins a line.
pub open spec fn with_line_ended(data: Seq<u8>) -> Seq<u8> {
    if line_is_open(data) {
        data.push(LINE_FEED)
    } else {
        data
    }
}

/// A dataset with the record of one more object.
pub open spec fn stored(data: Seq<u8>, ps: Seq<Property>, link_count: nat) -> Seq<u8> {
    with_line_ended(data) + record_bytes(ps, data.len(), link_count)
}

/// The lines of a dataset that are not empty.
pub open spec fn lines(data: Seq<u8>) -> Seq<Seq<u8>>
    decreases data.len(),
{
    if data.len() == 0 {
        Seq::empty()
    } else {
        let before = lines(data.drop_last());
        if data.last() == LINE_FEED {
            before
        } else if line_is_open(data.drop_last()) {
            before.drop_last().push(before.last().push(data.last()))
        } else {
            before.push(seq![data.last()])
        }
    }
}

proof fn lemma_json_chars_digits(text: Seq<char>)
    requires
        all_digits(text),
    ensures
        json_chars(text) == text,
    decreases text.len(),
{
    if text.len() > 0 {
        let front = text.drop_last();
        assert forall|i: int| 0 <= i < front.len() implies is_digit(#[trigger] front[i]) by {
            assert(front[i] == text[i]);
        }
        lemma_json_chars_digits(front);
        assert(is_digit(text[text.len() - 1]));
        assert(json_chars(text) =~= text);
    }
}

/// Texts one behind the other are escaped one behind the other.
pub proof fn lemma_json_chars_concat(a: Seq<char>, b: Seq<char>)
    ensures
        json_chars(a + b) == json_chars(a) + json_chars(b),
    decreases b.len(),
{
    if b.len() == 0 {
        assert(a + b =~= a);
        assert(json_chars(a) + json_chars(b) =~= json_chars(a));
    } else {
        lemma_json_chars_concat(a, b.drop_last());
        assert((a + b).drop_last() =~= a + b.drop_last());
        assert(json_chars(a + b) =~= json_chars(a) + json_chars(b));
    }
}

proof fn lemma_json_chars_number(n: int)
    ensures
        json_chars(signed_decimal(n)) == signed_decimal(n),
{
    let digits = decimal(if n < 0 { -n } else { n } as nat);
    lemma_decimal_digits(if n < 0 { -n } else { n } as nat);
    lemma_json_chars_digits(digits);
    if n < 0 {
        lemma_json_chars_concat(seq!['-'], digits);
        assert(seq!['-'].drop_last() =~= Seq::empty());
        assert(json_chars(seq!['-'].drop_last()) =~= Seq::empty());
        assert(json_chars(seq!['-']) =~= seq!['-']);
    }
}

/// Appends a number between quotes.
fn push_number(out: &mut String, digits: &Vec<char>, Ghost(n): Ghost<int>)
    requires
        digits@ == signed_decimal(n),
    ensures
        final(out)@ == old(out)@ + json_string(signed_decimal(n)),
{
    let ghost start = out@;
    proof {
        lemma_json_chars_number(n);
    }
    out.push('"');
    out.append(string_of(digits).as_str());
    out.push('"');
    assert(out@ =~= start + json_string(signed_decimal(n)));
}

/// Appends a text as a JSON string.
fn push_string(out: &mut String, text: &String)
    ensures
        final(out)@ == old(out)@ + json_string(text@),
{
    let json = to_json(text).unwrap();
    out.append(json.as_str());
}

/// Appends the value of a property.
fn push_value(out: &mut String, p: &Property)
    ensures
        final(out)@ == old(out)@ + json_value(value_of(*p)),
{
    match &p.text {
        Reading::Present(s) => push_string(out, s),
        Reading::Absent => push_string(out, &String::new()),
        Reading::Failed => match &p.unsigned {
            Reading::Present(n) => push_number(out, &decimal_chars(*n), Ghost(*n as int)),
            Reading::Absent => push_number(out, &decimal_chars(0), Ghost(0)),
            Reading::Failed => match &p.signed {
                Reading::Present(n) => push_number(
                    out,
                    &signed_decimal_chars(*n),
                    Ghost(*n as int),
                ),
                Reading::Absent => push_number(out, &signed_decimal_chars(0), Ghost(0)),
                Reading::Failed => match &p.bytes {
                    Reading::Present(b) => {
                        let text = match String::from_utf8(b.clone()) {
                            Ok(s) => s,
                            Err(_) => String::new(),
                        };
                        assert(text@ =~= lenient_text(b@));
                        push_string(out, &text);
                    },
                    Reading::Absent => push_string(out, &String::new()),
                    Reading::Failed => match &p.boolean {
                        Reading::Present(b) => if *b {
                            out.append("true");
                        } else {
                            out.append("false");
                        },
                        Reading::Absent => out.append("false"),
                        Reading::Failed => out.append("null"),
                    },
                },
            },
        },
    }
}

/// Writes an object as one record of a dataset that holds `collected_size` bytes, for
/// a site with `link_count` visited links.
pub fn object_to_u8(obj: &Object, collected_size: usize, link_count: usize) -> (r: Result<
    Vec<u8>,
    RecordError,
>)
    ensures
        match obj.properties {
            Some(ps) => r is Ok && r->Ok_0@ == record_bytes(
                ps@,
                collected_size as nat,
                link_count as nat,
            ),
            None => r == Err::<Vec<u8>, RecordError>(RecordError::Keys),
        },
{
    let ps = match &obj.properties {
        Some(ps) => ps,
        None => {
            return Err(RecordError::Keys);
        },
    };
    let count: usize = ps.len();
    let mut line = String::new();
    line.push('{');
    assert(ps@.skip(0) =~= ps@);
    assert(line@ + json_members(ps@) =~= seq!['{'] + json_members(ps@));
    for i in 0..count
        invariant
            count == ps@.len(),
            line@ + json_members(ps@.skip(i as int)) == seq!['{'] + json_members(ps@),
    {
        let ghost start = line@;
        let ghost rest = ps@.skip(i as int);
        assert(rest[0] == ps@[i as int]);
        assert(rest.skip(1) =~= ps@.skip(i + 1));
        push_string(&mut line, &ps[i].key);
        line.push(':');
        push_value(&mut line, &ps[i]);
        assert(line@ =~= start + json_member(ps@[i as int]));
        if i != count - 1 {
            line.push(',');
            assert(line@ + json_members(ps@.skip(i + 1)) =~= start + (json_member(rest[0]) + seq![
                ',',
            ] + json_members(rest.skip(1))));
        } else {
            assert(line@ + json_members(ps@.skip(i + 1)) =~= start + json_member(rest[0]));
        }
    }
    assert(line@ + json_members(ps@.skip(count as int)) =~= line@);
    line.push('}');
    assert(line@ =~= json_object(ps@));
    let mut ss: Vec<u8> = Vec::new();
    ss.extend_from_slice(line.as_str().as_bytes());
    assert(ss@ =~= object_bytes(ps@));
    if collected_size > 0 && link_count > 1 && collected_size < link_count - 1 {
        ss.push(LINE_FEED);
    }
    Ok(ss)
}

/// Adds the record of an object to a dataset; it begins a line of its own.
pub(crate) fn store(data: &mut Vec<u8>, obj: &Object, link_count: usize) -> (r: Result<
    (),
    RecordError,
>)
    ensures
        match obj.properties {
            Some(ps) => r is Ok && final(data)@ == stored(old(data)@, ps@, link_count as nat),
            None => r == Err::<(), RecordError>(RecordError::Keys) && final(data)@ == old(data)@,
        },
{
    match object_to_u8(obj, data.len(), link_count) {
        Ok(mut record) => {
            let len: usize = data.len();
            if len > 0 && data[len - 1] != LINE_FEED {
                data.push(LINE_FEED);
            }
            data.append(&mut record);
            Ok(())
        },
        Err(e) => Err(e),
    }
}

} // verus!
