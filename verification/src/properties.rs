//! What the operations do, in terms of what goes in and what comes out.
use vstd::prelude::*;
use vstd::utf8::*;

use crate::budget::limits_map;
use crate::handles::{
    ascending_ids, enrolled, entries_left, following_id, has_room, lemma_following_id, lemma_slot,
    registered, released_handles, slot,
};
use crate::headers::{
    headers_of, is_token_char, names_of, valid_header_name, valid_header_value, HeaderField, HEADER_LIMIT,
};
use crate::json::{lemma_read_object, members_of, read_line};
use crate::laws::law_store_adds_a_line;
use crate::record::{
    json_char, json_chars, json_member, json_members, json_object, json_string, json_value,
    lemma_json_chars_concat, lines, object_bytes, record_bytes, stored, value_of, JsonValue, Property,
    Reading,
};
use crate::session::{
    crawl_method, cron_opening, opening, scrape_method, Action, Event, Method, Session,
};
use crate::site::{
    compact_chars, compact_texts, domain_hosts, new_site_state, parsed_host, start_url, texts,
    trimmed_end, trimmed_start, CompactText, CronType, SiteState,
};
use crate::storage::{default_file, directory_for, file_for, parent};
use crate::text::{
    decimal, digit, lemma_encode_ascii, lemma_encode_concat, lower, signed_decimal, without,
};
use crate::website::WebsiteState;

verus! {

/// The number that a sequence of decimal digits denotes, each digit counting ten times as
/// much as the one behind it.
pub open spec fn numeral(digits: Seq<char>) -> int
    decreases digits.len(),
{
    if digits.len() == 0 {
        0
    } else {
        10 * numeral(digits.drop_last()) + (digits.last() as int - 48)
    }
}

/// Whether a text is the numeral of a natural number: digits, without zeros before
/// others, that denote it.
pub open spec fn denotes_natural(text: Seq<char>, n: int) -> bool {
    &&& text.len() > 0
    &&& forall|i: int| 0 <= i < text.len() ==> 48 <= (#[trigger] text[i]) as int <= 57
    &&& text.len() > 1 ==> text[0] != '0'
    &&& numeral(text) == n
}

/// Whether a text is the numeral of an integer, with a minus sign before that of a
/// negative one.
pub open spec fn denotes(text: Seq<char>, n: int) -> bool {
    if n < 0 {
        text.len() > 0 && text[0] == '-' && denotes_natural(text.skip(1), -n)
    } else {
        denotes_natural(text, n)
    }
}

/// A natural number is written as its numeral.
pub proof fn law_decimal_denotes_the_number(n: nat)
    ensures
        denotes_natural(decimal(n), n as int),
    decreases n,
{
    let text = decimal(n);
    if n < 10 {
        assert(digit(n) as int == 48 + n);
        assert(text.drop_last() =~= Seq::empty());
        assert(numeral(text.drop_last()) == 0);
    } else {
        law_decimal_denotes_the_number(n / 10);
        assert(digit(n % 10) as int == 48 + n % 10);
        assert(text.drop_last() =~= decimal(n / 10));
        assert(text[0] == decimal(n / 10)[0]);
        if decimal(n / 10).len() == 1 {
            let front = decimal(n / 10);
            assert(front.drop_last() =~= Seq::empty());
            assert(numeral(front.drop_last()) == 0);
            assert(numeral(front) == front[0] as int - 48);
        }
    }
}

/// An integer is written as its numeral.
pub proof fn law_signed_decimal_denotes_the_number(n: int)
    ensures
        denotes(signed_decimal(n), n),
{
    if n < 0 {
        law_decimal_denotes_the_number((-n) as nat);
        assert(signed_decimal(n).skip(1) =~= decimal((-n) as nat));
    } else {
        law_decimal_denotes_the_number(n as nat);
    }
}

/// Different integers are written differently.
pub proof fn law_numbers_have_texts_of_their_own(a: int, b: int)
    requires
        a != b,
    ensures
        signed_decimal(a) != signed_decimal(b),
{
    law_signed_decimal_denotes_the_number(a);
    law_signed_decimal_denotes_the_number(b);
    if signed_decimal(a) == signed_decimal(b) {
        assert(48 <= signed_decimal(a)[0] as int <= 57 || signed_decimal(a)[0] == '-');
    }
}

/// How a member of a record relates to the property that it was written from: it has the
/// key of the property, and the value of the first type that the property converts to.
pub open spec fn member_tells(member: (Seq<char>, JsonValue), p: Property) -> bool {
    &&& member.0 == p.key@
    &&& match p.text {
        Reading::Present(s) => member.1 == JsonValue::Text(s@),
        Reading::Absent => member.1 == JsonValue::Text(Seq::empty()),
        Reading::Failed => match p.unsigned {
            Reading::Present(n) => member.1 is Text && denotes(member.1->Text_0, n as int),
            Reading::Absent => member.1 == JsonValue::Text(seq!['0']),
            Reading::Failed => match p.signed {
                Reading::Present(n) => member.1 is Text && denotes(member.1->Text_0, n as int),
                Reading::Absent => member.1 == JsonValue::Text(seq!['0']),
                Reading::Failed => match p.bytes {
                    Reading::Present(b) => if valid_utf8(b@) {
                        member.1 is Text && encode_utf8(member.1->Text_0) == b@
                    } else {
                        member.1 == JsonValue::Text(Seq::empty())
                    },
                    Reading::Absent => member.1 == JsonValue::Text(Seq::empty()),
                    Reading::Failed => match p.boolean {
                        Reading::Present(b) => member.1 == JsonValue::Boolean(b),
                        Reading::Absent => member.1 == JsonValue::Boolean(false),
                        Reading::Failed => member.1 == JsonValue::Null,
                    },
                },
            },
        },
    }
}

/// Whether a line reads back as an object with these properties, in the same order.
pub open spec fn line_tells(line: Seq<u8>, ps: Seq<Property>) -> bool {
    match read_line(line) {
        Some(members) => members.len() == ps.len() && forall|i: int|
            0 <= i < ps.len() ==> member_tells(#[trigger] members[i], ps[i]),
        None => false,
    }
}

proof fn lemma_value_tells(p: Property)
    ensures
        member_tells((p.key@, value_of(p)), p),
{
    let zero = seq!['0'];
    assert(decimal(0) =~= zero);
    assert(signed_decimal(0) =~= zero);
    if let Reading::Present(n) = p.unsigned {
        law_decimal_denotes_the_number(n as nat);
    }
    if let Reading::Present(n) = p.signed {
        law_signed_decimal_denotes_the_number(n as int);
    }
    if let Reading::Present(b) = p.bytes {
        if valid_utf8(b@) {
            decode_utf8_encode_utf8(b@);
        }
    }
}

/// Storing an object adds a line from which the object can be read back: a member for
/// each property, in the same order, with the property's key, and with its value. A text
/// comes back character by character, a number as its numeral, a buffer of UTF-8 as the
/// text that it encodes, a boolean as itself.
pub proof fn law_stored_object_reads_back(data: Seq<u8>, ps: Seq<Property>, link_count: nat)
    ensures
        lines(stored(data, ps, link_count)).len() == lines(data).len() + 1,
        line_tells(lines(stored(data, ps, link_count)).last(), ps),
{
    law_store_adds_a_line(data, ps, link_count);
    lemma_read_object(ps);
    assert forall|i: int| 0 <= i < ps.len() implies member_tells(
        #[trigger] members_of(ps)[i],
        ps[i],
    ) by {
        lemma_value_tells(ps[i]);
    }
}

/// A JSON string is made character by character: what two texts give stands one behind
/// the other between the quotes.
pub proof fn law_json_string_of_parts(a: Seq<char>, b: Seq<char>)
    ensures
        json_string(Seq::empty()) == seq!['"', '"'],
        json_string(a + b) == json_string(a).drop_last() + json_string(b).skip(1),
{
    lemma_json_chars_concat(a, b);
    assert(json_string(Seq::empty()) =~= seq!['"', '"']);
    assert(json_string(a + b) =~= json_string(a).drop_last() + json_string(b).skip(1));
}

proof fn lemma_json_of_char(c: char)
    ensures
        json_string(seq![c]) == seq!['"'] + json_char(c) + seq!['"'],
{
    assert(seq![c].drop_last() =~= Seq::empty());
    assert(json_chars(seq![c].drop_last()) =~= Seq::empty());
    assert(json_chars(seq![c]) =~= json_char(c));
}

/// The hexadecimal digits in their order.
pub open spec fn hex_digits() -> Seq<char> {
    seq!['0', '1', '2', '3', '4', '5', '6', '7', '8', '9', 'a', 'b', 'c', 'd', 'e', 'f']
}

/// A character stands in a JSON string as itself, but for the quote, the backslash and
/// the control characters, which are escaped.
pub proof fn law_json_string_of_a_character(c: char)
    ensures
        32 <= c as int && c != '"' && c != '\\' ==> json_string(seq![c]) == seq!['"', c, '"'],
        c == '"' ==> json_string(seq![c]) == seq!['"', '\\', '"', '"'],
        c == '\\' ==> json_string(seq![c]) == seq!['"', '\\', '\\', '"'],
        c as int == 8 ==> json_string(seq![c]) == seq!['"', '\\', 'b', '"'],
        c as int == 9 ==> json_string(seq![c]) == seq!['"', '\\', 't', '"'],
        c as int == 10 ==> json_string(seq![c]) == seq!['"', '\\', 'n', '"'],
        c as int == 12 ==> json_string(seq![c]) == seq!['"', '\\', 'f', '"'],
        c as int == 13 ==> json_string(seq![c]) == seq!['"', '\\', 'r', '"'],
        (c as int) < 32 && c as int != 8 && c as int != 9 && c as int != 10 && c as int != 12
            && c as int != 13 ==> json_string(seq![c]) == seq![
            '"',
            '\\',
            'u',
            '0',
            '0',
            hex_digits()[c as int / 16],
            hex_digits()[c as int % 16],
            '"',
        ],
{
    lemma_json_of_char(c);
    let s = json_string(seq![c]);
    if 32 <= c as int {
        if c != '"' && c != '\\' {
            assert(s =~= seq!['"', c, '"']);
        } else if c == '"' {
            assert(s =~= seq!['"', '\\', '"', '"']);
        } else {
            assert(s =~= seq!['"', '\\', '\\', '"']);
        }
    } else if c as int == 8 {
        assert(s =~= seq!['"', '\\', 'b', '"']);
    } else if c as int == 9 {
        assert(s =~= seq!['"', '\\', 't', '"']);
    } else if c as int == 10 {
        assert(s =~= seq!['"', '\\', 'n', '"']);
    } else if c as int == 12 {
        assert(s =~= seq!['"', '\\', 'f', '"']);
    } else if c as int == 13 {
        assert(s =~= seq!['"', '\\', 'r', '"']);
    } else {
        let d = c as int % 16;
        assert(0 <= d < 16);
        assert(json_char(c)[4] == hex_digits()[c as int / 16]);
        assert(json_char(c)[5] as int == if d < 10 { 48 + d } else { 87 + d });
        assert(hex_digits()[d] as int == if d < 10 { 48 + d } else { 87 + d });
        assert(json_char(c)[5] == hex_digits()[d]);
        assert(s =~= seq![
            '"',
            '\\',
            'u',
            '0',
            '0',
            hex_digits()[c as int / 16],
            hex_digits()[c as int % 16],
            '"',
        ]);
    }
}

proof fn lemma_members_push(ps: Seq<Property>, p: Property)
    requires
        ps.len() > 0,
    ensures
        json_members(ps.push(p)) == json_members(ps) + seq![','] + json_member(p),
    decreases ps.len(),
{
    let all = ps.push(p);
    if ps.len() == 1 {
        assert(all.skip(1) =~= seq![p]);
        assert(json_members(seq![p]) == json_member(p));
    } else {
        assert(all.skip(1) =~= ps.skip(1).push(p));
        lemma_members_push(ps.skip(1), p);
        assert(json_members(all) =~= json_members(ps) + seq![','] + json_member(p));
    }
}

/// An object is written member by member: one more property puts a comma and its member
/// before the closing brace.
pub proof fn law_object_is_written_member_by_member(ps: Seq<Property>, p: Property)
    ensures
        object_bytes(Seq::empty()) == seq![123u8, 125u8],
        ps.len() > 0 ==> object_bytes(ps.push(p)) == object_bytes(ps).drop_last() + seq![44u8]
            + object_bytes(seq![p]).skip(1),
{
    lemma_encode_ascii('{');
    lemma_encode_ascii('}');
    lemma_encode_ascii(',');
    assert(json_object(Seq::empty()) =~= seq!['{'] + seq!['}']);
    lemma_encode_concat(seq!['{'], seq!['}']);
    assert(object_bytes(Seq::empty()) =~= seq![123u8, 125u8]);
    if ps.len() > 0 {
        lemma_members_push(ps, p);
        let inner = seq!['{'] + json_members(ps);
        let member = json_member(p);
        assert(json_members(seq![p]) == member);
        assert(json_object(ps.push(p)) =~= inner + (seq![','] + (member + seq!['}'])));
        lemma_encode_concat(inner, seq![','] + (member + seq!['}']));
        lemma_encode_concat(seq![','], member + seq!['}']);
        lemma_encode_concat(inner, seq!['}']);
        assert(json_object(seq![p]) =~= seq!['{'] + (member + seq!['}']));
        lemma_encode_concat(seq!['{'], member + seq!['}']);
        assert(object_bytes(ps).drop_last() =~= encode_utf8(inner));
        assert(object_bytes(seq![p]).skip(1) =~= encode_utf8(member + seq!['}']));
        assert(object_bytes(ps.push(p)) =~= object_bytes(ps).drop_last() + seq![44u8]
            + object_bytes(seq![p]).skip(1));
    }
}

/// Whether a text stands for the value of a property in JSON.
pub open spec fn value_text_tells(text: Seq<char>, p: Property) -> bool {
    match p.text {
        Reading::Present(s) => text == json_string(s@),
        Reading::Absent => text == seq!['"', '"'],
        Reading::Failed => match p.unsigned {
            Reading::Present(n) => text.len() > 2 && text[0] == '"' && text.last() == '"'
                && denotes(text.subrange(1, text.len() - 1), n as int),
            Reading::Absent => text == seq!['"', '0', '"'],
            Reading::Failed => match p.signed {
                Reading::Present(n) => text.len() > 2 && text[0] == '"' && text.last() == '"'
                    && denotes(text.subrange(1, text.len() - 1), n as int),
                Reading::Absent => text == seq!['"', '0', '"'],
                Reading::Failed => match p.bytes {
                    Reading::Present(b) => if valid_utf8(b@) {
                        text == json_string(decode_utf8(b@))
                    } else {
                        text == seq!['"', '"']
                    },
                    Reading::Absent => text == seq!['"', '"'],
                    Reading::Failed => match p.boolean {
                        Reading::Present(b) => text == if b {
                            seq!['t', 'r', 'u', 'e']
                        } else {
                            seq!['f', 'a', 'l', 's', 'e']
                        },
                        Reading::Absent => text == seq!['f', 'a', 'l', 's', 'e'],
                        Reading::Failed => text == seq!['n', 'u', 'l', 'l'],
                    },
                },
            },
        },
    }
}

proof fn lemma_json_of_numeral(text: Seq<char>)
    requires
        forall|i: int|
            0 <= i < text.len() ==> 48 <= (#[trigger] text[i]) as int <= 57 || text[i] == '-',
    ensures
        json_chars(text) == text,
        json_string(text) == seq!['"'] + text + seq!['"'],
    decreases text.len(),
{
    if text.len() == 0 {
        assert(json_chars(text) =~= text);
    } else {
        let front = text.drop_last();
        assert forall|i: int| 0 <= i < front.len() implies 48 <= (#[trigger] front[i]) as int <= 57
            || front[i] == '-' by {
            assert(front[i] == text[i]);
        }
        lemma_json_of_numeral(front);
        assert(json_char(text[text.len() - 1]) == seq![text.last()]);
        assert(json_chars(text) =~= text);
    }
}

proof fn lemma_json_of_number(n: int)
    ensures
        ({
            let text = json_string(signed_decimal(n));
            &&& text.len() > 2
            &&& text[0] == '"'
            &&& text.last() == '"'
            &&& denotes(text.subrange(1, text.len() - 1), n)
        }),
{
    let t = signed_decimal(n);
    law_signed_decimal_denotes_the_number(n);
    if n < 0 {
        assert forall|i: int| 0 <= i < t.len() implies 48 <= (#[trigger] t[i]) as int <= 57 || t[i]
            == '-' by {
            if i > 0 {
                assert(t.skip(1)[i - 1] == t[i]);
            }
        }
    }
    lemma_json_of_numeral(t);
    assert(json_string(t).subrange(1, json_string(t).len() - 1) =~= t);
}

/// An object with one property is written as its key, a colon and its value between
/// braces.
pub proof fn law_object_of_one_property(p: Property)
    ensures
        ({
            let value = json_value(value_of(p));
            &&& object_bytes(seq![p]) == encode_utf8(
                seq!['{'] + json_string(p.key@) + seq![':'] + value + seq!['}'],
            )
            &&& value_text_tells(value, p)
        }),
{
    let value = json_value(value_of(p));
    assert(json_members(seq![p]) == json_member(p));
    assert(json_object(seq![p]) =~= seq!['{'] + json_string(p.key@) + seq![':'] + value + seq!['}']);
    reveal_strlit("true");
    reveal_strlit("false");
    reveal_strlit("null");
    assert("true"@ =~= seq!['t', 'r', 'u', 'e']);
    assert("false"@ =~= seq!['f', 'a', 'l', 's', 'e']);
    assert("null"@ =~= seq!['n', 'u', 'l', 'l']);
    assert(json_string(Seq::empty()) =~= seq!['"', '"']);
    let zero = seq!['0'];
    assert(decimal(0) =~= zero && signed_decimal(0) =~= zero);
    lemma_json_of_numeral(zero);
    assert(json_string(zero) =~= seq!['"', '0', '"']);
    if let Reading::Present(n) = p.unsigned {
        assert(decimal(n as nat) == signed_decimal(n as int));
        lemma_json_of_number(n as int);
    }
    if let Reading::Present(n) = p.signed {
        lemma_json_of_number(n as int);
    }
}

/// A record is its object, with a line feed behind it exactly where the dataset holds
/// something already and its size and one more are below the number of links.
pub proof fn law_record_ends_its_line(ps: Seq<Property>, collected_size: nat, link_count: nat)
    ensures
        collected_size > 0 && collected_size + 1 < link_count ==> record_bytes(
            ps,
            collected_size,
            link_count,
        ) == object_bytes(ps).push(10u8),
        collected_size == 0 || collected_size + 1 >= link_count ==> record_bytes(
            ps,
            collected_size,
            link_count,
        ) == object_bytes(ps),
{
}

/// Storing an object keeps the dataset, puts a line feed behind it where its last line is
/// open, and appends the record.
pub proof fn law_store_appends_the_record(data: Seq<u8>, ps: Seq<Property>, link_count: nat)
    ensures
        stored(data, ps, link_count) == data + (if data.len() > 0 && data.last() != 10u8 {
            seq![10u8]
        } else {
            Seq::empty()
        }) + object_bytes(ps) + (if data.len() > 0 && data.len() + 1 < link_count {
            seq![10u8]
        } else {
            Seq::empty()
        }),
{
    assert(stored(data, ps, link_count) =~= data + (if data.len() > 0 && data.last() != 10u8 {
        seq![10u8]
    } else {
        Seq::empty()
    }) + object_bytes(ps) + (if data.len() > 0 && data.len() + 1 < link_count {
        seq![10u8]
    } else {
        Seq::empty()
    }));
}

/// Whether a pattern stands in a text at a position.
pub open spec fn occurs_at(text: Seq<char>, pattern: Seq<char>, at: int) -> bool {
    0 <= at && at + pattern.len() <= text.len() && text.subrange(at, at + pattern.len()) == pattern
}

/// Removing a pattern leaves a text in which it does not occur as it is.
pub proof fn law_removal_keeps_what_does_not_match(text: Seq<char>, pattern: Seq<char>)
    requires
        forall|i: int| !#[trigger] occurs_at(text, pattern, i),
    ensures
        without(text, pattern) == text,
    decreases text.len(),
{
    if text.len() > 0 && pattern.len() > 0 {
        assert(!occurs_at(text, pattern, 0));
        if pattern.is_prefix_of(text) {
            assert(text.subrange(0, pattern.len() as int) =~= pattern);
        }
        let rest = text.skip(1);
        assert forall|i: int| !#[trigger] occurs_at(rest, pattern, i) by {
            if occurs_at(rest, pattern, i) {
                assert(text.subrange(i + 1, i + 1 + pattern.len()) =~= rest.subrange(
                    i,
                    i + pattern.len(),
                ));
                assert(occurs_at(text, pattern, i + 1));
            }
        }
        law_removal_keeps_what_does_not_match(rest, pattern);
        assert(seq![text[0]] + rest =~= text);
    }
}

/// Removing a pattern takes out its first occurrence, keeps what stands before it, and
/// goes on with what stands behind it.
pub proof fn law_removal_takes_out_the_first_occurrence(
    text: Seq<char>,
    pattern: Seq<char>,
    at: int,
)
    requires
        pattern.len() > 0,
        occurs_at(text, pattern, at),
        forall|i: int| i < at ==> !#[trigger] occurs_at(text, pattern, i),
    ensures
        without(text, pattern) == text.take(at) + without(
            text.skip(at + pattern.len()),
            pattern,
        ),
    decreases text.len(),
{
    if at == 0 {
        assert(text.subrange(0, pattern.len() as int) =~= pattern);
        assert(pattern.is_prefix_of(text));
        assert(text.take(0) + without(text.skip(pattern.len() as int), pattern) =~= without(
            text.skip(pattern.len() as int),
            pattern,
        ));
    } else {
        assert(!occurs_at(text, pattern, 0));
        if pattern.is_prefix_of(text) {
            assert(text.subrange(0, pattern.len() as int) =~= pattern);
        }
        let rest = text.skip(1);
        assert(rest.subrange(at - 1, at - 1 + pattern.len()) =~= text.subrange(
            at,
            at + pattern.len(),
        ));
        assert forall|i: int| i < at - 1 implies !#[trigger] occurs_at(rest, pattern, i) by {
            if occurs_at(rest, pattern, i) {
                assert(text.subrange(i + 1, i + 1 + pattern.len()) =~= rest.subrange(
                    i,
                    i + pattern.len(),
                ));
                assert(occurs_at(text, pattern, i + 1));
            }
        }
        law_removal_takes_out_the_first_occurrence(rest, pattern, at - 1);
        assert(rest.skip(at - 1 + pattern.len()) =~= text.skip(at + pattern.len()));
        assert(seq![text[0]] + rest.take(at - 1) =~= text.take(at));
        assert(seq![text[0]] + (rest.take(at - 1) + without(
            text.skip(at + pattern.len()),
            pattern,
        )) =~= text.take(at) + without(text.skip(at + pattern.len()), pattern));
    }
}

/// Whether a text holds no scheme of a web address.
pub open spec fn holds_no_scheme(text: Seq<char>) -> bool {
    &&& forall|i: int| !#[trigger] occurs_at(text, "http://"@, i)
    &&& forall|i: int| !#[trigger] occurs_at(text, "https://"@, i)
}

/// The export of a site without a path goes to a file named by the whole address behind
/// its scheme.
pub proof fn law_default_file_is_named_by_the_address(rest: Seq<char>)
    requires
        holds_no_scheme(rest),
    ensures
        default_file("http://"@ + rest) == "./storage/"@ + rest + "jsonl"@,
        default_file("https://"@ + rest) == "./storage/"@ + rest + "jsonl"@,
        default_file(rest) == "./storage/"@ + rest + "jsonl"@,
{
    reveal_strlit("http://");
    reveal_strlit("https://");
    let plain = "http://"@;
    let secure = "https://"@;
    law_removal_keeps_what_does_not_match(rest, plain);
    law_removal_keeps_what_does_not_match(rest, secure);
    let a = plain + rest;
    assert(a.subrange(0, 7) =~= plain);
    assert(occurs_at(a, plain, 0));
    law_removal_takes_out_the_first_occurrence(a, plain, 0);
    assert(a.skip(7) =~= rest);
    assert(a.take(0) + rest =~= rest);
    let b = secure + rest;
    assert forall|i: int| !#[trigger] occurs_at(b, plain, i) by {
        if occurs_at(b, plain, i) {
            let found = b.subrange(i, i + 7);
            assert(found[0] == 'h' && found[4] == ':');
            assert(b[i] == 'h' && b[i + 4] == ':');
            if i >= 8 {
                assert(rest.subrange(i - 8, i - 1) =~= found);
                assert(occurs_at(rest, plain, i - 8));
            }
        }
    }
    law_removal_keeps_what_does_not_match(b, plain);
    assert(b.subrange(0, 8) =~= secure);
    assert(occurs_at(b, secure, 0));
    law_removal_takes_out_the_first_occurrence(b, secure, 0);
    assert(b.skip(8) =~= rest);
    assert(b.take(0) + rest =~= rest);
}

/// The default file is named by the address without any scheme in it, wherever it stands.
pub proof fn law_default_file_drops_every_scheme(url: Seq<char>)
    ensures
        default_file(url) == "./storage/"@ + without(without(url, "http://"@), "https://"@)
            + "jsonl"@,
{
}

/// Sites whose addresses differ behind the scheme are exported to different files.
pub proof fn law_default_files_differ(one: Seq<char>, other: Seq<char>)
    requires
        holds_no_scheme(one),
        holds_no_scheme(other),
        one != other,
    ensures
        default_file("http://"@ + one) != default_file("http://"@ + other),
        default_file("https://"@ + one) != default_file("https://"@ + other),
        default_file("http://"@ + one) != default_file("https://"@ + other),
{
    law_default_file_is_named_by_the_address(one);
    law_default_file_is_named_by_the_address(other);
    let before = "./storage/"@;
    let behind = "jsonl"@;
    let a = before + one + behind;
    let b = before + other + behind;
    if a == b {
        assert(a.len() == b.len());
        assert(a.subrange(before.len() as int, (before.len() + one.len()) as int) =~= one);
        assert(b.subrange(before.len() as int, (before.len() + other.len()) as int) =~= other);
    }
}

/// The parent of a path is what stands before its last slash, and empty where it has
/// none.
pub proof fn law_parent_stands_before_the_last_slash(above: Seq<char>, name: Seq<char>)
    requires
        !name.contains('/'),
    ensures
        parent(above + seq!['/'] + name) == above,
        parent(name) == Seq::<char>::empty(),
    decreases name.len(),
{
    let path = above + seq!['/'] + name;
    if name.len() == 0 {
        assert(path.drop_last() =~= above);
    } else {
        let front = name.drop_last();
        assert(name[name.len() - 1] != '/');
        assert(!front.contains('/')) by {
            if front.contains('/') {
                let i = choose|i: int| 0 <= i < front.len() && front[i] == '/';
                assert(name[i] == '/');
            }
        }
        assert(path.drop_last() =~= above + seq!['/'] + front);
        law_parent_stands_before_the_last_slash(above, front);
    }
}

/// An export to a path with a dot in it goes to that file, and creates the directory that
/// the file is in.
pub proof fn law_export_to_a_file(above: Seq<char>, name: Seq<char>)
    requires
        !name.contains('/'),
    ensures
        (above + seq!['/'] + name).contains('.') ==> file_for(above + seq!['/'] + name) == above
            + seq!['/'] + name && directory_for(above + seq!['/'] + name) == above,
        name.contains('.') ==> file_for(name) == name && directory_for(name) == Seq::<
            char,
        >::empty(),
{
    law_parent_stands_before_the_last_slash(above, name);
}

/// An export to a path without a dot creates that directory, and goes to the file with
/// the extension added.
pub proof fn law_export_to_a_directory(path: Seq<char>)
    requires
        !path.contains('.'),
    ensures
        directory_for(path) == path,
        file_for(path) == path + seq!['.', 'j', 's', 'o', 'n', 'l'],
{
    reveal_strlit(".jsonl");
    assert(".jsonl"@ =~= seq!['.', 'j', 's', 'o', 'n', 'l']);
}

/// Whether a text is another one with its ASCII capitals made small.
pub open spec fn is_small_form(small: Seq<char>, text: Seq<char>) -> bool {
    &&& small.len() == text.len()
    &&& forall|i: int|
        0 <= i < text.len() ==> (#[trigger] small[i]) as int == (if 65 <= text[i] as int <= 90 {
            text[i] as int + 32
        } else {
            text[i] as int
        })
}

proof fn lemma_same_code(c: char, d: char)
    requires
        c as int == d as int,
    ensures
        c == d,
{
}

/// Names are compared by their small form.
pub proof fn law_lower_is_the_small_form(small: Seq<char>, text: Seq<char>)
    ensures
        is_small_form(small, text) == (small == lower(text)),
{
    assert(lower(text).len() == text.len());
    assert forall|i: int| 0 <= i < text.len() implies (#[trigger] lower(text)[i]) as int == (
    if 65 <= text[i] as int <= 90 {
        text[i] as int + 32
    } else {
        text[i] as int
    }) by {}
    if is_small_form(small, text) {
        assert forall|i: int| 0 <= i < text.len() implies small[i] == #[trigger] lower(text)[i] by {
            lemma_same_code(small[i], lower(text)[i]);
        }
        assert(small =~= lower(text));
    }
}

/// Whether a character is one of those that stand in header names.
pub open spec fn is_name_char(c: char) -> bool {
    ||| 65 <= c as int <= 90
    ||| 97 <= c as int <= 122
    ||| 48 <= c as int <= 57
    ||| c as int == 33
    ||| 35 <= c as int <= 39
    ||| c as int == 42
    ||| c as int == 43
    ||| c as int == 45
    ||| c as int == 46
    ||| 94 <= c as int <= 96
    ||| c as int == 124
    ||| c as int == 126
}

/// A header name is a text of one to 65535 letters, digits and certain signs.
pub proof fn law_header_names(name: Seq<char>)
    ensures
        valid_header_name(name) == (1 <= name.len() <= 65535 && forall|i: int|
            0 <= i < name.len() ==> is_name_char(#[trigger] name[i])),
{
    let signs = seq![
        '!',
        '#',
        '$',
        '%',
        '&',
        '\'',
        '*',
        '+',
        '-',
        '.',
        '^',
        '_',
        '`',
        '|',
        '~',
    ];
    assert forall|c: char| is_name_char(c) == #[trigger] is_token_char(c) by {
        assert(signs[0] == '!' && signs[1] == '#' && signs[2] == '$' && signs[3] == '%' && signs[4]
            == '&' && signs[5] == '\'' && signs[6] == '*' && signs[7] == '+' && signs[8] == '-'
            && signs[9] == '.' && signs[10] == '^' && signs[11] == '_' && signs[12] == '`'
            && signs[13] == '|' && signs[14] == '~');
    }
    if valid_header_name(name) {
        assert forall|i: int| 0 <= i < name.len() implies is_name_char(#[trigger] name[i]) by {
            assert(is_token_char(name[i]));
        }
    }
    if 1 <= name.len() <= 65535 && forall|i: int|
        0 <= i < name.len() ==> is_name_char(#[trigger] name[i]) {
        assert forall|i: int| 0 <= i < name.len() implies is_token_char(
            #[trigger] name[i],
        ) by {
            assert(is_name_char(name[i]));
        }
    }
}

/// A header value is any text, of any length, without control characters but the tab.
pub proof fn law_header_values(value: Seq<char>)
    ensures
        valid_header_value(value) == (forall|i: int|
            0 <= i < value.len() ==> (#[trigger] value[i]) as int == 9 || (value[i] as int >= 32
                && value[i] as int != 127)),
{
}

/// The text that a field asks to send.
pub open spec fn field_text(field: HeaderField) -> Seq<char> {
    match field.value {
        Reading::Present(s) => s@,
        Reading::Absent => Seq::empty(),
        Reading::Failed => Seq::empty(),
    }
}

/// One more field with a valid name and a valid value puts its text behind those that its
/// name has already, and leaves the other names alone; a field without them changes
/// nothing.
pub proof fn law_headers_grow_field_by_field(fields: Seq<HeaderField>, field: HeaderField)
    ensures
        headers_of(Seq::empty()) == Map::<Seq<char>, Seq<Seq<char>>>::empty(),
        ({
            let before = headers_of(fields);
            let after = headers_of(fields.push(field));
            let name = lower(field.name@);
            if valid_header_name(field.name@) && valid_header_value(field_text(field)) {
                after == before.insert(
                    name,
                    (if before.contains_key(name) {
                        before[name]
                    } else {
                        Seq::empty()
                    }).push(field_text(field)),
                )
            } else {
                after == before
            }
        }),
{
    assert(fields.push(field).drop_last() =~= fields);
    let before = headers_of(fields);
    let name = lower(field.name@);
    if !before.contains_key(name) {
        assert(Seq::<Seq<char>>::empty().push(field_text(field)) =~= seq![field_text(field)]);
    }
}

/// Every field with a valid name and a valid value has its text among the headers, under
/// its name in small letters.
pub proof fn law_valid_fields_become_headers(fields: Seq<HeaderField>, at: int)
    requires
        0 <= at < fields.len(),
        valid_header_name(fields[at].name@),
        valid_header_value(field_text(fields[at])),
    ensures
        headers_of(fields).contains_key(lower(fields[at].name@)),
        headers_of(fields)[lower(fields[at].name@)].contains(field_text(fields[at])),
    decreases fields.len(),
{
    let front = fields.drop_last();
    let last = fields.last();
    let name = lower(fields[at].name@);
    let text = field_text(fields[at]);
    assert(front.push(last) =~= fields);
    law_headers_grow_field_by_field(front, last);
    if at == fields.len() - 1 {
        let values = headers_of(fields)[name];
        assert(values[values.len() - 1] == text);
    } else {
        law_valid_fields_become_headers(front, at);
        let values = headers_of(front)[name];
        let i = choose|i: int| 0 <= i < values.len() && values[i] == text;
        if name == lower(last.name@) && valid_header_name(last.name@) && valid_header_value(
            field_text(last),
        ) {
            assert(headers_of(fields)[name][i] == text);
        } else {
            assert(headers_of(fields)[name] == values);
        }
    }
}

/// Every header comes from a field: one with that name in small letters, and that text.
pub proof fn law_headers_come_from_fields(fields: Seq<HeaderField>, name: Seq<char>, at: int)
    requires
        headers_of(fields).contains_key(name),
        0 <= at < headers_of(fields)[name].len(),
    ensures
        exists|i: int|
            0 <= i < fields.len() && valid_header_name((#[trigger] fields[i]).name@)
                && valid_header_value(field_text(fields[i])) && lower(fields[i].name@) == name
                && field_text(fields[i]) == headers_of(fields)[name][at],
    decreases fields.len(),
{
    law_headers_grow_field_by_field(Seq::empty(), fields[0]);
    if fields.len() == 0 {
        assert(fields =~= Seq::empty());
    } else {
        let front = fields.drop_last();
        let last = fields.last();
        assert(front.push(last) =~= fields);
        law_headers_grow_field_by_field(front, last);
        if headers_of(front).contains_key(name) && at < headers_of(front)[name].len() {
            law_headers_come_from_fields(front, name, at);
            let i = choose|i: int|
                0 <= i < front.len() && valid_header_name((#[trigger] front[i]).name@)
                    && valid_header_value(field_text(front[i])) && lower(front[i].name@) == name
                    && field_text(front[i]) == headers_of(front)[name][at];
            assert(fields[i] == front[i]);
        } else {
            assert(fields[fields.len() - 1] == last);
        }
    }
}

/// As many fields as the limit says never overflow a header table.
pub proof fn law_few_fields_fit(fields: Seq<HeaderField>)
    requires
        fields.len() <= 6553,
    ensures
        names_of(fields).len() <= HEADER_LIMIT,
{
    lemma_names_bounded(fields);
}

proof fn lemma_names_bounded(fields: Seq<HeaderField>)
    ensures
        names_of(fields).finite(),
        names_of(fields).len() <= fields.len(),
    decreases fields.len(),
{
    if fields.len() > 0 {
        lemma_names_bounded(fields.drop_last());
    }
}

/// An entry of a budget sets the limit of its path unless a later one names that path
/// again.
pub proof fn law_budget_takes_the_last_word(entries: Seq<(String, u32)>, at: int)
    requires
        0 <= at < entries.len(),
        forall|j: int| at < j < entries.len() ==> (#[trigger] entries[j]).0@ != entries[at].0@,
    ensures
        limits_map(entries).contains_key(entries[at].0@),
        limits_map(entries)[entries[at].0@] == entries[at].1,
    decreases entries.len(),
{
    let front = entries.drop_last();
    let last = entries.len() - 1;
    if at < last {
        assert forall|j: int| at < j < front.len() implies (#[trigger] front[j]).0@
            != front[at].0@ by {
            assert(front[j] == entries[j]);
        }
        law_budget_takes_the_last_word(front, at);
        assert(entries[last].0@ != entries[at].0@);
    }
}

/// Only the paths of entries have limits, and each limit is that of an entry for its path.
pub proof fn law_limits_come_from_entries(entries: Seq<(String, u32)>, path: Seq<char>)
    ensures
        limits_map(entries).contains_key(path) ==> exists|i: int|
            0 <= i < entries.len() && (#[trigger] entries[i]).0@ == path && entries[i].1
                == limits_map(entries)[path],
    decreases entries.len(),
{
    if entries.len() > 0 && limits_map(entries).contains_key(path) {
        let front = entries.drop_last();
        if path == entries.last().0@ {
            assert(entries[entries.len() - 1].0@ == path);
        } else {
            law_limits_come_from_entries(front, path);
            let i = choose|i: int|
                0 <= i < front.len() && (#[trigger] front[i]).0@ == path && front[i].1
                    == limits_map(front)[path];
            assert(entries[i] == front[i]);
        }
    }
}

/// A session works in a browser exactly where that is asked for, and in a task of its own
/// exactly where it has a listener and that is asked for.
pub proof fn law_options_choose_the_work(
    listening: bool,
    background: Option<bool>,
    headless: Option<bool>,
    listener: u64,
)
    ensures
        ({
            let begun = opening(listening, background, crawl_method(headless));
            let c = if listening {
                begun.after(Event::Listening(listener))
            } else {
                begun
            };
            c.next_action() == match (listening, background, headless) {
                (true, Some(true), Some(true)) => Action::Spawn(Method::Crawl),
                (true, Some(true), _) => Action::Spawn(Method::CrawlRaw),
                (_, _, Some(true)) => Action::Run(Method::Crawl),
                (_, _, _) => Action::Run(Method::CrawlRaw),
            }
        }),
        ({
            let begun = opening(listening, background, scrape_method(headless));
            let s = if listening {
                begun.after(Event::Listening(listener))
            } else {
                begun
            };
            s.next_action() == match (listening, background, headless) {
                (true, Some(true), Some(true)) => Action::Spawn(Method::Scrape),
                (true, Some(true), _) => Action::Spawn(Method::ScrapeRaw),
                (_, _, Some(true)) => Action::Run(Method::Scrape),
                (_, _, _) => Action::Run(Method::ScrapeRaw),
            }
        }),
        listening ==> opening(listening, background, crawl_method(headless)).next_action() == (
        if background == Some(true) {
            Action::ListenToCopy
        } else {
            Action::Listen
        }),
        listening ==> opening(listening, background, scrape_method(headless)).next_action() == (
        if background == Some(true) {
            Action::ListenToCopy
        } else {
            Action::Listen
        }),
{
}

/// A session waits for the one event that reports its next action, and one that rests
/// waits for none.
pub proof fn law_sessions_wait_for_their_action(session: Session, event: Event)
    ensures
        session.expects(event) == match (session.next_action(), event) {
            (Action::Listen, Event::Listening(_)) => true,
            (Action::ListenToCopy, Event::Listening(_)) => true,
            (Action::Run(_), Event::Completed) => true,
            (Action::Spawn(_), Event::Spawned(_)) => true,
            (Action::Schedule, Event::Scheduled(_)) => true,
            (_, _) => false,
        },
        session.next_action() == Action::Rest <==> session is Finished || session is Scheduled,
        session is Opening ==> session.next_action() == Action::Listen || session.next_action()
            == Action::ListenToCopy,
{
}

/// Whether there is an id above those in use.
pub open spec fn ids_are_left(entries: Seq<(u32, u64)>) -> bool {
    forall|i: int| 0 <= i < entries.len() ==> (#[trigger] entries[i]).0 < u32::MAX
}

/// There is room in a table exactly while the highest id is not in use.
pub proof fn law_room_is_left_below_the_highest_id(entries: Seq<(u32, u64)>)
    ensures
        has_room(entries) == ids_are_left(entries),
{
    lemma_following_id(entries);
    if has_room(entries) {
        assert forall|i: int| 0 <= i < entries.len() implies (#[trigger] entries[i]).0
            < u32::MAX by {}
    }
    if ids_are_left(entries) && entries.len() > 0 {
        let i = choose|i: int|
            0 <= i < entries.len() && (#[trigger] entries[i]).0 + 1 == following_id(entries);
        assert(entries[i].0 < u32::MAX);
    }
}

/// A session can go on whenever the handles that it registers can get ids: the listener
/// of a crawl or a scrape once that is done or started, and the task of one in the
/// background.
pub proof fn law_sessions_go_on_while_ids_are_left(
    state: WebsiteState,
    background: Option<bool>,
    method: Method,
    listener: u64,
    task: u64,
)
    ensures
        ({
            let silent = opening(false, background, method);
            let begun = opening(true, background, method);
            let working = begun.after(Event::Listening(listener));
            &&& state.can_take(silent, Event::Completed)
            &&& state.can_take(begun, Event::Listening(listener))
            &&& background == Some(true) ==> state.can_take(working, Event::Spawned(task)) == (
            ids_are_left(state.subscriptions) && ids_are_left(state.crawls))
            &&& background != Some(true) ==> state.can_take(working, Event::Completed)
                == ids_are_left(state.subscriptions)
        }),
        ({
            let begun = cron_opening(true);
            let working = begun.after(Event::Listening(listener));
            &&& state.can_take(begun, Event::Listening(listener))
            &&& state.can_take(working, Event::Scheduled(task))
            &&& state.can_take(cron_opening(false), Event::Scheduled(task))
        }),
{
    law_room_is_left_below_the_highest_id(state.subscriptions);
    law_room_is_left_below_the_highest_id(state.crawls);
}

/// A new handle goes to the end of its table, under the id one above the highest in use,
/// or under zero.
pub proof fn law_new_handles_go_to_the_end(entries: Seq<(u32, u64)>, handle: u64)
    requires
        ids_are_left(entries),
    ensures
        ({
            let after = enrolled(entries, handle);
            let id = after.last().0;
            &&& after.len() == entries.len() + 1
            &&& after.drop_last() == entries
            &&& after.last().1 == handle
            &&& entries.len() == 0 ==> id == 0
            &&& forall|i: int| 0 <= i < entries.len() ==> (#[trigger] entries[i]).0 < id
            &&& entries.len() > 0 ==> exists|i: int|
                0 <= i < entries.len() && (#[trigger] entries[i]).0 + 1 == id
        }),
{
    lemma_following_id(entries);
    law_room_is_left_below_the_highest_id(entries);
    assert(enrolled(entries, handle).drop_last() =~= entries);
}

/// Releasing the id of an entry gives up the handle of that entry and takes out that
/// entry alone.
pub proof fn law_release_takes_out_the_entry(entries: Seq<(u32, u64)>, at: int)
    requires
        ascending_ids(entries),
        0 <= at < entries.len(),
    ensures
        released_handles(entries, Some(entries[at].0)) == seq![entries[at].1],
        entries_left(entries, Some(entries[at].0)) == entries.take(at) + entries.skip(at + 1),
{
    lemma_slot(entries, entries[at].0);
    assert(registered(entries, entries[at].0));
    assert(slot(entries, entries[at].0) == at);
    assert(entries_left(entries, Some(entries[at].0)) =~= entries.take(at) + entries.skip(at + 1));
}

/// Releasing an id that no entry has gives up nothing and changes nothing.
pub proof fn law_release_of_an_unknown_id(entries: Seq<(u32, u64)>, id: u32)
    requires
        forall|i: int| 0 <= i < entries.len() ==> (#[trigger] entries[i]).0 != id,
    ensures
        released_handles(entries, Some(id)) == Seq::<u64>::empty(),
        entries_left(entries, Some(id)) == entries,
{
    lemma_slot(entries, id);
}

/// The lines of a dataset are what stands between its line feeds, but for what is empty.
pub proof fn law_lines_stand_between_line_feeds(a: Seq<u8>, b: Seq<u8>)
    ensures
        lines(a.push(10u8) + b) == lines(a) + lines(b),
        a.len() == 0 ==> lines(a) == Seq::<Seq<u8>>::empty(),
        a.len() > 0 && !a.contains(10u8) ==> lines(a) == seq![a],
    decreases b.len(),
{
    lemma_lines_one(a);
    let all = a.push(10u8) + b;
    if b.len() == 0 {
        assert(all =~= a.push(10u8));
        assert(all.drop_last() =~= a);
        assert(lines(a) + lines(b) =~= lines(a));
    } else {
        let front = b.drop_last();
        law_lines_stand_between_line_feeds(a, front);
        let before = a.push(10u8) + front;
        assert(all.drop_last() =~= before);
        lemma_lines_of_open(front);
        if front.len() > 0 {
            assert(before.last() == front.last());
        }
        assert(lines(all) =~= lines(a) + lines(b));
    }
}

proof fn lemma_lines_of_open(data: Seq<u8>)
    ensures
        data.len() > 0 && data.last() != 10u8 ==> lines(data).len() > 0,
{
}

proof fn lemma_lines_one(a: Seq<u8>)
    ensures
        a.len() > 0 && !a.contains(10u8) ==> lines(a) == seq![a],
    decreases a.len(),
{
    if a.len() > 0 && !a.contains(10u8) {
        let front = a.drop_last();
        assert(a[a.len() - 1] != 10u8);
        if front.len() == 0 {
            assert(seq![a.last()] =~= a);
            assert(lines(front) =~= Seq::empty());
            assert(lines(a) =~= seq![a]);
        } else {
            if front.contains(10u8) {
                let i = choose|i: int| 0 <= i < front.len() && front[i] == 10u8;
                assert(a[i] == 10u8);
            }
            assert(front[front.len() - 1] != 10u8) by {
                assert(a[front.len() - 1] != 10u8);
            }
            lemma_lines_one(front);
            assert(front.push(a.last()) =~= a);
            assert(lines(a) =~= seq![a]);
        }
    }
}

/// A list of strings stands for their texts, one for one.
pub proof fn law_texts_one_for_one(list: Seq<String>, compact: Seq<CompactText>)
    ensures
        texts(list).len() == list.len(),
        forall|i: int| 0 <= i < list.len() ==> #[trigger] texts(list)[i] == list[i]@,
        compact_texts(compact).len() == compact.len(),
        forall|i: int|
            0 <= i < compact.len() ==> #[trigger] compact_texts(compact)[i] == compact_chars(
                compact[i],
            ),
{
}

/// Whether a domain joins the crawl under a host name: `*` as itself, another one as the
/// host of the address that it is.
pub open spec fn joins_as(domain: Seq<char>, host: Seq<char>) -> bool {
    if domain == seq!['*'] {
        host == seq!['*']
    } else {
        parsed_host(domain) == Some(host)
    }
}

/// The domains of a list join the crawl by their host names, and nothing else does.
pub proof fn law_domains_join_by_their_hosts(domains: Seq<Seq<char>>, host: Seq<char>)
    ensures
        domain_hosts(domains).contains(host) == (exists|i: int|
            0 <= i < domains.len() && joins_as(#[trigger] domains[i], host)),
{
    reveal_strlit("*");
    assert("*"@ =~= seq!['*']);
}

/// Changing the site of a website leaves the rest of it as it is.
pub proof fn law_settings_touch_the_site_alone(state: WebsiteState, site: SiteState)
    ensures
        state.with_site(site).site == site,
        state.with_site(site).subscriptions == state.subscriptions,
        state.with_site(site).crawls == state.crawls,
        state.with_site(site).raw_content == state.raw_content,
        state.with_site(site).data == state.data,
{
}

/// A site starts empty, without settings but a timeout of fifteen seconds.
pub proof fn law_new_sites_are_empty(url: Seq<char>, crawlable: bool)
    ensures
        ({
            let site = new_site_state(url, crawlable);
            &&& site.url == start_url(url)
            &&& site.crawlable == crawlable
            &&& site.status == "Start"@
            &&& !site.stopped
            &&& site.links == Set::<Seq<char>>::empty()
            &&& site.pages.len() == 0
            &&& site.user_agent is None
            &&& !site.respect_robots_txt && !site.subdomains && !site.tld
                && !site.http2_prior_knowledge
            &&& site.request_timeout == Some(15000nat)
            &&& site.delay == 0
            &&& site.headers is None && site.budget is None && site.blacklist_url is None
                && site.proxies is None
            &&& site.external_domains == Set::<Seq<char>>::empty()
            &&& site.cron_str.len() == 0
            &&& site.cron_type == CronType::Crawl
        }),
{
}

/// Whether a character is white space.
pub open spec fn is_blank(c: char) -> bool {
    ||| 9 <= c as int <= 13
    ||| c as int == 32
    ||| c as int == 0x85
    ||| c as int == 0xa0
    ||| c as int == 0x1680
    ||| 0x2000 <= c as int <= 0x200a
    ||| c as int == 0x2028
    ||| c as int == 0x2029
    ||| c as int == 0x202f
    ||| c as int == 0x205f
    ||| c as int == 0x3000
}

/// Whether a text consists of white space.
pub open spec fn all_blank(text: Seq<char>) -> bool {
    forall|i: int| 0 <= i < text.len() ==> is_blank(#[trigger] text[i])
}

/// Whether a text neither starts nor ends with white space.
pub open spec fn has_solid_ends(text: Seq<char>) -> bool {
    text.len() > 0 ==> !is_blank(text[0]) && !is_blank(text.last())
}

/// Whether a text starts or ends with a space.
pub open spec fn is_padded(text: Seq<char>) -> bool {
    text.len() > 0 && (text[0] as int == 32 || text.last() as int == 32)
}

/// An address, with `https://` before it unless it starts with `http`.
pub open spec fn with_scheme(url: Seq<char>) -> Seq<char> {
    if url.len() >= 4 && url[0] == 'h' && url[1] == 't' && url[2] == 't' && url[3] == 'p' {
        url
    } else {
        seq!['h', 't', 't', 'p', 's', ':', '/', '/'] + url
    }
}

proof fn lemma_with_scheme(url: Seq<char>)
    ensures
        with_scheme(url) == (if "http"@.is_prefix_of(url) {
            url
        } else {
            "https://"@ + url
        }),
{
    reveal_strlit("http");
    reveal_strlit("https://");
    assert("https://"@ =~= seq!['h', 't', 't', 'p', 's', ':', '/', '/']);
    let http = "http"@;
    if url.len() >= 4 && url[0] == 'h' && url[1] == 't' && url[2] == 't' && url[3] == 'p' {
        assert(http =~= url.take(4));
        assert(http.is_prefix_of(url));
    } else if http.is_prefix_of(url) {
        assert(http =~= url.take(4));
        assert(url.take(4)[0] == url[0] && url.take(4)[1] == url[1] && url.take(4)[2] == url[2]
            && url.take(4)[3] == url[3]);
    }
}

/// A crawl starts from the address as it is given, with a scheme where it has none; an
/// address padded with spaces loses the white space around it.
pub proof fn law_crawls_start_at_the_address(before: Seq<char>, url: Seq<char>, behind: Seq<char>)
    ensures
        !is_padded(url) ==> start_url(url) == with_scheme(url),
        is_padded(before + url + behind) && all_blank(before) && all_blank(behind)
            && has_solid_ends(url) ==> start_url(before + url + behind) == with_scheme(url),
{
    lemma_with_scheme(url);
    let all = before + url + behind;
    if is_padded(all) && all_blank(before) && all_blank(behind) && has_solid_ends(url) {
        if url.len() == 0 {
            let none = Seq::<char>::empty();
            assert forall|i: int| 0 <= i < all.len() implies is_blank(#[trigger] all[i]) by {
                if i < before.len() {
                    assert(all[i] == before[i]);
                } else {
                    assert(all[i] == behind[i - before.len()]);
                }
            }
            lemma_trimmed_start(all, none);
            assert(all + none =~= all);
            lemma_trimmed_end(none, none);
            assert(none + none =~= none);
            assert(url =~= none);
        } else {
            lemma_trimmed_start(before, url + behind);
            assert(before + (url + behind) =~= all);
            lemma_trimmed_end(url, behind);
        }
    }
}

proof fn lemma_trimmed_start(before: Seq<char>, text: Seq<char>)
    requires
        all_blank(before),
        text.len() > 0 ==> !is_blank(text[0]),
    ensures
        trimmed_start(before + text) == text,
    decreases before.len(),
{
    let all = before + text;
    if before.len() == 0 {
        assert(all =~= text);
    } else {
        assert(all[0] == before[0]);
        assert(is_blank(before[0]));
        assert(all.skip(1) =~= before.skip(1) + text);
        assert forall|i: int| 0 <= i < before.skip(1).len() implies is_blank(
            #[trigger] before.skip(1)[i],
        ) by {
            assert(before.skip(1)[i] == before[i + 1]);
        }
        lemma_trimmed_start(before.skip(1), text);
    }
}

proof fn lemma_trimmed_end(text: Seq<char>, behind: Seq<char>)
    requires
        all_blank(behind),
        text.len() > 0 ==> !is_blank(text.last()),
    ensures
        trimmed_end(text + behind) == text,
    decreases behind.len(),
{
    let all = text + behind;
    if behind.len() == 0 {
        assert(all =~= text);
    } else {
        let front = behind.drop_last();
        assert(all.last() == behind[behind.len() - 1]);
        assert(is_blank(behind[behind.len() - 1]));
        assert(all.drop_last() =~= text + front);
        assert forall|i: int| 0 <= i < front.len() implies is_blank(#[trigger] front[i]) by {
            assert(front[i] == behind[i]);
        }
        lemma_trimmed_end(text, front);
    }
}

} // verus!
