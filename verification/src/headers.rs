//! Request headers: which of the caller's fields become headers, and under which name.
use vstd::prelude::*;
use vstd::set_lib::*;

use std::str::FromStr;

use crate::record::Reading;
use crate::text::lower;

verus! {

/// The header table of the HTTP stack.
#[verifier::external_type_specification]
#[verifier::external_body]
#[verifier::reject_recursive_types(T)]
pub struct ExHeaderMap<T>(spider::reqwest::header::HeaderMap<T>);

/// The value of a header in the HTTP stack.
#[verifier::external_type_specification]
#[verifier::external_body]
pub struct ExHeaderValue(spider::reqwest::header::HeaderValue);

/// What a header table holds: the values of each name, in the order in which they
/// were appended.
pub uninterp spec fn header_entries(
    table: spider::reqwest::header::HeaderMap<spider::reqwest::header::HeaderValue>,
) -> Map<Seq<char>, Seq<Seq<char>>>;

/// How many names a header table can hold such that one more value can surely be
/// appended.
pub const HEADER_LIMIT: usize = 6553;

/// A field that the caller asks to send as a header.
pub struct HeaderField {
    pub name: String,
    pub value: Reading<String>,
}

/// The headers are more than a header table can hold.
#[derive(Debug, Clone, Copy, PartialEq, Eq, Structural)]
pub struct HeaderOverflow;

/// Whether a character can stand in a header name.
pub open spec fn is_token_char(c: char) -> bool {
    ||| 'a' <= c <= 'z'
    ||| 'A' <= c <= 'Z'
    ||| '0' <= c <= '9'
    ||| seq!['!', '#', '$', '%', '&', '\'', '*', '+', '-', '.', '^', '_', '`', '|', '~'].contains(c)
}

/// Whether a text is a header name.
pub open spec fn valid_header_name(name: Seq<char>) -> bool {
    &&& 0 < name.len() <= 65535
    &&& forall|i: int| 0 <= i < name.len() ==> is_token_char(#[trigger] name[i])
}

/// Whether a text is a header value: it holds no control character but the tab.
pub open spec fn valid_header_value(value: Seq<char>) -> bool {
    forall|i: int|
        0 <= i < value.len() ==> ((#[trigger] value[i]) == '\t' || (value[i] as int >= 32
            && value[i] as int != 127))
}

/// The text of a field's value: empty where it has none.
pub open spec fn value_text(value: Reading<String>) -> Seq<char> {
    match value {
        Reading::Present(s) => s@,
        _ => Seq::empty(),
    }
}

/// Whether a field becomes a header.
pub open spec fn accepted(field: HeaderField) -> bool {
    valid_header_name(field.name@) && valid_header_value(value_text(field.value))
}

/// A header table with no headers.
pub open spec fn no_headers() -> Map<Seq<char>, Seq<Seq<char>>> {
    Map::empty()
}

/// The headers with one more value under a name.
pub open spec fn with_header(
    headers: Map<Seq<char>, Seq<Seq<char>>>,
    name: Seq<char>,
    value: Seq<char>,
) -> Map<Seq<char>, Seq<Seq<char>>> {
    if headers.contains_key(name) {
        headers.insert(name, headers[name].push(value))
    } else {
        headers.insert(name, seq![value])
    }
}

/// The headers that the fields give: each accepted field appends its value under its
/// name in small letters; the others are passed over.
pub open spec fn headers_of(fields: Seq<HeaderField>) -> Map<Seq<char>, Seq<Seq<char>>>
    decreases fields.len(),
{
    if fields.len() == 0 {
        no_headers()
    } else {
        let before = headers_of(fields.drop_last());
        if accepted(fields.last()) {
            with_header(before, lower(fields.last().name@), value_text(fields.last().value))
        } else {
            before
        }
    }
}

/// `HeaderMap::new`: a table without headers.
#[verifier::external_body]
fn new_headers() -> (table: spider::reqwest::header::HeaderMap)
    ensures
        header_entries(table) == no_headers(),
{
    spider::reqwest::header::HeaderMap::new()
}

/// `HeaderName::from_str`: accepts the texts of one to 65535 token characters.
#[verifier::external_body]
fn is_header_name(name: &str) -> (r: bool)
    ensures
        r == valid_header_name(name@),
{
    spider::reqwest::header::HeaderName::from_str(name).is_ok()
}

/// `HeaderValue::from_str`: accepts the texts without control characters other than
/// the tab.
#[verifier::external_body]
fn is_header_value(value: &str) -> (r: bool)
    ensures
        r == valid_header_value(value@),
{
    spider::reqwest::header::HeaderValue::from_str(value).is_ok()
}

/// `HeaderMap::try_append`: the value goes behind those that the name already has, where
/// names that differ only in ASCII capitals are one name, kept in small letters. The
/// table refuses, and stays as it is, when it would have to grow beyond its largest
/// size. Up to `HEADER_LIMIT` names it never has to; from there on it depends on how the
/// names fall together in the table.
#[verifier::external_body]
fn append_header(table: &mut spider::reqwest::header::HeaderMap, name: &str, value: &str) -> (r:
    bool)
    requires
        valid_header_name(name@),
        valid_header_value(value@),
    ensures
        r ==> header_entries(*final(table)) == with_header(
            header_entries(*old(table)),
            lower(name@),
            value@,
        ),
        !r ==> header_entries(*final(table)) == header_entries(*old(table)),
        header_entries(*old(table)).dom().len() <= HEADER_LIMIT ==> r,
{
    table.try_append(
        spider::reqwest::header::HeaderName::from_str(name).unwrap(),
        spider::reqwest::header::HeaderValue::from_str(value).unwrap(),
    ).is_ok()
}

/// The names under which the fields put headers.
pub open spec fn names_of(fields: Seq<HeaderField>) -> Set<Seq<char>> {
    headers_of(fields).dom()
}

proof fn lemma_names_grow(fields: Seq<HeaderField>, n: int)
    requires
        0 <= n <= fields.len(),
    ensures
        names_of(fields).finite(),
        names_of(fields.take(n)).subset_of(names_of(fields)),
        names_of(fields.take(n)).len() <= names_of(fields).len(),
    decreases fields.len(),
{
    if n == fields.len() {
        assert(fields.take(n) =~= fields);
        if n > 0 {
            lemma_names_grow(fields.drop_last(), n - 1);
        }
    } else {
        lemma_names_grow(fields.drop_last(), n);
        assert(fields.drop_last().take(n) =~= fields.take(n));
        lemma_len_subset(names_of(fields.drop_last()), names_of(fields));
    }
}

/// The text of a field's value.
fn text_of_value(value: &Reading<String>) -> (r: String)
    ensures
        r@ == value_text(*value),
{
    match value {
        Reading::Present(s) => s.clone(),
        _ => String::new(),
    }
}

/// Collects the headers that the fields give. There is an overflow only where they give
/// more names than a table surely holds.
pub fn collect_headers(fields: &Vec<HeaderField>) -> (r: Result<
    spider::reqwest::header::HeaderMap,
    HeaderOverflow,
>)
    ensures
        r matches Ok(h) ==> header_entries(h) == headers_of(fields@),
        names_of(fields@).len() <= HEADER_LIMIT ==> r is Ok,
{
    let mut h = new_headers();
    assert(fields@.take(0) =~= Seq::empty());
    for i in 0..fields.len()
        invariant
            header_entries(h) == headers_of(fields@.take(i as int)),
    {
        let field = &fields[i];
        assert(fields@.take(i + 1).drop_last() =~= fields@.take(i as int));
        proof {
            lemma_names_grow(fields@, i as int);
        }
        if is_header_name(field.name.as_str()) {
            let value = text_of_value(&field.value);
            if is_header_value(value.as_str()) {
                if !append_header(&mut h, field.name.as_str(), value.as_str()) {
                    return Err(HeaderOverflow);
                }
            }
        }
    }
    assert(fields@.take(fields@.len() as int) =~= fields@);
    Ok(h)
}

} // verus!
