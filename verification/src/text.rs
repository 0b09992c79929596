//! Text as sequences of characters: searching, removing, and decimal numbers.
use vstd::prelude::*;
use vstd::utf8::*;

verus! {

/// The error of `String::from_utf8`.
#[verifier::external_type_specification]
#[verifier::external_body]
pub struct ExFromUtf8Error(std::string::FromUtf8Error);

/// `String::from_utf8`: succeeds on the byte sequences that are valid UTF-8, with the
/// text that they encode.
pub assume_specification[ String::from_utf8 ](bytes: Vec<u8>) -> (r: Result<
    String,
    std::string::FromUtf8Error,
>)
    ensures
        r is Ok == valid_utf8(bytes@),
        r matches Ok(s) ==> s@ == decode_utf8(bytes@),
;

/// `String::push`: the character goes to the end of the string.
pub assume_specification[ String::push ](s: &mut String, c: char)
    ensures
        final(s)@ == old(s)@.push(c),
;

/// The characters of a string.
pub fn chars_of(s: &str) -> (r: Vec<char>)
    ensures
        r@ == s@,
{
    let mut r: Vec<char> = Vec::new();
    for c in it: s.chars()
        invariant
            r@ == it.seq().take(it.index()),
    {
        r.push(c);
    }
    assert(r@ =~= s@);
    r
}

/// The string that consists of the given characters.
pub fn string_of(chars: &Vec<char>) -> (r: String)
    ensures
        r@ == chars@,
{
    let mut r = String::new();
    for i in 0..chars.len()
        invariant
            r@ == chars@.take(i as int),
    {
        r.push(chars[i]);
    }
    assert(chars@.take(chars@.len() as int) =~= chars@);
    r
}

/// Whether the character occurs in the text.
pub fn has_char(text: &Vec<char>, c: char) -> (r: bool)
    ensures
        r == text@.contains(c),
{
    for i in 0..text.len()
        invariant
            forall|j: int| 0 <= j < i ==> text@[j] != c,
    {
        if text[i] == c {
            return true;
        }
    }
    false
}

/// A character with an ASCII capital made small.
pub open spec fn lower_char(c: char) -> char {
    if 'A' <= c <= 'Z' {
        (c as int + 32) as char
    } else {
        c
    }
}

/// A text with its ASCII capitals made small.
pub open spec fn lower(text: Seq<char>) -> Seq<char> {
    text.map_values(|c: char| lower_char(c))
}

/// Whether two texts are the same.
pub fn same_text(a: &Vec<char>, b: &Vec<char>) -> (r: bool)
    ensures
        r == (a@ == b@),
{
    if a.len() != b.len() {
        return false;
    }
    for i in 0..a.len()
        invariant
            a@.len() == b@.len(),
            forall|j: int| 0 <= j < i ==> a@[j] == b@[j],
    {
        if a[i] != b[i] {
            return false;
        }
    }
    assert(a@ =~= b@);
    true
}

/// The text without the occurrences of a pattern, found from left to right.
pub open spec fn without(text: Seq<char>, pattern: Seq<char>) -> Seq<char>
    decreases text.len(),
{
    if text.len() == 0 || pattern.len() == 0 {
        text
    } else if pattern.is_prefix_of(text) {
        without(text.skip(pattern.len() as int), pattern)
    } else {
        seq![text[0]] + without(text.skip(1), pattern)
    }
}

/// Whether the pattern stands in the text at the given position.
fn stands_at(text: &Vec<char>, at: usize, pattern: &Vec<char>) -> (r: bool)
    requires
        at <= text@.len(),
    ensures
        r == pattern@.is_prefix_of(text@.skip(at as int)),
{
    let len: usize = text.len();
    if pattern.len() > len - at {
        return false;
    }
    for i in 0..pattern.len()
        invariant
            len == text@.len(),
            at + pattern@.len() <= len,
            forall|j: int| 0 <= j < i ==> pattern@[j] == text@[at + j],
    {
        if text[at + i] != pattern[i] {
            assert(text@.skip(at as int).take(pattern@.len() as int)[i as int] == text@[at + i]);
            return false;
        }
    }
    assert(pattern@ =~= text@.skip(at as int).take(pattern@.len() as int));
    true
}

/// Removes every occurrence of a pattern.
pub fn remove_all(text: &Vec<char>, pattern: &Vec<char>) -> (r: Vec<char>)
    requires
        pattern@.len() > 0,
    ensures
        r@ == without(text@, pattern@),
{
    let mut r: Vec<char> = Vec::new();
    let mut i: usize = 0;
    assert(text@.skip(0) =~= text@);
    while i < text.len()
        invariant
            i <= text@.len(),
            pattern@.len() > 0,
            r@ + without(text@.skip(i as int), pattern@) == without(text@, pattern@),
        decreases text@.len() - i,
    {
        let ghost rest = text@.skip(i as int);
        let ghost kept = r@;
        if stands_at(text, i, pattern) {
            assert(rest.skip(pattern@.len() as int) =~= text@.skip(i + pattern@.len()));
            i = i + pattern.len();
        } else {
            assert(rest.skip(1) =~= text@.skip(i + 1));
            r.push(text[i]);
            assert(kept + (seq![rest[0]] + without(rest.skip(1), pattern@)) =~= r@ + without(
                rest.skip(1),
                pattern@,
            ));
            i = i + 1;
        }
    }
    assert(text@.skip(i as int) =~= Seq::empty());
    assert(r@ + Seq::empty() =~= r@);
    r
}

/// The decimal digit of a number below ten.
pub open spec fn digit(d: nat) -> char {
    (48 + d) as char
}

/// Whether a character is a decimal digit.
pub open spec fn is_digit(c: char) -> bool {
    '0' <= c <= '9'
}

/// Whether a text consists of decimal digits.
pub open spec fn all_digits(text: Seq<char>) -> bool {
    forall|i: int| 0 <= i < text.len() ==> is_digit(#[trigger] text[i])
}

/// A number in decimal, without leading zeros.
pub open spec fn decimal(n: nat) -> Seq<char>
    decreases n,
{
    if n < 10 {
        seq![digit(n)]
    } else {
        decimal(n / 10).push(digit(n % 10))
    }
}

/// An integer in decimal, with a minus sign where it is negative.
pub open spec fn signed_decimal(n: int) -> Seq<char> {
    if n < 0 {
        seq!['-'] + decimal((-n) as nat)
    } else {
        decimal(n as nat)
    }
}

/// Writes a number in decimal.
pub fn decimal_chars(n: u32) -> (r: Vec<char>)
    ensures
        r@ == decimal(n as nat),
    decreases n,
{
    let low = (48 + (n % 10) as u8) as char;
    if n < 10 {
        let mut r: Vec<char> = Vec::new();
        r.push(low);
        r
    } else {
        let mut r = decimal_chars(n / 10);
        r.push(low);
        r
    }
}

/// Writes an integer in decimal.
pub fn signed_decimal_chars(n: i32) -> (r: Vec<char>)
    ensures
        r@ == signed_decimal(n as int),
{
    if n < 0 {
        let magnitude: u32 = (-(n as i64)) as u32;
        let digits = decimal_chars(magnitude);
        let mut r: Vec<char> = Vec::new();
        r.push('-');
        for i in 0..digits.len()
            invariant
                r@ == seq!['-'] + digits@.take(i as int),
        {
            r.push(digits[i]);
        }
        assert(digits@.take(digits@.len() as int) =~= digits@);
        r
    } else {
        decimal_chars(n as u32)
    }
}

/// A number in decimal consists of digits.
pub proof fn lemma_decimal_digits(n: nat)
    ensures
        all_digits(decimal(n)),
    decreases n,
{
    if n < 10 {
        assert(digit(n) as int == 48 + n);
    } else {
        lemma_decimal_digits(n / 10);
        assert(digit(n % 10) as int == 48 + n % 10);
    }
}

/// The UTF-8 bytes of two texts one behind the other are the bytes of both.
pub proof fn lemma_encode_concat(a: Seq<char>, b: Seq<char>)
    ensures
        encode_utf8(a + b) == encode_utf8(a) + encode_utf8(b),
    decreases a.len(),
{
    if a.len() == 0 {
        assert(a + b =~= b);
        assert(encode_utf8(a) + encode_utf8(b) =~= encode_utf8(b));
    } else {
        lemma_encode_concat(a.drop_first(), b);
        assert((a + b).drop_first() =~= a.drop_first() + b);
        assert(encode_utf8(a + b) =~= encode_utf8(a) + encode_utf8(b));
    }
}

/// The UTF-8 bytes of an ASCII character are its code.
pub proof fn lemma_encode_ascii(c: char)
    requires
        c as int <= 127,
    ensures
        encode_utf8(seq![c]) == seq![c as u8],
{
    let v = c as u32;
    assert(seq![c].drop_first() =~= Seq::empty());
    assert(encode_utf8(seq![c].drop_first()) =~= Seq::empty());
    assert(v & 0x7F == v) by (bit_vector)
        requires
            v <= 127,
    ;
    assert(encode_utf8(seq![c]) =~= seq![c as u8]);
}

proof fn lemma_char_code(c: char)
    ensures
        c as u32 == c as int,
        (c as u32) as char == c,
{
}

proof fn lemma_scalar_bytes(v: u32, b: u8)
    requires
        b <= 127,
        encode_scalar(v).contains(b),
    ensures
        v == b,
{
    assert(0xC0u8 | ((v >> 6) & 0x1F) as u8 >= 128) by (bit_vector);
    assert(0xE0u8 | ((v >> 12) & 0x0F) as u8 >= 128) by (bit_vector);
    assert(0xF0u8 | ((v >> 18) & 0x7) as u8 >= 128) by (bit_vector);
    assert(0x80u8 | (v & 0x3F) as u8 >= 128) by (bit_vector);
    assert(0x80u8 | ((v >> 6) & 0x3F) as u8 >= 128) by (bit_vector);
    assert(0x80u8 | ((v >> 12) & 0x3F) as u8 >= 128) by (bit_vector);
    assert(v <= 127 ==> (v & 0x7F) as u8 == v) by (bit_vector);
}

/// An ASCII code stands among the UTF-8 bytes of a text only where the text holds the
/// character.
pub proof fn lemma_encode_ascii_byte(text: Seq<char>, b: u8)
    requires
        b <= 127,
        encode_utf8(text).contains(b),
    ensures
        text.contains(b as char),
    decreases text.len(),
{
    if text.len() > 0 {
        let first = encode_scalar(text[0] as u32);
        let rest = encode_utf8(text.drop_first());
        let i = choose|i: int| 0 <= i < encode_utf8(text).len() && encode_utf8(text)[i] == b;
        if i < first.len() {
            assert(first[i] == b);
            lemma_scalar_bytes(text[0] as u32, b);
            lemma_char_code(text[0]);
        } else {
            assert(rest[i - first.len()] == b);
            lemma_encode_ascii_byte(text.drop_first(), b);
            let j = choose|j: int|
                0 <= j < text.drop_first().len() && text.drop_first()[j] == b as char;
            assert(text[j + 1] == b as char);
        }
    }
}

} // verus!
