//! The stored form of an encrypted entry: a JSON object with the format
//! version `v` and the base64 fields `nonce_b64` and `ciphertext_b64`.
//!
//! [`render_envelope`] writes the compact form. [`parse_envelope`] reads an
//! object whose members are unescaped strings or unsigned integers, with
//! blanks between the tokens and the members in any order; a member under
//! another name is passed over, and one of the three names given twice makes
//! the text malformed.

use vstd::prelude::*;
use vstd::string::StringExecFns;
use crate::text::{
    chars_of, decimal_digits, decimal_string, decimal_value, digit_value, is_digit,
    lemma_decimal_digits, string_of,
};

verus! {

/// The fields of an envelope.
#[derive(Debug, Clone, PartialEq, Eq)]
pub struct EncryptedPayload {
    /// Format version.
    pub v: u8,
    /// The nonce, in base64.
    pub nonce_b64: String,
    /// The ciphertext with its tag, in base64.
    pub ciphertext_b64: String,
}

/// The fields of an envelope as plain values.
pub struct PayloadView {
    pub v: nat,
    pub nonce_b64: Seq<char>,
    pub ciphertext_b64: Seq<char>,
}

impl View for EncryptedPayload {
    type V = PayloadView;

    open spec fn view(&self) -> PayloadView {
        PayloadView {
            v: self.v as nat,
            nonce_b64: self.nonce_b64@,
            ciphertext_b64: self.ciphertext_b64@,
        }
    }
}

/// A character that a string of the envelope holds as it is: no quote, no
/// backslash, no control character.
pub open spec fn is_plain_char(c: char) -> bool {
    c != '"' && c != '\\' && c as u32 >= 0x20
}

/// Every character of `s` can stand unescaped between quotes.
pub open spec fn is_plain_text(s: Seq<char>) -> bool {
    forall|i: int| 0 <= i < s.len() ==> is_plain_char(#[trigger] s[i])
}

/// The compact text of an envelope.
pub open spec fn envelope_text(v: nat, nonce_b64: Seq<char>, ciphertext_b64: Seq<char>) -> Seq<
    char,
> {
    "{\"v\":"@ + decimal_digits(v) + ",\"nonce_b64\":\""@ + nonce_b64 + "\",\"ciphertext_b64\":\""@
        + ciphertext_b64 + "\"}"@
}

/// A blank that may stand between two tokens.
pub open spec fn is_json_space(c: char) -> bool {
    c == ' ' || c == '\n' || c == '\r' || c == '\t'
}

/// The first position at or after `i` that holds no blank.
pub open spec fn skip_spaces(s: Seq<char>, i: int) -> int
    decreases s.len() - i,
{
    if 0 <= i < s.len() && is_json_space(s[i]) {
        skip_spaces(s, i + 1)
    } else {
        i
    }
}

/// The first position at or after `i` that holds no plain character.
pub open spec fn plain_end(s: Seq<char>, i: int) -> int
    decreases s.len() - i,
{
    if 0 <= i < s.len() && is_plain_char(s[i]) {
        plain_end(s, i + 1)
    } else {
        i
    }
}

/// The first position at or after `i` that holds no digit.
pub open spec fn digits_end(s: Seq<char>, i: int) -> int
    decreases s.len() - i,
{
    if 0 <= i < s.len() && is_digit(s[i]) {
        digits_end(s, i + 1)
    } else {
        i
    }
}

/// A value that a member of the envelope may have.
pub enum Scalar {
    Text(Seq<char>),
    Number(nat),
}

/// The string that starts at `i`, and where the text goes on behind it.
pub open spec fn text_token(s: Seq<char>, i: int) -> Option<(Seq<char>, int)> {
    let end = plain_end(s, i + 1);
    if 0 <= i < s.len() && s[i] == '"' && end < s.len() && s[end] == '"' {
        Some((s.subrange(i + 1, end), end + 1))
    } else {
        None
    }
}

/// The unsigned integer that starts at `i`, without a leading zero, and
/// where the text goes on behind it.
pub open spec fn number_token(s: Seq<char>, i: int) -> Option<(nat, int)> {
    let end = digits_end(s, i);
    if 0 <= i < end && (s[i] != '0' || end == i + 1) {
        Some((decimal_value(s.subrange(i, end)), end))
    } else {
        None
    }
}

/// The string or number that starts at `i`.
pub open spec fn scalar_token(s: Seq<char>, i: int) -> Option<(Scalar, int)> {
    if 0 <= i < s.len() && s[i] == '"' {
        match text_token(s, i) {
            Some((text, next)) => Some((Scalar::Text(text), next)),
            None => None,
        }
    } else {
        match number_token(s, i) {
            Some((n, next)) => Some((Scalar::Number(n), next)),
            None => None,
        }
    }
}

/// The member `"name": value` that starts at `i`.
pub open spec fn member_at(s: Seq<char>, i: int) -> Option<(Seq<char>, Scalar, int)> {
    match text_token(s, i) {
        None => None,
        Some((name, after_name)) => {
            let colon = skip_spaces(s, after_name);
            if 0 <= colon < s.len() && s[colon] == ':' {
                match scalar_token(s, skip_spaces(s, colon + 1)) {
                    Some((value, next)) => Some((name, value, next)),
                    None => None,
                }
            } else {
                None
            }
        },
    }
}

/// The fields gathered so far while the members are read.
pub struct Fields {
    pub v: Option<nat>,
    pub nonce_b64: Option<Seq<char>>,
    pub ciphertext_b64: Option<Seq<char>>,
}

/// The fields after one more member: each of the three names is taken once
/// and with its own kind of value, the version within a byte; any other
/// name changes nothing.
pub open spec fn absorb(fields: Fields, name: Seq<char>, value: Scalar) -> Option<Fields> {
    if name == "v"@ {
        match value {
            Scalar::Number(n) if fields.v is None && n <= 255 => Some(
                Fields { v: Some(n), ..fields },
            ),
            _ => None,
        }
    } else if name == "nonce_b64"@ {
        match value {
            Scalar::Text(text) if fields.nonce_b64 is None => Some(
                Fields { nonce_b64: Some(text), ..fields },
            ),
            _ => None,
        }
    } else if name == "ciphertext_b64"@ {
        match value {
            Scalar::Text(text) if fields.ciphertext_b64 is None => Some(
                Fields { ciphertext_b64: Some(text), ..fields },
            ),
            _ => None,
        }
    } else {
        Some(fields)
    }
}

/// A scan never moves backwards.
pub proof fn lemma_scan_bounds(s: Seq<char>, i: int)
    ensures
        i <= skip_spaces(s, i),
        i <= plain_end(s, i),
        i <= digits_end(s, i),
        i <= s.len() ==> skip_spaces(s, i) <= s.len() && plain_end(s, i) <= s.len() && digits_end(
            s,
            i,
        ) <= s.len(),
    decreases s.len() - i,
{
    if 0 <= i < s.len() {
        lemma_scan_bounds(s, i + 1);
    }
}

/// A member ends behind its start.
pub proof fn lemma_member_advances(s: Seq<char>, i: int)
    ensures
        member_at(s, i) matches Some((_, _, next)) ==> i < next <= s.len(),
{
    if let Some((name, after_name)) = text_token(s, i) {
        lemma_scan_bounds(s, i + 1);
        lemma_scan_bounds(s, after_name);
        let colon = skip_spaces(s, after_name);
        lemma_scan_bounds(s, colon + 1);
        let start = skip_spaces(s, colon + 1);
        lemma_scan_bounds(s, start);
        lemma_scan_bounds(s, start + 1);
    }
}

/// The fields after the members from `i` up to the closing brace, and where
/// the text goes on behind the brace.
pub open spec fn members_from(s: Seq<char>, i: int, fields: Fields) -> Option<(Fields, int)>
    decreases s.len() - i,
{
    match member_at(s, i) {
        None => None,
        Some((name, value, next)) => match absorb(fields, name, value) {
            None => None,
            Some(gathered) => {
                let sep = skip_spaces(s, next);
                if 0 <= sep < s.len() && s[sep] == ',' {
                    proof {
                        lemma_member_advances(s, i);
                        lemma_scan_bounds(s, next);
                        lemma_scan_bounds(s, sep + 1);
                    }
                    members_from(s, skip_spaces(s, sep + 1), gathered)
                } else if 0 <= sep < s.len() && s[sep] == '}' {
                    Some((gathered, sep + 1))
                } else {
                    None
                }
            },
        },
    }
}

/// The payload that a text holds, if the text is an envelope: an object
/// with nothing but blanks around it, in which each of the three fields
/// occurs.
pub open spec fn parsed_envelope(s: Seq<char>) -> Option<PayloadView> {
    let open = skip_spaces(s, 0);
    if 0 <= open < s.len() && s[open] == '{' {
        match members_from(
            s,
            skip_spaces(s, open + 1),
            Fields { v: None, nonce_b64: None, ciphertext_b64: None },
        ) {
            Some((fields, next)) => if skip_spaces(s, next) == s.len() && fields.v is Some
                && fields.nonce_b64 is Some && fields.ciphertext_b64 is Some {
                Some(
                    PayloadView {
                        v: fields.v->0,
                        nonce_b64: fields.nonce_b64->0,
                        ciphertext_b64: fields.ciphertext_b64->0,
                    },
                )
            } else {
                None
            },
            None => None,
        }
    } else {
        None
    }
}

/// Passes over the blanks from `start` on.
fn skip_spaces_in(chars: &Vec<char>, start: usize) -> (end: usize)
    requires
        start <= chars@.len(),
    ensures
        end == skip_spaces(chars@, start as int),
        start <= end <= chars@.len(),
{
    let mut i: usize = start;
    while i < chars.len() && (chars[i] == ' ' || chars[i] == '\n' || chars[i] == '\r' || chars[i]
        == '\t')
        invariant
            start <= i <= chars@.len(),
            skip_spaces(chars@, start as int) == skip_spaces(chars@, i as int),
        decreases chars@.len() - i,
    {
        i += 1;
    }
    i
}

/// Passes over the plain characters from `start` on.
fn plain_end_in(chars: &Vec<char>, start: usize) -> (end: usize)
    requires
        start <= chars@.len(),
    ensures
        end == plain_end(chars@, start as int),
        start <= end <= chars@.len(),
{
    let mut i: usize = start;
    while i < chars.len() && chars[i] != '"' && chars[i] != '\\' && chars[i] as u32 >= 0x20
        invariant
            start <= i <= chars@.len(),
            plain_end(chars@, start as int) == plain_end(chars@, i as int),
        decreases chars@.len() - i,
    {
        i += 1;
    }
    i
}

/// A number read from the text: where it ends, and its value if that fits
/// in a byte.
struct NumberRead {
    small: Option<u8>,
    next: usize,
}

/// A member's value read from the text.
enum ScalarRead {
    Text { from: usize, to: usize },
    Number { small: Option<u8> },
}

/// The value of `small`, or any value beyond a byte where there is none.
spec fn small_matches(small: Option<u8>, n: nat) -> bool {
    match small {
        Some(b) => n == b,
        None => n > 255,
    }
}

/// One more digit multiplies by ten and adds.
proof fn lemma_decimal_value_push(s: Seq<char>, c: char)
    ensures
        decimal_value(s.push(c)) == decimal_value(s) * 10 + digit_value(c),
{
    assert(s.push(c).drop_last() == s);
}

/// Reads the string that starts at `i`: the bounds of what lies between
/// its quotes.
fn read_text(chars: &Vec<char>, i: usize) -> (r: Option<(usize, usize)>)
    requires
        i <= chars@.len(),
    ensures
        match r {
            Some((from, to)) => i < from <= to < chars@.len() && text_token(chars@, i as int)
                == Some((chars@.subrange(from as int, to as int), to + 1)),
            None => text_token(chars@, i as int) is None,
        },
{
    if i >= chars.len() || chars[i] != '"' {
        return None;
    }
    let end = plain_end_in(chars, i + 1);
    if end >= chars.len() || chars[end] != '"' {
        return None;
    }
    Some((i + 1, end))
}

/// Reads the unsigned integer that starts at `start`.
fn read_number(chars: &Vec<char>, start: usize) -> (r: Option<NumberRead>)
    requires
        start <= chars@.len(),
    ensures
        match r {
            Some(read) => {
                &&& start < read.next <= chars@.len()
                &&& number_token(chars@, start as int) matches Some((n, next))
                &&& next == read.next
                &&& small_matches(read.small, n)
            },
            None => number_token(chars@, start as int) is None,
        },
{
    let mut i: usize = start;
    let mut value: u32 = 0;
    let mut small: bool = true;
    while i < chars.len() && '0' <= chars[i] && chars[i] <= '9'
        invariant
            start <= i <= chars@.len(),
            digits_end(chars@, start as int) == digits_end(chars@, i as int),
            small ==> value == decimal_value(chars@.subrange(start as int, i as int)),
            small ==> value <= 255,
            !small ==> decimal_value(chars@.subrange(start as int, i as int)) > 255,
        decreases chars@.len() - i,
    {
        let d: u32 = chars[i] as u32 - 0x30;
        proof {
            let before = chars@.subrange(start as int, i as int);
            assert(chars@.subrange(start as int, i as int + 1) == before.push(chars@[i as int]));
            lemma_decimal_value_push(before, chars@[i as int]);
        }
        if small {
            value = value * 10 + d;
            if value > 255 {
                small = false;
            }
        }
        i += 1;
    }
    if i == start || (chars[start] == '0' && i != start + 1) {
        return None;
    }
    Some(NumberRead { small: if small { Some(value as u8) } else { None }, next: i })
}

/// Reads the string or number that starts at `i`, and where the text goes
/// on behind it.
fn read_scalar(chars: &Vec<char>, i: usize) -> (r: Option<(ScalarRead, usize)>)
    requires
        i <= chars@.len(),
    ensures
        match r {
            Some((ScalarRead::Text { from, to }, next)) => i < from <= to < chars@.len() && next
                == to + 1 && scalar_token(chars@, i as int) == Some(
                (Scalar::Text(chars@.subrange(from as int, to as int)), next as int),
            ),
            Some((ScalarRead::Number { small }, next)) => {
                &&& i < next <= chars@.len()
                &&& scalar_token(chars@, i as int) matches Some((Scalar::Number(n), after))
                &&& after == next
                &&& small_matches(small, n)
            },
            None => scalar_token(chars@, i as int) is None,
        },
{
    if i < chars.len() && chars[i] == '"' {
        match read_text(chars, i) {
            Some((from, to)) => Some((ScalarRead::Text { from, to }, to + 1)),
            None => None,
        }
    } else {
        match read_number(chars, i) {
            Some(read) => Some((ScalarRead::Number { small: read.small }, read.next)),
            None => None,
        }
    }
}

/// Whether `chars[from..to]` spells `word`.
fn range_equals(chars: &Vec<char>, from: usize, to: usize, word: &Vec<char>) -> (r: bool)
    requires
        from <= to <= chars@.len(),
    ensures
        r == (chars@.subrange(from as int, to as int) == word@),
{
    if to - from != word.len() {
        return false;
    }
    let mut k: usize = 0;
    while k < word.len()
        invariant
            from <= to <= chars@.len(),
            to - from == word@.len(),
            k <= word@.len(),
            forall|j: int| 0 <= j < k ==> chars@[from + j] == word@[j],
        decreases word@.len() - k,
    {
        if chars[from + k] != word[k] {
            proof {
                assert(chars@.subrange(from as int, to as int)[k as int] != word@[k as int]);
            }
            return false;
        }
        k += 1;
    }
    proof {
        assert(chars@.subrange(from as int, to as int) =~= word@);
    }
    true
}

/// The fields gathered so far, as the grammar sees them.
spec fn gathered(v: Option<u8>, nonce_b64: Option<String>, ciphertext_b64: Option<String>) -> Fields {
    Fields {
        v: match v {
            Some(b) => Some(b as nat),
            None => None,
        },
        nonce_b64: match nonce_b64 {
            Some(text) => Some(text@),
            None => None,
        },
        ciphertext_b64: match ciphertext_b64 {
            Some(text) => Some(text@),
            None => None,
        },
    }
}

/// Reads an envelope. The result is the payload exactly when the text is an
/// object of the envelope's grammar that gives each of the three fields once.
///
/// The grammar is that of the envelope, not all of JSON, and on purpose: a
/// string with an escape in it, and a member whose value is an array, an
/// object, a literal, or a negative or fractional number, make the text
/// malformed, under whatever name they stand. What [`render_envelope`]
/// writes holds none of these.
pub fn parse_envelope(text: &str) -> (r: Option<EncryptedPayload>)
    ensures
        match r {
            Some(payload) => parsed_envelope(text@) == Some(payload@),
            None => parsed_envelope(text@) is None,
        },
{
    let chars = chars_of(text);
    let name_v = chars_of("v");
    let name_nonce = chars_of("nonce_b64");
    let name_ciphertext = chars_of("ciphertext_b64");
    let open = skip_spaces_in(&chars, 0);
    if open >= chars.len() || chars[open] != '{' {
        return None;
    }
    let first = skip_spaces_in(&chars, open + 1);
    let mut i: usize = first;
    let mut v: Option<u8> = None;
    let mut nonce_b64: Option<String> = None;
    let mut ciphertext_b64: Option<String> = None;
    loop
        invariant
            chars@ == text@,
            name_v@ == "v"@,
            name_nonce@ == "nonce_b64"@,
            name_ciphertext@ == "ciphertext_b64"@,
            open == skip_spaces(chars@, 0),
            0 <= open < chars@.len(),
            chars@[open as int] == '{',
            first == skip_spaces(chars@, open + 1),
            i <= chars@.len(),
            members_from(
                chars@,
                first as int,
                Fields { v: None, nonce_b64: None, ciphertext_b64: None },
            ) == members_from(chars@, i as int, gathered(v, nonce_b64, ciphertext_b64)),
        decreases chars@.len() - i,
    {
        let (name_from, name_to) = match read_text(&chars, i) {
            Some(found) => found,
            None => {
                return None;
            },
        };
        let colon = skip_spaces_in(&chars, name_to + 1);
        if colon >= chars.len() || chars[colon] != ':' {
            return None;
        }
        let value_at = skip_spaces_in(&chars, colon + 1);
        let (value, next) = match read_scalar(&chars, value_at) {
            Some(found) => found,
            None => {
                return None;
            },
        };
        if range_equals(&chars, name_from, name_to, &name_v) {
            match value {
                ScalarRead::Number { small: Some(b) } if v.is_none() => {
                    v = Some(b);
                },
                _ => {
                    return None;
                },
            }
        } else if range_equals(&chars, name_from, name_to, &name_nonce) {
            match value {
                ScalarRead::Text { from, to } if nonce_b64.is_none() => {
                    nonce_b64 = Some(string_of(&chars, from, to));
                },
                _ => {
                    return None;
                },
            }
        } else if range_equals(&chars, name_from, name_to, &name_ciphertext) {
            match value {
                ScalarRead::Text { from, to } if ciphertext_b64.is_none() => {
                    ciphertext_b64 = Some(string_of(&chars, from, to));
                },
                _ => {
                    return None;
                },
            }
        }
        let sep = skip_spaces_in(&chars, next);
        if sep < chars.len() && chars[sep] == ',' {
            i = skip_spaces_in(&chars, sep + 1);
        } else if sep < chars.len() && chars[sep] == '}' {
            let tail = skip_spaces_in(&chars, sep + 1);
            if tail != chars.len() {
                return None;
            }
            return match (v, nonce_b64, ciphertext_b64) {
                (Some(v), Some(nonce_b64), Some(ciphertext_b64)) => Some(
                    EncryptedPayload { v, nonce_b64, ciphertext_b64 },
                ),
                _ => None,
            };
        } else {
            return None;
        }
    }
}

/// Whether a string can stand unescaped between quotes.
fn is_plain(text: &str) -> (r: bool)
    ensures
        r == is_plain_text(text@),
{
    let chars = chars_of(text);
    let mut i: usize = 0;
    while i < chars.len()
        invariant
            i <= chars@.len(),
            chars@ == text@,
            forall|k: int| 0 <= k < i ==> is_plain_char(#[trigger] chars@[k]),
        decreases chars@.len() - i,
    {
        let c = chars[i];
        if c == '"' || c == '\\' || (c as u32) < 0x20 {
            proof {
                assert(!is_plain_char(text@[i as int]));
            }
            return false;
        }
        i += 1;
    }
    true
}

/// Writes the compact text of an envelope whose two strings are plain. The
/// text reads back as the same payload.
pub(crate) fn write_envelope(payload: &EncryptedPayload) -> (r: String)
    requires
        is_plain_text(payload@.nonce_b64),
        is_plain_text(payload@.ciphertext_b64),
    ensures
        r@ == envelope_text(payload@.v, payload@.nonce_b64, payload@.ciphertext_b64),
        parsed_envelope(r@) == Some(payload@),
{
    let version: u64 = payload.v as u64;
    let digits = decimal_string(version);
    let mut out = String::from_str("{\"v\":");
    out.append(digits.as_str());
    out.append(",\"nonce_b64\":\"");
    out.append(payload.nonce_b64.as_str());
    out.append("\",\"ciphertext_b64\":\"");
    out.append(payload.ciphertext_b64.as_str());
    out.append("\"}");
    proof {
        lemma_envelope_round_trip(payload@.v, payload@.nonce_b64, payload@.ciphertext_b64);
    }
    out
}

/// Writes the compact text of an envelope. Nothing is escaped: a payload
/// with a quote, a backslash or a control character in one of its strings
/// has no text, and base64 never holds one. The text that is written reads
/// back as the same payload.
pub fn render_envelope(payload: &EncryptedPayload) -> (r: Option<String>)
    ensures
        r is Some <==> is_plain_text(payload@.nonce_b64) && is_plain_text(
            payload@.ciphertext_b64,
        ),
        r matches Some(text) ==> text@ == envelope_text(
            payload@.v,
            payload@.nonce_b64,
            payload@.ciphertext_b64,
        ) && parsed_envelope(text@) == Some(payload@),
{
    if is_plain(payload.nonce_b64.as_str()) && is_plain(payload.ciphertext_b64.as_str()) {
        Some(write_envelope(payload))
    } else {
        None
    }
}

/// A run of plain characters ends where the first other character stands.
proof fn lemma_plain_run(s: Seq<char>, from: int, to: int)
    requires
        0 <= from <= to <= s.len(),
        forall|k: int| from <= k < to ==> is_plain_char(#[trigger] s[k]),
        to < s.len() ==> !is_plain_char(s[to]),
    ensures
        plain_end(s, from) == to,
    decreases to - from,
{
    if from < to {
        lemma_plain_run(s, from + 1, to);
    }
}

/// A run of digits ends where the first other character stands.
proof fn lemma_digit_run(s: Seq<char>, from: int, to: int)
    requires
        0 <= from <= to <= s.len(),
        forall|k: int| from <= k < to ==> is_digit(#[trigger] s[k]),
        to < s.len() ==> !is_digit(s[to]),
    ensures
        digits_end(s, from) == to,
    decreases to - from,
{
    if from < to {
        lemma_digit_run(s, from + 1, to);
    }
}

/// The text `s` is a compact object: the three members in their order, with
/// no blank anywhere, the version's digits ending before `a`, the nonce
/// before `b` and the ciphertext before `c`.
spec fn compact_layout(
    s: Seq<char>,
    v: nat,
    nonce_b64: Seq<char>,
    ciphertext_b64: Seq<char>,
    a: int,
    b: int,
    c: int,
) -> bool {
    &&& 5 < a && a + 14 <= b && b + 20 <= c
    &&& s.len() == c + 2
    &&& s[0] == '{' && s[1] == '"' && s.subrange(2, 3) == "v"@ && s[3] == '"' && s[4] == ':'
    &&& s.subrange(5, a) == decimal_digits(v)
    &&& s[a] == ',' && s[a + 1] == '"' && s.subrange(a + 2, a + 11) == "nonce_b64"@
    &&& s[a + 11] == '"' && s[a + 12] == ':' && s[a + 13] == '"'
    &&& s.subrange(a + 14, b) == nonce_b64
    &&& s[b] == '"' && s[b + 1] == ',' && s[b + 2] == '"'
    &&& s.subrange(b + 3, b + 17) == "ciphertext_b64"@
    &&& s[b + 17] == '"' && s[b + 18] == ':' && s[b + 19] == '"'
    &&& s.subrange(b + 20, c) == ciphertext_b64
    &&& s[c] == '"' && s[c + 1] == '}'
    &&& is_plain_text("v"@) && is_plain_text("nonce_b64"@) && is_plain_text("ciphertext_b64"@)
    &&& "v"@ != "nonce_b64"@ && "v"@ != "ciphertext_b64"@ && "nonce_b64"@ != "ciphertext_b64"@
}

/// The compact text of an envelope is a compact object.
proof fn lemma_envelope_layout(v: nat, nonce_b64: Seq<char>, ciphertext_b64: Seq<char>)
    ensures
        compact_layout(
            envelope_text(v, nonce_b64, ciphertext_b64),
            v,
            nonce_b64,
            ciphertext_b64,
            5 + decimal_digits(v).len() as int,
            5 + decimal_digits(v).len() as int + 14 + nonce_b64.len() as int,
            5 + decimal_digits(v).len() as int + 14 + nonce_b64.len() as int + 20
                + ciphertext_b64.len() as int,
        ),
{
    reveal_strlit("{\"v\":");
    reveal_strlit(",\"nonce_b64\":\"");
    reveal_strlit("\",\"ciphertext_b64\":\"");
    reveal_strlit("\"}");
    reveal_strlit("v");
    reveal_strlit("nonce_b64");
    reveal_strlit("ciphertext_b64");
    lemma_decimal_digits(v);
    let head = "{\"v\":"@;
    let digits = decimal_digits(v);
    let mid = ",\"nonce_b64\":\""@;
    let sep = "\",\"ciphertext_b64\":\""@;
    let tail = "\"}"@;
    let s = envelope_text(v, nonce_b64, ciphertext_b64);
    let a: int = 5 + digits.len() as int;
    let b: int = a + 14 + nonce_b64.len() as int;
    let c: int = b + 20 + ciphertext_b64.len() as int;
    let s1 = head + digits;
    let s2 = s1 + mid;
    let s3 = s2 + nonce_b64;
    let s4 = s3 + sep;
    let s5 = s4 + ciphertext_b64;
    assert(s == s5 + tail);
    assert(s.subrange(2, 3) =~= "v"@);
    assert(s.subrange(5, a) =~= digits);
    assert(s.subrange(a + 2, a + 11) =~= "nonce_b64"@);
    assert(s.subrange(a + 14, b) =~= nonce_b64);
    assert(s.subrange(b + 3, b + 17) =~= "ciphertext_b64"@);
    assert(s.subrange(b + 20, c) =~= ciphertext_b64);
}

/// A quoted plain string is read as it stands.
proof fn lemma_text_token(s: Seq<char>, i: int, end: int)
    requires
        0 <= i < end < s.len(),
        s[i] == '"',
        s[end] == '"',
        is_plain_text(s.subrange(i + 1, end)),
    ensures
        text_token(s, i) == Some((s.subrange(i + 1, end), end + 1)),
{
    assert forall|k: int| i + 1 <= k < end implies is_plain_char(#[trigger] s[k]) by {
        assert(s[k] == s.subrange(i + 1, end)[k - i - 1]);
    }
    lemma_plain_run(s, i + 1, end);
}

/// A member written without blanks, with a string as its value, is read as
/// it stands.
proof fn lemma_text_member(s: Seq<char>, i: int, name_end: int, end: int)
    requires
        0 <= i < name_end,
        name_end + 2 < end < s.len(),
        s[i] == '"',
        s[name_end] == '"',
        s[name_end + 1] == ':',
        s[name_end + 2] == '"',
        s[end] == '"',
        is_plain_text(s.subrange(i + 1, name_end)),
        is_plain_text(s.subrange(name_end + 3, end)),
    ensures
        member_at(s, i) == Some(
            (s.subrange(i + 1, name_end), Scalar::Text(s.subrange(name_end + 3, end)), end + 1),
        ),
{
    lemma_text_token(s, i, name_end);
    lemma_text_token(s, name_end + 2, end);
}

/// A member written without blanks, with a number in its shortest writing
/// as its value, is read as it stands.
proof fn lemma_number_member(s: Seq<char>, i: int, name_end: int, end: int, n: nat)
    requires
        0 <= i < name_end,
        name_end + 2 < end < s.len(),
        s[i] == '"',
        s[name_end] == '"',
        s[name_end + 1] == ':',
        !is_digit(s[end]),
        is_plain_text(s.subrange(i + 1, name_end)),
        s.subrange(name_end + 2, end) == decimal_digits(n),
    ensures
        member_at(s, i) == Some((s.subrange(i + 1, name_end), Scalar::Number(n), end)),
{
    lemma_text_token(s, i, name_end);
    lemma_decimal_digits(n);
    let digits = s.subrange(name_end + 2, end);
    assert forall|k: int| name_end + 2 <= k < end implies is_digit(#[trigger] s[k]) by {
        assert(s[k] == digits[k - name_end - 2]);
    }
    lemma_digit_run(s, name_end + 2, end);
    assert(s[name_end + 2] == digits[0]);
}

/// A member followed at once by a comma and the next member hands the
/// gathered fields on.
proof fn lemma_member_then_comma(
    s: Seq<char>,
    i: int,
    fields: Fields,
    name: Seq<char>,
    value: Scalar,
    next: int,
    gathered: Fields,
)
    requires
        member_at(s, i) == Some((name, value, next)),
        absorb(fields, name, value) == Some(gathered),
        0 <= next,
        next + 1 < s.len(),
        s[next] == ',',
        !is_json_space(s[next + 1]),
    ensures
        members_from(s, i, fields) == members_from(s, next + 1, gathered),
{
    assert(skip_spaces(s, next) == next);
    assert(skip_spaces(s, next + 1) == next + 1);
}

/// A member followed at once by the closing brace ends the object.
proof fn lemma_member_then_close(
    s: Seq<char>,
    i: int,
    fields: Fields,
    name: Seq<char>,
    value: Scalar,
    next: int,
    gathered: Fields,
)
    requires
        member_at(s, i) == Some((name, value, next)),
        absorb(fields, name, value) == Some(gathered),
        0 <= next < s.len(),
        s[next] == '}',
    ensures
        members_from(s, i, fields) == Some((gathered, next + 1)),
{
    assert(skip_spaces(s, next) == next);
}

/// A compact object reads as its three fields.
proof fn lemma_compact_object(
    s: Seq<char>,
    v: nat,
    nonce_b64: Seq<char>,
    ciphertext_b64: Seq<char>,
    a: int,
    b: int,
    c: int,
)
    requires
        compact_layout(s, v, nonce_b64, ciphertext_b64, a, b, c),
        v <= 255,
        is_plain_text(nonce_b64),
        is_plain_text(ciphertext_b64),
    ensures
        parsed_envelope(s) == Some(PayloadView { v, nonce_b64, ciphertext_b64 }),
{
    let none = Fields { v: None, nonce_b64: None, ciphertext_b64: None };
    let f1 = Fields { v: Some(v), ..none };
    let f2 = Fields { nonce_b64: Some(nonce_b64), ..f1 };
    let f3 = Fields { ciphertext_b64: Some(ciphertext_b64), ..f2 };
    assert(members_from(s, 1, none) == members_from(s, a + 1, f1)) by {
        lemma_number_member(s, 1, 3, a, v);
        lemma_member_then_comma(s, 1, none, "v"@, Scalar::Number(v), a, f1);
    }
    assert(members_from(s, a + 1, f1) == members_from(s, b + 2, f2)) by {
        lemma_text_member(s, a + 1, a + 11, b);
        lemma_member_then_comma(
            s,
            a + 1,
            f1,
            "nonce_b64"@,
            Scalar::Text(nonce_b64),
            b + 1,
            f2,
        );
    }
    assert(members_from(s, b + 2, f2) == Some((f3, c + 2))) by {
        lemma_text_member(s, b + 2, b + 17, c);
        lemma_member_then_close(
            s,
            b + 2,
            f2,
            "ciphertext_b64"@,
            Scalar::Text(ciphertext_b64),
            c + 1,
            f3,
        );
    }
    assert(skip_spaces(s, 0) == 0);
    assert(skip_spaces(s, 1) == 1);
    assert(skip_spaces(s, c + 2) == c + 2);
}

/// Reading what was written gives the same fields back: the envelope's
/// grammar takes the compact text of any version within a byte and any two
/// plain strings, and finds exactly them in it.
pub proof fn lemma_envelope_round_trip(v: nat, nonce_b64: Seq<char>, ciphertext_b64: Seq<char>)
    requires
        v <= 255,
        is_plain_text(nonce_b64),
        is_plain_text(ciphertext_b64),
    ensures
        parsed_envelope(envelope_text(v, nonce_b64, ciphertext_b64)) == Some(
            PayloadView { v, nonce_b64, ciphertext_b64 },
        ),
{
    let a: int = 5 + decimal_digits(v).len() as int;
    let b: int = a + 14 + nonce_b64.len() as int;
    let c: int = b + 20 + ciphertext_b64.len() as int;
    lemma_envelope_layout(v, nonce_b64, ciphertext_b64);
    lemma_compact_object(
        envelope_text(v, nonce_b64, ciphertext_b64),
        v,
        nonce_b64,
        ciphertext_b64,
        a,
        b,
        c,
    );
}

} // verus!
