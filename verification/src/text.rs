//! Character classes and small string helpers shared by the other modules.

use vstd::prelude::*;
use vstd::utf8::encode_utf8;

verus! {

/// The characters that carry the Unicode `White_Space` property.
pub open spec fn is_white_space(c: char) -> bool {
    let u = c as u32;
    (0x09 <= u <= 0x0D) || u == 0x20 || u == 0x85 || u == 0xA0 || u == 0x1680 || (0x2000 <= u
        <= 0x200A) || u == 0x2028 || u == 0x2029 || u == 0x202F || u == 0x205F || u == 0x3000
}

/// Whether a character beyond ASCII carries the Unicode `Alphabetic`
/// property.
pub uninterp spec fn is_alphabetic_beyond_ascii(c: char) -> bool;

/// Whether a character beyond ASCII belongs to one of the Unicode numeric
/// categories (`Nd`, `Nl`, `No`).
pub uninterp spec fn is_numeric_beyond_ascii(c: char) -> bool;

/// An ASCII letter.
pub open spec fn is_ascii_letter(c: char) -> bool {
    ('a' <= c <= 'z') || ('A' <= c <= 'Z')
}

/// Whether a character carries the Unicode `Alphabetic` property. Within
/// ASCII these are the letters.
pub open spec fn is_alphabetic_char(c: char) -> bool {
    if (c as u32) < 0x80 {
        is_ascii_letter(c)
    } else {
        is_alphabetic_beyond_ascii(c)
    }
}

/// Whether a character belongs to one of the Unicode numeric categories
/// (`Nd`, `Nl`, `No`). Within ASCII these are the digits.
pub open spec fn is_numeric_char(c: char) -> bool {
    if (c as u32) < 0x80 {
        '0' <= c <= '9'
    } else {
        is_numeric_beyond_ascii(c)
    }
}

/// `char::is_whitespace` answers the `White_Space` property, whose members
/// are listed in [`is_white_space`].
pub assume_specification[ char::is_whitespace ](c: char) -> (r: bool)
    ensures
        r == is_white_space(c),
;

/// `char::is_alphabetic` answers the `Alphabetic` property: within ASCII
/// the letters, and beyond ASCII a table of the Unicode database, which the
/// contract only names.
pub assume_specification[ char::is_alphabetic ](c: char) -> (r: bool)
    ensures
        r == if (c as u32) < 0x80 {
            is_ascii_letter(c)
        } else {
            is_alphabetic_beyond_ascii(c)
        },
;

/// `char::is_numeric` answers membership in the numeric general
/// categories: within ASCII the digits, and beyond ASCII tables of the
/// Unicode database, which the contract only names.
pub assume_specification[ char::is_numeric ](c: char) -> (r: bool)
    ensures
        r == if (c as u32) < 0x80 {
            '0' <= c <= '9'
        } else {
            is_numeric_beyond_ascii(c)
        },
;

/// A result that holds a string, with the string as its characters.
pub open spec fn text_result<E>(r: Result<String, E>) -> Result<Seq<char>, E> {
    match r {
        Ok(text) => Ok(text@),
        Err(e) => Err(e),
    }
}

/// The length of a string in UTF-8 bytes.
pub fn byte_len(s: &str) -> (n: usize)
    ensures
        n == encode_utf8(s@).len(),
{
    s.as_bytes().len()
}

/// The characters of a string, in order.
pub fn chars_of(s: &str) -> (r: Vec<char>)
    ensures
        r@ == s@,
{
    let mut out: Vec<char> = Vec::new();
    for c in it: s.chars()
        invariant
            out@ == it.seq().take(it.index()),
            it.seq() == s@,
    {
        out.push(c);
    }
    out
}

/// `String::push` appends one character.
pub assume_specification[ String::push ](s: &mut String, c: char)
    ensures
        final(s)@ == old(s)@.push(c),
;

/// The text made of the characters `chars[from..to]`.
pub(crate) fn string_of(chars: &Vec<char>, from: usize, to: usize) -> (r: String)
    requires
        from <= to <= chars@.len(),
    ensures
        r@ == chars@.subrange(from as int, to as int),
{
    let mut out = String::new();
    let mut i: usize = from;
    while i < to
        invariant
            from <= i <= to <= chars@.len(),
            out@ == chars@.subrange(from as int, i as int),
        decreases to - i,
    {
        out.push(chars[i]);
        proof {
            assert(chars@.subrange(from as int, i as int + 1) == chars@.subrange(
                from as int,
                i as int,
            ).push(chars@[i as int]));
        }
        i += 1;
    }
    out
}

/// An ASCII decimal digit.
pub open spec fn is_digit(c: char) -> bool {
    '0' <= c <= '9'
}

/// The value of a decimal digit.
pub open spec fn digit_value(c: char) -> nat
    recommends
        is_digit(c),
{
    (c as u32 - 0x30) as nat
}

/// The digit that stands for a value below ten.
pub open spec fn digit_char(d: nat) -> char
    recommends
        d < 10,
{
    ((d + 0x30) as u8) as char
}

/// Every character of `s` is a decimal digit.
pub open spec fn all_digits(s: Seq<char>) -> bool {
    forall|i: int| 0 <= i < s.len() ==> is_digit(#[trigger] s[i])
}

/// The number that a run of decimal digits writes, most significant first.
pub open spec fn decimal_value(s: Seq<char>) -> nat
    decreases s.len(),
{
    if s.len() == 0 {
        0
    } else {
        decimal_value(s.drop_last()) * 10 + digit_value(s.last())
    }
}

/// The shortest decimal writing of a number.
pub open spec fn decimal_digits(n: nat) -> Seq<char>
    decreases n,
{
    if n < 10 {
        seq![digit_char(n)]
    } else {
        decimal_digits(n / 10).push(digit_char(n % 10))
    }
}

/// The shortest writing of a number is made of digits, starts with `0` only
/// for zero itself, and reads back as that number.
pub proof fn lemma_decimal_digits(n: nat)
    ensures
        decimal_digits(n).len() >= 1,
        all_digits(decimal_digits(n)),
        decimal_value(decimal_digits(n)) == n,
        decimal_digits(n)[0] == '0' <==> n == 0,
    decreases n,
{
    if n < 10 {
        let s = decimal_digits(n);
        assert(s.drop_last() == Seq::<char>::empty());
        assert(decimal_value(s.drop_last()) == 0);
    } else {
        lemma_decimal_digits(n / 10);
        let head = decimal_digits(n / 10);
        let s = decimal_digits(n);
        assert(s.drop_last() == head);
        assert(s[0] == head[0]);
    }
}

/// The shortest decimal writing of `n`.
pub fn decimal_string(n: u64) -> (r: String)
    ensures
        r@ == decimal_digits(n as nat),
{
    let mut reversed: Vec<char> = Vec::new();
    let mut rest: u64 = n;
    while rest >= 10
        invariant
            decimal_digits(n as nat) == decimal_digits(rest as nat) + reversed@.reverse(),
        decreases rest,
    {
        let d: u8 = (rest % 10) as u8;
        let c: char = (d + 0x30) as char;
        proof {
            let tail = reversed@.reverse();
            assert(reversed@.push(c).reverse() == seq![c] + tail);
            assert(decimal_digits(rest as nat) == decimal_digits((rest / 10) as nat).push(c));
            assert(decimal_digits((rest / 10) as nat).push(c) + tail == decimal_digits(
                (rest / 10) as nat,
            ) + (seq![c] + tail));
        }
        reversed.push(c);
        rest = rest / 10;
    }
    let first: char = ((rest as u8) + 0x30) as char;
    let mut out = String::new();
    out.push(first);
    let mut i: usize = reversed.len();
    while i > 0
        invariant
            i <= reversed@.len(),
            out@ == seq![first] + reversed@.reverse().take(reversed@.len() - i),
        decreases i,
    {
        i -= 1;
        out.push(reversed[i]);
        proof {
            let rev = reversed@.reverse();
            let k = reversed@.len() - i - 1;
            assert(rev[k] == reversed@[i as int]);
            assert(rev.take(k + 1) == rev.take(k).push(rev[k]));
            assert((seq![first] + rev.take(k)).push(rev[k]) == seq![first] + rev.take(k + 1));
        }
    }
    proof {
        let rev = reversed@.reverse();
        assert(rev.take(rev.len() as int) == rev);
        assert(decimal_digits(rest as nat) == seq![first]);
    }
    out
}

/// The first position at or after `i` that holds no white space.
pub open spec fn blank_prefix_end(s: Seq<char>, i: int) -> int
    decreases s.len() - i,
{
    if 0 <= i < s.len() && is_white_space(s[i]) {
        blank_prefix_end(s, i + 1)
    } else {
        i
    }
}

/// The position behind the last character before `j` that is no white
/// space.
pub open spec fn blank_suffix_start(s: Seq<char>, j: int) -> int
    decreases j,
{
    if 0 < j <= s.len() && is_white_space(s[j - 1]) {
        blank_suffix_start(s, j - 1)
    } else {
        j
    }
}

/// A text without the white space at its two ends.
pub open spec fn trimmed(s: Seq<char>) -> Seq<char> {
    let from = blank_prefix_end(s, 0);
    let to = blank_suffix_start(s, s.len() as int);
    if from < to {
        s.subrange(from, to)
    } else {
        Seq::empty()
    }
}

/// The scan for trailing white space stays within the text.
proof fn lemma_blank_suffix_bounds(s: Seq<char>, j: int)
    requires
        0 <= j <= s.len(),
    ensures
        0 <= blank_suffix_start(s, j) <= j,
    decreases j,
{
    if 0 < j && is_white_space(s[j - 1]) {
        lemma_blank_suffix_bounds(s, j - 1);
    }
}

/// The bounds of `chars[from..to]` without the white space at its two ends:
/// a pair `(a, b)` with `chars[a..b]` the trimmed text.
pub(crate) fn trim_range(chars: &Vec<char>, from: usize, to: usize) -> (r: (usize, usize))
    requires
        from <= to <= chars@.len(),
    ensures
        from <= r.0 <= r.1 <= to,
        chars@.subrange(r.0 as int, r.1 as int) == trimmed(chars@.subrange(from as int, to as int)),
{
    let ghost part = chars@.subrange(from as int, to as int);
    let mut a: usize = from;
    while a < to && chars[a].is_whitespace()
        invariant
            from <= a <= to <= chars@.len(),
            part == chars@.subrange(from as int, to as int),
            blank_prefix_end(part, 0) == blank_prefix_end(part, a - from),
        decreases to - a,
    {
        proof {
            assert(part[a - from] == chars@[a as int]);
        }
        a += 1;
    }
    proof {
        if a < to {
            assert(part[a - from] == chars@[a as int]);
        }
        assert(blank_prefix_end(part, 0) == a - from);
    }
    let mut b: usize = to;
    while b > a && chars[b - 1].is_whitespace()
        invariant
            from <= a <= b <= to <= chars@.len(),
            part == chars@.subrange(from as int, to as int),
            blank_suffix_start(part, part.len() as int) == blank_suffix_start(part, b - from),
        decreases b,
    {
        proof {
            assert(part[b - 1 - from] == chars@[b - 1]);
        }
        b -= 1;
    }
    proof {
        if b > a {
            assert(part[b - 1 - from] == chars@[b - 1]);
            assert(blank_suffix_start(part, part.len() as int) == b - from);
            assert(part.subrange(a - from, b - from) =~= chars@.subrange(a as int, b as int));
        } else {
            lemma_blank_suffix_bounds(part, b - from);
            assert(chars@.subrange(a as int, b as int) =~= Seq::<char>::empty());
        }
    }
    (a, b)
}

/// The number that a text of decimal digits writes, if the text is not
/// empty and the number is at most `limit`.
pub open spec fn bounded_decimal(s: Seq<char>, limit: nat) -> Option<nat> {
    if s.len() > 0 && all_digits(s) && decimal_value(s) <= limit {
        Some(decimal_value(s))
    } else {
        None
    }
}

/// A run of digits writes at least what any of its beginnings writes.
pub proof fn lemma_decimal_value_grows(s: Seq<char>, k: int)
    requires
        all_digits(s),
        0 <= k <= s.len(),
    ensures
        decimal_value(s.take(k)) <= decimal_value(s),
    decreases s.len(),
{
    if k < s.len() {
        assert(all_digits(s.drop_last())) by {
            assert forall|i: int| 0 <= i < s.drop_last().len() implies is_digit(
                #[trigger] s.drop_last()[i],
            ) by {
                assert(s.drop_last()[i] == s[i]);
            }
        }
        lemma_decimal_value_grows(s.drop_last(), k);
        assert(s.drop_last().take(k) == s.take(k));
    } else {
        assert(s.take(k) == s);
    }
}

/// Reads `chars[from..to]` as a decimal number of at most `limit`.
pub(crate) fn read_bounded_decimal(chars: &Vec<char>, from: usize, to: usize, limit: u64) -> (r: Option<
    u64,
>)
    requires
        from <= to <= chars@.len(),
    ensures
        match r {
            Some(n) => bounded_decimal(chars@.subrange(from as int, to as int), limit as nat)
                == Some(n as nat),
            None => bounded_decimal(chars@.subrange(from as int, to as int), limit as nat) is None,
        },
{
    let ghost part = chars@.subrange(from as int, to as int);
    if from == to {
        return None;
    }
    let mut value: u64 = 0;
    let mut i: usize = from;
    while i < to
        invariant
            from <= i <= to <= chars@.len(),
            part == chars@.subrange(from as int, to as int),
            all_digits(part.take(i - from)),
            value == decimal_value(part.take(i - from)),
            value <= limit,
        decreases to - i,
    {
        let c = chars[i];
        let ghost before = part.take(i - from);
        proof {
            assert(part[i - from] == c);
            assert(part.take(i - from + 1) == before.push(c));
            assert(before.push(c).drop_last() == before);
        }
        if !('0' <= c && c <= '9') {
            proof {
                assert(!is_digit(part[i - from]));
            }
            return None;
        }
        let d: u64 = (c as u32 - 0x30) as u64;
        if d > limit || value > (limit - d) / 10 {
            proof {
                let after = before.push(c);
                assert(decimal_value(after) == value * 10 + d);
                assert(decimal_value(after) > limit);
                if all_digits(part) {
                    lemma_decimal_value_grows(part, i - from + 1);
                }
            }
            return None;
        }
        value = value * 10 + d;
        proof {
            let after = before.push(c);
            assert forall|k: int| 0 <= k < after.len() implies is_digit(#[trigger] after[k]) by {
                if k < before.len() {
                    assert(after[k] == before[k]);
                }
            }
        }
        i += 1;
    }
    proof {
        assert(part.take(part.len() as int) == part);
    }
    Some(value)
}

} // verus!
