//! The search continuation cursor: `v1:<received ms|none>:<id>:<percent-encoded account>`.
use vstd::prelude::*;
use vstd::utf8::*;

use crate::text::{
    any_control, blank, chars_of, has_control, is_blank, is_control_char, is_white_space_char,
};

verus! {

/// Longest selector value, in characters.
pub const MAX_SELECTOR_CHARS: usize = 256;

/// Longest cursor, in bytes: room for a fully percent-escaped account plus the fixed fields.
pub const MAX_CURSOR_BYTES: usize = 3136;

/// A selector value is usable: not blank, not too long, free of control characters.
pub open spec fn selector_ok(value: Seq<char>) -> bool {
    &&& !is_blank(value)
    &&& value.len() <= MAX_SELECTOR_CHARS
    &&& !has_control(value)
}

// ----- splitting on a separator -----

/// The fields of `s` between occurrences of `sep`, as `str::split` yields them.
pub open spec fn split_on(s: Seq<char>, sep: char) -> Seq<Seq<char>>
    decreases s.len(),
{
    if s.len() == 0 {
        seq![Seq::<char>::empty()]
    } else {
        let rest = split_on(s.drop_last(), sep);
        if s.last() == sep {
            rest.push(Seq::<char>::empty())
        } else {
            rest.update(rest.len() - 1, rest.last().push(s.last()))
        }
    }
}

pub proof fn lemma_split_on_nonempty(s: Seq<char>, sep: char)
    ensures
        split_on(s, sep).len() >= 1,
    decreases s.len(),
{
    if s.len() > 0 {
        lemma_split_on_nonempty(s.drop_last(), sep);
    }
}

/// The fields of `s` between occurrences of `sep`.
fn split_chars(s: &[char], sep: char) -> (r: Vec<Vec<char>>)
    ensures
        r@.map_values(|f: Vec<char>| f@) == split_on(s@, sep),
{
    let mut fields: Vec<Vec<char>> = Vec::new();
    let mut current: Vec<char> = Vec::new();
    let mut i: usize = 0;
    assert(s@.take(0) =~= Seq::<char>::empty());
    assert(fields@.map_values(|f: Vec<char>| f@).push(current@) =~= seq![Seq::<char>::empty()]);
    while i < s.len()
        invariant
            i <= s.len(),
            split_on(s@.take(i as int), sep) == fields@.map_values(|f: Vec<char>| f@).push(
                current@,
            ),
        decreases s.len() - i,
    {
        let c = s[i];
        assert(s@.take(i + 1).drop_last() =~= s@.take(i as int));
        assert(s@.take(i + 1).last() == c);
        let ghost before = fields@.map_values(|f: Vec<char>| f@);
        if c == sep {
            let done = current;
            fields.push(done);
            current = Vec::new();
            assert(fields@.map_values(|f: Vec<char>| f@) =~= before.push(done@));
        } else {
            let ghost old_current = current@;
            current.push(c);
            assert(before.push(old_current).update(before.len() as int, old_current.push(c))
                =~= before.push(current@));
        }
        i = i + 1;
    }
    assert(s@.take(s.len() as int) =~= s@);
    fields.push(current);
    assert(fields@.map_values(|f: Vec<char>| f@) =~= split_on(s@, sep));
    fields
}

// ----- decimal integers -----

pub open spec fn is_digit(c: char) -> bool {
    '0' <= c && c <= '9'
}

pub open spec fn digit_value(c: char) -> int {
    (c as int) - ('0' as int)
}

pub open spec fn all_digits(s: Seq<char>) -> bool {
    forall|i: int| 0 <= i < s.len() ==> #[trigger] is_digit(s[i])
}

/// The value of a string of decimal digits.
pub open spec fn decimal_value(s: Seq<char>) -> int
    decreases s.len(),
{
    if s.len() == 0 {
        0
    } else {
        decimal_value(s.drop_last()) * 10 + digit_value(s.last())
    }
}

/// What `str::parse::<i64>` gives: an optional sign, one or more digits, and a value in range.
pub open spec fn i64_text_value(s: Seq<char>) -> Option<int> {
    let signed = s.len() > 0 && (s[0] == '+' || s[0] == '-');
    let negative = s.len() > 0 && s[0] == '-';
    let digits = if signed {
        s.drop_first()
    } else {
        s
    };
    if digits.len() == 0 || !all_digits(digits) {
        None
    } else {
        let v = if negative {
            -decimal_value(digits)
        } else {
            decimal_value(digits)
        };
        if i64::MIN <= v && v <= i64::MAX {
            Some(v)
        } else {
            None
        }
    }
}

proof fn lemma_decimal_nonneg(s: Seq<char>)
    requires
        all_digits(s),
    ensures
        decimal_value(s) >= 0,
    decreases s.len(),
{
    if s.len() > 0 {
        assert(is_digit(s[s.len() - 1]));
        assert(all_digits(s.drop_last())) by {
            assert forall|i: int| 0 <= i < s.drop_last().len() implies #[trigger] is_digit(
                s.drop_last()[i],
            ) by {
                assert(is_digit(s[i]));
            }
        }
        lemma_decimal_nonneg(s.drop_last());
    }
}

proof fn lemma_decimal_prefix_le(s: Seq<char>, i: int)
    requires
        all_digits(s),
        0 <= i <= s.len(),
    ensures
        decimal_value(s.take(i)) <= decimal_value(s),
    decreases s.len() - i,
{
    if i < s.len() {
        lemma_decimal_prefix_le(s, i + 1);
        assert(s.take(i + 1).drop_last() =~= s.take(i));
        assert(is_digit(s[i]));
        assert(all_digits(s.take(i))) by {
            assert forall|j: int| 0 <= j < s.take(i).len() implies #[trigger] is_digit(
                s.take(i)[j],
            ) by {
                assert(is_digit(s[j]));
            }
        }
        lemma_decimal_nonneg(s.take(i));
    } else {
        assert(s.take(i) =~= s);
    }
}

/// Parses an optionally signed decimal `i64`, as `str::parse::<i64>` does.
pub(crate) fn parse_i64(s: &[char]) -> (r: Option<i64>)
    ensures
        match i64_text_value(s@) {
            Some(v) => r == Some(v as i64),
            None => r is None,
        },
{
    let n = s.len();
    if n == 0 {
        return None;
    }
    let signed = s[0] == '+' || s[0] == '-';
    let negative = s[0] == '-';
    let start: usize = if signed {
        1
    } else {
        0
    };
    let ghost digits = if signed {
        s@.drop_first()
    } else {
        s@
    };
    assert(digits =~= s@.subrange(start as int, n as int));
    if start == n {
        return None;
    }
    // every remaining character is a digit
    let mut k: usize = start;
    while k < n
        invariant
            start <= k <= n,
            n == s.len(),
            digits =~= s@.subrange(start as int, n as int),
            n > 0,
            signed == (s@[0] == '+' || s@[0] == '-'),
            digits == (if signed {
                s@.drop_first()
            } else {
                s@
            }),
            forall|j: int| 0 <= j < k - start ==> #[trigger] is_digit(digits[j]),
        decreases n - k,
    {
        if !('0' <= s[k] && s[k] <= '9') {
            assert(!is_digit(digits[k - start]));
            assert(!all_digits(digits));
            assert(i64_text_value(s@) is None);
            return None;
        }
        k = k + 1;
    }
    assert(all_digits(digits));
    // accumulate the magnitude, stopping once it cannot fit
    let limit: u128 = if negative {
        9223372036854775808u128
    } else {
        9223372036854775807u128
    };
    let mut acc: u128 = 0;
    let mut m: usize = start;
    while m < n
        invariant
            start <= m <= n,
            n == s.len(),
            digits =~= s@.subrange(start as int, n as int),
            n > 0,
            signed == (s@[0] == '+' || s@[0] == '-'),
            digits == (if signed {
                s@.drop_first()
            } else {
                s@
            }),
            all_digits(digits),
            acc <= limit,
            limit <= 9223372036854775808u128,
            limit >= 9223372036854775807u128,
            negative ==> limit == 9223372036854775808u128,
            !negative ==> limit == 9223372036854775807u128,
            negative == (s@[0] == '-'),
            acc == decimal_value(digits.take(m - start)),
        decreases n - m,
    {
        assert(is_digit(digits[m - start]));
        assert(digits[m - start] == s@[m as int]);
        let cu: u32 = s[m] as u32;
        assert(48 <= cu <= 57);
        let d: u128 = (cu - 48) as u128;
        assert(d <= 9);
        assert(digit_value(s@[m as int]) == d);
        assert(digits.take(m - start + 1).drop_last() =~= digits.take(m - start));
        assert(digits.take(m - start + 1).last() == s@[m as int]);
        if acc > (limit - d) / 10 {
            proof {
                assert(acc * 10 + d > limit) by (nonlinear_arith)
                    requires
                        acc > (limit - d) / 10,
                        d <= limit,
                ;
                lemma_decimal_prefix_le(digits, m - start + 1);
                assert(decimal_value(digits.take(m - start + 1)) == acc * 10 + d);
                assert(digits.take(digits.len() as int) =~= digits);
                assert(decimal_value(digits) > limit);
            }
            return None;
        }
        proof {
            assert(acc * 10 + d <= limit) by (nonlinear_arith)
                requires
                    acc <= (limit - d) / 10,
                    d <= limit,
            ;
        }
        acc = acc * 10 + d;
        m = m + 1;
    }
    assert(digits.take(digits.len() as int) =~= digits);
    if negative {
        if acc == 9223372036854775808u128 {
            Some(i64::MIN)
        } else {
            let v: i64 = acc as i64;
            Some(-v)
        }
    } else {
        Some(acc as i64)
    }
}

// ----- percent-encoded account -----

/// Characters that stand for themselves in an encoded account.
pub open spec fn is_unreserved(c: char) -> bool {
    ||| ('0' <= c && c <= '9')
    ||| ('a' <= c && c <= 'z')
    ||| ('A' <= c && c <= 'Z')
    ||| c == '-'
    ||| c == '_'
    ||| c == '.'
    ||| c == '!'
    ||| c == '~'
    ||| c == '*'
    ||| c == '\''
    ||| c == '('
    ||| c == ')'
}

/// The value of a hexadecimal digit byte.
pub open spec fn hex_byte_value(byte: u8) -> Option<u8> {
    if 0x30 <= byte && byte <= 0x39 {
        Some((byte - 0x30) as u8)
    } else if 0x61 <= byte && byte <= 0x66 {
        Some((byte - 0x61 + 10) as u8)
    } else if 0x41 <= byte && byte <= 0x46 {
        Some((byte - 0x41 + 10) as u8)
    } else {
        None
    }
}

/// The value of a hexadecimal digit character.
pub open spec fn hex_char_value(c: char) -> Option<u8> {
    if (c as u32) < 0x80 {
        hex_byte_value((c as u32) as u8)
    } else {
        None
    }
}

/// The bytes that a percent-encoded text stands for, if it is well formed.
pub open spec fn percent_decode(s: Seq<char>) -> Option<Seq<u8>>
    decreases s.len(),
{
    if s.len() == 0 {
        Some(Seq::<u8>::empty())
    } else if s[0] == '%' {
        if s.len() >= 3 && hex_char_value(s[1]) is Some && hex_char_value(s[2]) is Some {
            let byte = (hex_char_value(s[1])->0 * 16 + hex_char_value(s[2])->0) as u8;
            match percent_decode(s.subrange(3, s.len() as int)) {
                Some(rest) => Some(seq![byte] + rest),
                None => None,
            }
        } else {
            None
        }
    } else if is_unreserved(s[0]) {
        match percent_decode(s.drop_first()) {
            Some(rest) => Some(seq![(s[0] as u32) as u8] + rest),
            None => None,
        }
    } else {
        None
    }
}

/// An encoded account that decodes to UTF-8 text usable as an account id.
pub open spec fn encoded_account_ok(s: Seq<char>) -> bool {
    match percent_decode(s) {
        Some(bytes) => valid_utf8(bytes) && selector_ok(decode_utf8(bytes)),
        None => false,
    }
}

/// The value of an ASCII hexadecimal digit.
pub fn hex_value(byte: u8) -> (r: Option<u8>)
    ensures
        r == hex_byte_value(byte),
{
    if 0x30 <= byte && byte <= 0x39 {
        Some(byte - 0x30)
    } else if 0x61 <= byte && byte <= 0x66 {
        Some(byte - 0x61 + 10)
    } else if 0x41 <= byte && byte <= 0x46 {
        Some(byte - 0x41 + 10)
    } else {
        None
    }
}

fn hex_char(c: char) -> (r: Option<u8>)
    ensures
        r == hex_char_value(c),
{
    let v = c as u32;
    if v < 0x80 {
        hex_value(v as u8)
    } else {
        None
    }
}

proof fn lemma_prepend_some(out: Seq<u8>, b: u8, rest: Option<Seq<u8>>)
    ensures
        match rest {
            Some(r) => Some(out.push(b) + r),
            None => None::<Seq<u8>>,
        } == match (match rest {
            Some(r) => Some(seq![b] + r),
            None => None::<Seq<u8>>,
        }) {
            Some(r) => Some(out + r),
            None => None::<Seq<u8>>,
        },
{
    if let Some(r) = rest {
        assert(out.push(b) + r =~= out + (seq![b] + r));
    }
}

/// Decodes a percent-encoded text into bytes.
fn percent_decode_chars(s: &[char]) -> (r: Option<Vec<u8>>)
    ensures
        match percent_decode(s@) {
            Some(bytes) => r matches Some(v) && v@ == bytes,
            None => r is None,
        },
{
    let n = s.len();
    let mut out: Vec<u8> = Vec::new();
    let mut i: usize = 0;
    assert(s@.skip(0) =~= s@);
    while i < n
        invariant
            i <= n,
            n == s.len(),
            percent_decode(s@) == match percent_decode(s@.skip(i as int)) {
                Some(rest) => Some(out@ + rest),
                None => None::<Seq<u8>>,
            },
        decreases n - i,
    {
        let ghost tail = s@.skip(i as int);
        let c = s[i];
        if c == '%' {
            if n - i > 2 {
                let high = hex_char(s[i + 1]);
                let low = hex_char(s[i + 2]);
                match (high, low) {
                    (Some(h), Some(l)) => {
                        let b: u8 = h * 16 + l;
                        assert(tail.subrange(3, tail.len() as int) =~= s@.skip(i + 3));
                        proof {
                            lemma_prepend_some(out@, b, percent_decode(s@.skip(i + 3)));
                        }
                        out.push(b);
                        i = i + 3;
                    },
                    _ => {
                        return None;
                    },
                }
            } else {
                return None;
            }
        } else if is_unreserved_char(c) {
            let b: u8 = (c as u32) as u8;
            assert(tail.drop_first() =~= s@.skip(i + 1));
            proof {
                lemma_prepend_some(out@, b, percent_decode(s@.skip(i + 1)));
            }
            out.push(b);
            i = i + 1;
        } else {
            return None;
        }
    }
    assert(s@.skip(n as int) =~= Seq::<char>::empty());
    assert(out@ + Seq::<u8>::empty() =~= out@);
    Some(out)
}

fn is_unreserved_char(c: char) -> (r: bool)
    ensures
        r == is_unreserved(c),
{
    ('0' <= c && c <= '9') || ('a' <= c && c <= 'z') || ('A' <= c && c <= 'Z') || c == '-' || c
        == '_' || c == '.' || c == '!' || c == '~' || c == '*' || c == '\'' || c == '(' || c
        == ')'
}

/// Decodes UTF-8 text, as `std::str::from_utf8` does.
///
/// Trusted: `from_utf8` returns `Ok` exactly for valid UTF-8, and the text it
/// returns consists of the scalar values those bytes encode.
#[verifier::external_body]
fn utf8_text(bytes: &[u8]) -> (r: Option<String>)
    ensures
        r is Some <==> valid_utf8(bytes@),
        r matches Some(text) ==> text@ == decode_utf8(bytes@),
{
    match std::str::from_utf8(bytes) {
        Ok(text) => Some(text.to_owned()),
        Err(_) => None,
    }
}

/// Whether `value` is a usable selector value.
pub fn selector_is_ok(value: &[char]) -> (r: bool)
    ensures
        r == selector_ok(value@),
{
    !blank(value) && value.len() <= MAX_SELECTOR_CHARS && !any_control(value)
}

/// Whether the last cursor field is a percent-encoded usable account id.
pub fn valid_encoded_account(value: &[char]) -> (r: bool)
    ensures
        r == encoded_account_ok(value@),
{
    let decoded = match percent_decode_chars(value) {
        Some(bytes) => bytes,
        None => {
            return false;
        },
    };
    let account = match utf8_text(decoded.as_slice()) {
        Some(text) => text,
        None => {
            return false;
        },
    };
    let chars = chars_of(account.as_str());
    selector_is_ok(chars.as_slice())
}

// ----- the whole cursor -----

/// A well-formed continuation cursor.
pub open spec fn cursor_ok(value: Seq<char>) -> bool {
    let fields = split_on(value, ':');
    &&& value.len() <= MAX_CURSOR_BYTES
    &&& !has_control(value)
    &&& fields.len() == 4
    &&& fields[0] == seq!['v', '1']
    &&& (fields[1] == seq!['n', 'o', 'n', 'e'] || i64_text_value(fields[1]) is Some)
    &&& (i64_text_value(fields[2]) matches Some(id) && id > 0)
    &&& encoded_account_ok(fields[3])
}

/// Whether `value` is a well-formed continuation cursor.
pub fn cursor_is_valid(value: &str) -> (r: bool)
    ensures
        r == cursor_ok(value@),
{
    let chars = chars_of(value);
    if chars.len() > MAX_CURSOR_BYTES {
        return false;
    }
    if any_control(chars.as_slice()) {
        return false;
    }
    let fields = split_chars(chars.as_slice(), ':');
    let ghost views = fields@.map_values(|f: Vec<char>| f@);
    if fields.len() != 4 {
        return false;
    }
    assert(views[0] == fields@[0]@ && views[1] == fields@[1]@);
    assert(views[2] == fields@[2]@ && views[3] == fields@[3]@);
    let version = &fields[0];
    let version_ok = version.len() == 2 && version[0] == 'v' && version[1] == '1';
    if !version_ok {
        assert(views[0] != seq!['v', '1']) by {
            if version.len() == 2 {
                assert(views[0][0] == version@[0]);
                assert(views[0][1] == version@[1]);
            }
        }
        return false;
    }
    assert(views[0] =~= seq!['v', '1']);
    let received = &fields[1];
    let received_none = received.len() == 4 && received[0] == 'n' && received[1] == 'o'
        && received[2] == 'n' && received[3] == 'e';
    assert(received_none == (views[1] =~= seq!['n', 'o', 'n', 'e']));
    if !received_none && parse_i64(received.as_slice()).is_none() {
        return false;
    }
    match parse_i64(fields[2].as_slice()) {
        Some(id) => {
            if id <= 0 {
                return false;
            }
        },
        None => {
            return false;
        },
    }
    let ok = valid_encoded_account(fields[3].as_slice());
    assert(chars@ == value@);
    assert(views == split_on(value@, ':'));
    assert(!has_control(value@));
    assert(ok == encoded_account_ok(views[3]));
    ok
}

} // verus!
