//! How Mail's continuation cursors are written, and what validation owes them.
use vstd::prelude::*;
use vstd::utf8::*;

use crate::cursor::{
    all_digits, cursor_ok, decimal_value, digit_value, encoded_account_ok, hex_byte_value,
    hex_char_value, i64_text_value, is_digit, is_unreserved, percent_decode, selector_ok,
    split_on, MAX_CURSOR_BYTES, MAX_SELECTOR_CHARS,
};
use crate::text::{has_control, is_control_char};

verus! {

broadcast use {encode_utf8_valid_utf8, encode_utf8_decode_utf8};

/// The character of a decimal digit.
pub open spec fn digit_char(d: int) -> char {
    (d + 48) as char
}

/// The decimal digits of a natural number, without leading zeros.
pub open spec fn digits_text(n: nat) -> Seq<char>
    decreases n,
{
    if n < 10 {
        seq![digit_char(n as int)]
    } else {
        digits_text(n / 10).push(digit_char((n % 10) as int))
    }
}

/// The decimal text of an integer, with a `-` for negative numbers.
pub open spec fn decimal_text(n: int) -> Seq<char> {
    if n < 0 {
        seq!['-'] + digits_text((-n) as nat)
    } else {
        digits_text(n as nat)
    }
}

/// An upper-case hexadecimal digit.
pub open spec fn hex_upper_char(v: int) -> char {
    if v < 10 {
        (v + 48) as char
    } else {
        (v + 55) as char
    }
}

/// Every byte written as `%` and two upper-case hexadecimal digits.
pub open spec fn percent_encode(bytes: Seq<u8>) -> Seq<char>
    decreases bytes.len(),
{
    if bytes.len() == 0 {
        Seq::empty()
    } else {
        seq!['%', hex_upper_char((bytes[0] / 16) as int), hex_upper_char((bytes[0] % 16) as int)]
            + percent_encode(bytes.drop_first())
    }
}

/// The cursor written for a received time (milliseconds, or none), a
/// message id and an account: `v1:<received|none>:<id>:<escaped account>`,
/// every UTF-8 byte of the account escaped.
pub open spec fn cursor_text(received: Option<i64>, id: i64, account: Seq<char>) -> Seq<char> {
    seq!['v', '1', ':'] + match received {
        Some(ms) => decimal_text(ms as int),
        None => seq!['n', 'o', 'n', 'e'],
    } + seq![':'] + decimal_text(id as int) + seq![':'] + percent_encode(encode_utf8(account))
}

/// The characters a written cursor field is made of.
pub open spec fn field_char(c: char) -> bool {
    ||| ('0' <= c && c <= '9')
    ||| ('A' <= c && c <= 'F')
    ||| c == '%'
    ||| c == '-'
    ||| c == 'v'
    ||| c == 'n'
    ||| c == 'o'
    ||| c == 'e'
}

pub open spec fn all_field_chars(s: Seq<char>) -> bool {
    forall|i: int| 0 <= i < s.len() ==> #[trigger] field_char(s[i])
}

proof fn lemma_field_chars_concat(a: Seq<char>, b: Seq<char>)
    requires
        all_field_chars(a),
        all_field_chars(b),
    ensures
        all_field_chars(a + b),
{
    assert forall|i: int| 0 <= i < (a + b).len() implies #[trigger] field_char((a + b)[i]) by {
        if i < a.len() {
            assert((a + b)[i] == a[i]);
        } else {
            assert((a + b)[i] == b[i - a.len()]);
        }
    }
}

// ----- decimal numbers -----

pub open spec fn pow10(k: nat) -> int
    decreases k,
{
    if k == 0 {
        1
    } else {
        10 * pow10((k - 1) as nat)
    }
}

proof fn lemma_digits_facts(n: nat)
    ensures
        digits_text(n).len() >= 1,
        all_digits(digits_text(n)),
        all_field_chars(digits_text(n)),
        decimal_value(digits_text(n)) == n,
    decreases n,
{
    if n >= 10 {
        lemma_digits_facts(n / 10);
        let d = digits_text(n);
        let prev = digits_text(n / 10);
        assert(d.drop_last() =~= prev);
        assert(d.last() == digit_char((n % 10) as int));
        assert(all_digits(d)) by {
            assert forall|i: int| 0 <= i < d.len() implies #[trigger] is_digit(d[i]) by {
                if i < prev.len() {
                    assert(d[i] == prev[i]);
                    assert(is_digit(prev[i]));
                }
            }
        }
        assert(all_field_chars(d)) by {
            assert forall|i: int| 0 <= i < d.len() implies #[trigger] field_char(d[i]) by {
                if i < prev.len() {
                    assert(d[i] == prev[i]);
                    assert(field_char(prev[i]));
                }
            }
        }
        assert(digit_value(digit_char((n % 10) as int)) == n % 10);
        assert(decimal_value(d) == decimal_value(prev) * 10 + digit_value(d.last()));
        assert((n / 10) * 10 + n % 10 == n);
    } else {
        let d = digits_text(n);
        assert(d.drop_last() =~= Seq::<char>::empty());
        assert(d.last() == digit_char(n as int));
        assert(digit_value(digit_char(n as int)) == n);
        assert(decimal_value(d) == decimal_value(d.drop_last()) * 10 + digit_value(d.last()));
        assert(is_digit(d[0]));
        assert(field_char(d[0]));
    }
}

proof fn lemma_digits_length(n: nat, k: nat)
    requires
        k >= 1,
        n < pow10(k),
    ensures
        digits_text(n).len() <= k,
    decreases n,
{
    if n >= 10 {
        assert(k >= 2) by {
            if k == 1 {
                assert(pow10(1) == 10 * pow10(0));
            }
        }
        assert(pow10(k) == 10 * pow10((k - 1) as nat));
        assert(n / 10 < pow10((k - 1) as nat));
        lemma_digits_length(n / 10, (k - 1) as nat);
    }
}

proof fn lemma_decimal_text(n: int)
    requires
        i64::MIN <= n <= i64::MAX,
    ensures
        i64_text_value(decimal_text(n)) == Some(n),
        decimal_text(n).len() <= 20,
        n >= 0 ==> decimal_text(n).len() <= 19,
        all_field_chars(decimal_text(n)),
{
    reveal_with_fuel(pow10, 20);
    assert(pow10(19) == 10000000000000000000);
    if n < 0 {
        let m = (-n) as nat;
        lemma_digits_facts(m);
        lemma_digits_length(m, 19);
        let t = decimal_text(n);
        assert(t.drop_first() =~= digits_text(m));
        assert(t[0] == '-');
        assert(field_char('-'));
        lemma_field_chars_concat(seq!['-'], digits_text(m));
    } else {
        let m = n as nat;
        lemma_digits_facts(m);
        lemma_digits_length(m, 19);
        let t = decimal_text(n);
        assert(is_digit(t[0]));
    }
}

// ----- percent encoding -----

proof fn lemma_hex_digit(v: int)
    requires
        0 <= v < 16,
    ensures
        hex_char_value(hex_upper_char(v)) == Some(v as u8),
        field_char(hex_upper_char(v)),
{
    let c = hex_upper_char(v);
    assert((c as u32) < 0x80);
    assert(hex_byte_value((c as u32) as u8) == Some(v as u8));
}

proof fn lemma_percent_encode(bytes: Seq<u8>)
    ensures
        percent_decode(percent_encode(bytes)) == Some(bytes),
        percent_encode(bytes).len() == 3 * bytes.len(),
        all_field_chars(percent_encode(bytes)),
    decreases bytes.len(),
{
    if bytes.len() > 0 {
        let b = bytes[0];
        let rest = bytes.drop_first();
        lemma_percent_encode(rest);
        lemma_hex_digit((b / 16) as int);
        lemma_hex_digit((b % 16) as int);
        let s = percent_encode(bytes);
        let head = seq!['%', hex_upper_char((b / 16) as int), hex_upper_char((b % 16) as int)];
        assert(s == head + percent_encode(rest));
        assert(s.subrange(3, s.len() as int) =~= percent_encode(rest));
        assert(s[0] == '%');
        assert(s[1] == hex_upper_char((b / 16) as int));
        assert(s[2] == hex_upper_char((b % 16) as int));
        assert(((b / 16) as u8 * 16 + (b % 16) as u8) as u8 == b);
        assert(seq![b] + rest =~= bytes);
        assert(all_field_chars(head)) by {
            assert(field_char('%'));
        }
        lemma_field_chars_concat(head, percent_encode(rest));
    }
}

proof fn lemma_encode_utf8_length(chars: Seq<char>)
    ensures
        encode_utf8(chars).len() <= 4 * chars.len(),
    decreases chars.len(),
{
    if chars.len() > 0 {
        lemma_encode_utf8_length(chars.drop_first());
        assert(encode_scalar(chars[0] as u32).len() <= 4);
    }
}

// ----- splitting the written cursor -----

proof fn lemma_split_without_separator(s: Seq<char>, sep: char)
    requires
        forall|i: int| 0 <= i < s.len() ==> s[i] != sep,
    ensures
        split_on(s, sep) == seq![s],
    decreases s.len(),
{
    if s.len() > 0 {
        assert forall|i: int| 0 <= i < s.drop_last().len() implies s.drop_last()[i] != sep by {
            assert(s.drop_last()[i] == s[i]);
        }
        lemma_split_without_separator(s.drop_last(), sep);
        assert(s.last() != sep);
        let rest = split_on(s.drop_last(), sep);
        assert(rest == seq![s.drop_last()]);
        assert(rest.last() == s.drop_last());
        assert(s.drop_last().push(s.last()) =~= s);
        assert(split_on(s, sep) == rest.update(0, s.drop_last().push(s.last())));
        assert(rest.update(0, s) =~= seq![s]);
    } else {
        assert(s =~= Seq::<char>::empty());
    }
}

proof fn lemma_split_append(p: Seq<char>, t: Seq<char>, sep: char)
    requires
        forall|i: int| 0 <= i < t.len() ==> t[i] != sep,
    ensures
        split_on(p + t, sep).len() == split_on(p, sep).len(),
        split_on(p + t, sep) == split_on(p, sep).update(
            split_on(p, sep).len() - 1,
            split_on(p, sep).last() + t,
        ),
    decreases t.len(),
{
    crate::cursor::lemma_split_on_nonempty(p, sep);
    if t.len() == 0 {
        assert(p + t =~= p);
        assert(split_on(p, sep).last() + t =~= split_on(p, sep).last());
        assert(split_on(p, sep).update(split_on(p, sep).len() - 1, split_on(p, sep).last())
            =~= split_on(p, sep));
    } else {
        let t0 = t.drop_last();
        lemma_split_append(p, t0, sep);
        assert((p + t).drop_last() =~= p + t0);
        assert((p + t).last() == t.last());
        assert forall|i: int| 0 <= i < t0.len() implies t0[i] != sep by {
            assert(t0[i] == t[i]);
        }
        let fs = split_on(p, sep);
        let mid = split_on(p + t0, sep);
        assert(mid == fs.update(fs.len() - 1, fs.last() + t0));
        assert(mid.len() == fs.len());
        assert(mid.last() == fs.last() + t0);
        assert(t.last() != sep);
        assert(split_on(p + t, sep) == mid.update(mid.len() - 1, mid.last().push(t.last())));
        assert((fs.last() + t0).push(t.last()) =~= fs.last() + t);
        assert(mid.update(mid.len() - 1, (fs.last() + t0).push(t.last())) =~= fs.update(
            fs.len() - 1,
            fs.last() + t,
        ));
    }
}

proof fn lemma_split_field(p: Seq<char>, t: Seq<char>, sep: char)
    requires
        forall|i: int| 0 <= i < t.len() ==> t[i] != sep,
    ensures
        split_on(p + seq![sep] + t, sep) == split_on(p, sep).push(t),
{
    assert((p + seq![sep]).drop_last() =~= p);
    assert(split_on(p + seq![sep], sep) == split_on(p, sep).push(Seq::empty()));
    lemma_split_append(p + seq![sep], t, sep);
    assert(Seq::<char>::empty() + t =~= t);
    assert(split_on(p, sep).push(Seq::empty()).update(split_on(p, sep).len() as int, t)
        =~= split_on(p, sep).push(t));
}

proof fn lemma_no_colon(s: Seq<char>)
    requires
        all_field_chars(s),
    ensures
        forall|i: int| 0 <= i < s.len() ==> s[i] != ':',
{
    assert forall|i: int| 0 <= i < s.len() implies s[i] != ':' by {
        assert(field_char(s[i]));
    }
}

/// Every cursor written for a positive message id and a usable account id is
/// accepted by cursor validation: the percent-escaped account of at most 256
/// characters always fits the cursor bound.
pub proof fn written_cursor_is_accepted(received: Option<i64>, id: i64, account: Seq<char>)
    requires
        id > 0,
        selector_ok(account),
    ensures
        cursor_ok(cursor_text(received, id, account)),
{
    let version = seq!['v', '1'];
    let stamp = match received {
        Some(ms) => decimal_text(ms as int),
        None => seq!['n', 'o', 'n', 'e'],
    };
    let number = decimal_text(id as int);
    let bytes = encode_utf8(account);
    let escaped = percent_encode(bytes);
    // the pieces
    match received {
        Some(ms) => lemma_decimal_text(ms as int),
        None => {
            assert(all_field_chars(stamp)) by {
                assert forall|i: int| 0 <= i < stamp.len() implies #[trigger] field_char(
                    stamp[i],
                ) by {}
            }
        },
    }
    lemma_decimal_text(id as int);
    lemma_percent_encode(bytes);
    lemma_encode_utf8_length(account);
    assert(all_field_chars(version)) by {
        assert forall|i: int| 0 <= i < version.len() implies #[trigger] field_char(version[i]) by {}
    }
    lemma_no_colon(version);
    lemma_no_colon(stamp);
    lemma_no_colon(number);
    lemma_no_colon(escaped);
    // the text is the fields joined by ':'
    let text = cursor_text(received, id, account);
    let p1 = version + seq![':'] + stamp;
    let p2 = p1 + seq![':'] + number;
    assert(text =~= p2 + seq![':'] + escaped);
    lemma_split_without_separator(version, ':');
    lemma_split_field(version, stamp, ':');
    lemma_split_field(p1, number, ':');
    lemma_split_field(p2, escaped, ':');
    let fields = split_on(text, ':');
    assert(fields =~= seq![version, stamp, number, escaped]);
    // length
    assert(text.len() == 3 + stamp.len() + 1 + number.len() + 1 + escaped.len());
    assert(escaped.len() <= 3 * 4 * MAX_SELECTOR_CHARS);
    assert(text.len() <= MAX_CURSOR_BYTES);
    // no control character
    let colon = seq![':'];
    assert forall|i: int| 0 <= i < text.len() implies !#[trigger] is_control_char(text[i]) by {
        if i < 2 {
            assert(text[i] == version[i]);
        } else if i == 2 {
        } else if i < 3 + stamp.len() {
            assert(text[i] == stamp[i - 3]);
            assert(field_char(stamp[i - 3]));
        } else if i == 3 + stamp.len() {
        } else if i < 4 + stamp.len() + number.len() {
            assert(text[i] == number[i - 4 - stamp.len()]);
            assert(field_char(number[i - 4 - stamp.len()]));
        } else if i == 4 + stamp.len() + number.len() {
        } else {
            assert(text[i] == escaped[i - 5 - stamp.len() - number.len()]);
            assert(field_char(escaped[i - 5 - stamp.len() - number.len()]));
        }
    }
    assert(!has_control(text));
    // the fields
    assert(encoded_account_ok(escaped));
}


// ----- every escaping of an account -----

/// `c` is a hexadecimal digit of value `v`, in either case.
pub open spec fn is_hex_digit_for(c: char, v: int) -> bool {
    ||| (0 <= v < 10 && c as int == v + 48)
    ||| (10 <= v < 16 && (c as int == v + 55 || c as int == v + 87))
}

/// `e` writes the bytes `bytes` in order, each one either as `%` and two
/// hexadecimal digits of either case, or, when it is an unreserved ASCII
/// character, as that character itself.
pub open spec fn escapes(e: Seq<char>, bytes: Seq<u8>) -> bool
    decreases bytes.len(),
{
    if bytes.len() == 0 {
        e.len() == 0
    } else {
        let b = bytes[0];
        ||| (e.len() >= 3 && e[0] == '%' && is_hex_digit_for(e[1], (b / 16) as int) && is_hex_digit_for(
            e[2],
            (b % 16) as int,
        ) && escapes(e.subrange(3, e.len() as int), bytes.drop_first()))
        ||| (e.len() >= 1 && is_unreserved(e[0]) && e[0] as int == b as int && escapes(
            e.drop_first(),
            bytes.drop_first(),
        ))
    }
}

proof fn lemma_hex_digit_for(c: char, v: int)
    requires
        0 <= v < 16,
    ensures
        is_hex_digit_for(c, v) ==> hex_char_value(c) == Some(v as u8),
        hex_char_value(c) == Some(v as u8) ==> is_hex_digit_for(c, v),
{
}

proof fn lemma_hex_value_below_16(c: char)
    ensures
        hex_char_value(c) matches Some(v) ==> v < 16,
{
}

proof fn lemma_unreserved_ascii(c: char)
    requires
        is_unreserved(c),
    ensures
        (c as u32) < 0x80,
        c != '%',
{
}

/// An escaping decodes to the bytes it escapes.
proof fn lemma_escapes_decode(e: Seq<char>, bytes: Seq<u8>)
    requires
        escapes(e, bytes),
    ensures
        percent_decode(e) == Some(bytes),
    decreases bytes.len(),
{
    if bytes.len() > 0 {
        let b = bytes[0];
        let rest = bytes.drop_first();
        if e.len() >= 3 && e[0] == '%' && is_hex_digit_for(e[1], (b / 16) as int) && is_hex_digit_for(
            e[2],
            (b % 16) as int,
        ) && escapes(e.subrange(3, e.len() as int), rest) {
            lemma_hex_digit_for(e[1], (b / 16) as int);
            lemma_hex_digit_for(e[2], (b % 16) as int);
            lemma_escapes_decode(e.subrange(3, e.len() as int), rest);
            assert(((b / 16) as u8 * 16 + (b % 16) as u8) as u8 == b);
        } else {
            lemma_unreserved_ascii(e[0]);
            lemma_escapes_decode(e.drop_first(), rest);
            assert((e[0] as u32) as u8 == b);
        }
        assert(seq![b] + rest =~= bytes);
    }
}

/// Whatever decodes is an escaping of what it decodes to.
proof fn lemma_decode_escapes(e: Seq<char>)
    requires
        percent_decode(e) is Some,
    ensures
        escapes(e, percent_decode(e)->0),
    decreases e.len(),
{
    let bytes = percent_decode(e)->0;
    if e.len() > 0 {
        if e[0] == '%' {
            let h = hex_char_value(e[1])->0;
            let l = hex_char_value(e[2])->0;
            lemma_hex_value_below_16(e[1]);
            lemma_hex_value_below_16(e[2]);
            let b = (h * 16 + l) as u8;
            assert(b as int == h * 16 + l);
            assert(b / 16 == h && b % 16 == l);
            let tail = e.subrange(3, e.len() as int);
            lemma_decode_escapes(tail);
            lemma_hex_digit_for(e[1], h as int);
            lemma_hex_digit_for(e[2], l as int);
            assert(bytes[0] == b);
            assert(bytes.drop_first() =~= percent_decode(tail)->0);
        } else {
            lemma_unreserved_ascii(e[0]);
            lemma_decode_escapes(e.drop_first());
            assert(bytes[0] as int == e[0] as int);
            assert(bytes.drop_first() =~= percent_decode(e.drop_first())->0);
        }
    }
}

/// A usable account id written with any mix of upper- and lower-case escapes
/// and unescaped unreserved characters is accepted as the account field of a
/// cursor, and percent-decoding it gives the account back.
pub proof fn any_escaping_of_usable_account_is_accepted(account: Seq<char>, e: Seq<char>)
    requires
        selector_ok(account),
        escapes(e, encode_utf8(account)),
    ensures
        encoded_account_ok(e),
        percent_decode(e) matches Some(bytes) && decode_utf8(bytes) == account,
{
    lemma_escapes_decode(e, encode_utf8(account));
}

/// An account field is accepted only when it is such an escaping of a usable
/// account id: a `%` not followed by two hexadecimal digits, or any other
/// character outside the unreserved set, makes it refused.
pub proof fn accepted_account_is_an_escaping(e: Seq<char>)
    requires
        encoded_account_ok(e),
    ensures
        exists|account: Seq<char>| selector_ok(account) && escapes(e, encode_utf8(account)),
{
    let bytes = percent_decode(e)->0;
    lemma_decode_escapes(e);
    decode_utf8_encode_utf8(bytes);
    let account = decode_utf8(bytes);
    assert(selector_ok(account) && escapes(e, encode_utf8(account)));
}


// ----- accepted cursors are ASCII -----

proof fn lemma_ascii_char(c: char)
    requires
        (c as u32) < 0x80,
    ensures
        '\0' <= c <= '\u{7f}',
{
}

proof fn lemma_char_at_least_nul(c: char)
    ensures
        '\0' <= c,
{
}

pub open spec fn all_ascii(s: Seq<char>) -> bool {
    forall|i: int| 0 <= i < s.len() ==> #[trigger] s[i] <= '\u{7f}'
}

proof fn lemma_fields_ascii(s: Seq<char>, sep: char)
    requires
        sep <= '\u{7f}',
        forall|f: int| 0 <= f < split_on(s, sep).len() ==> all_ascii(#[trigger] split_on(s, sep)[f]),
    ensures
        all_ascii(s),
    decreases s.len(),
{
    if s.len() > 0 {
        let dl = s.drop_last();
        let rest = split_on(dl, sep);
        crate::cursor::lemma_split_on_nonempty(dl, sep);
        let fs = split_on(s, sep);
        if s.last() == sep {
            assert(fs == rest.push(Seq::<char>::empty()));
            assert forall|f: int| 0 <= f < rest.len() implies all_ascii(#[trigger] rest[f]) by {
                assert(fs[f] == rest[f]);
            }
        } else {
            let lastf = rest.last().push(s.last());
            assert(fs == rest.update(rest.len() - 1, lastf));
            assert(all_ascii(fs[rest.len() - 1]));
            assert forall|f: int| 0 <= f < rest.len() implies all_ascii(#[trigger] rest[f]) by {
                if f == rest.len() - 1 {
                    assert forall|i: int| 0 <= i < rest[f].len() implies #[trigger] rest[f][i] <= '\u{7f}' by {
                        assert(lastf[i] == rest[f][i]);
                    }
                } else {
                    assert(fs[f] == rest[f]);
                }
            }
            assert(lastf[lastf.len() - 1] == s.last());
        }
        lemma_fields_ascii(dl, sep);
        assert forall|i: int| 0 <= i < s.len() implies #[trigger] s[i] <= '\u{7f}' by {
            if i < dl.len() {
                assert(s[i] == dl[i]);
            }
        }
    }
}

proof fn lemma_number_text_ascii(t: Seq<char>)
    requires
        i64_text_value(t) is Some,
    ensures
        all_ascii(t),
{
    let signed = t.len() > 0 && (t[0] == '+' || t[0] == '-');
    let digits = if signed {
        t.drop_first()
    } else {
        t
    };
    assert forall|i: int| 0 <= i < t.len() implies #[trigger] t[i] <= '\u{7f}' by {
        if signed && i == 0 {
        } else if signed {
            assert(t[i] == digits[i - 1]);
            assert(is_digit(digits[i - 1]));
        } else {
            assert(is_digit(digits[i]));
        }
    }
}

proof fn lemma_percent_text_ascii(t: Seq<char>)
    requires
        percent_decode(t) is Some,
    ensures
        all_ascii(t),
    decreases t.len(),
{
    if t.len() > 0 {
        if t[0] == '%' {
            let rest = t.subrange(3, t.len() as int);
            lemma_percent_text_ascii(rest);
            assert forall|i: int| 0 <= i < t.len() implies #[trigger] t[i] <= '\u{7f}' by {
                if i >= 3 {
                    assert(t[i] == rest[i - 3]);
                } else if i > 0 {
                    assert(hex_char_value(t[i]) is Some);
                    lemma_ascii_char(t[i]);
                }
            }
        } else {
            let rest = t.drop_first();
            lemma_percent_text_ascii(rest);
            assert(is_unreserved(t[0]));
            assert forall|i: int| 0 <= i < t.len() implies #[trigger] t[i] <= '\u{7f}' by {
                if i >= 1 {
                    assert(t[i] == rest[i - 1]);
                }
            }
        }
    }
}

/// An accepted cursor is ASCII, so its length in characters, which validation
/// bounds, is also its length in bytes.
pub proof fn accepted_cursor_is_ascii(value: Seq<char>)
    requires
        cursor_ok(value),
    ensures
        is_ascii_chars(value),
        encode_utf8(value).len() == value.len(),
{
    let fields = split_on(value, ':');
    assert forall|f: int| 0 <= f < fields.len() implies all_ascii(#[trigger] fields[f]) by {
        if f == 0 {
            assert(fields[0] == seq!['v', '1']);
        } else if f == 1 {
            if fields[1] == seq!['n', 'o', 'n', 'e'] {
            } else {
                lemma_number_text_ascii(fields[1]);
            }
        } else if f == 2 {
            lemma_number_text_ascii(fields[2]);
        } else {
            lemma_percent_text_ascii(fields[3]);
        }
    }
    lemma_fields_ascii(value, ':');
    assert(is_ascii_chars(value)) by {
        assert forall|i: int| 0 <= i < value.len() implies '\0' <= #[trigger] value[i] <= '\u{7f}' by {
            assert(all_ascii(value));
            lemma_char_at_least_nul(value[i]);
        }
    }
    is_ascii_chars_encode_utf8(value);
}

} // verus!
