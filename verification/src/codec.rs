//! The marshalling service: primitive host values to text and back.
//!
//! Primitives travel between the runtimes as the textual value grammar
//! both sides share: `null` for nil (`false` reads back as nil too),
//! `true` for the canonical true value, decimal digits for integers, and
//! quoted text for strings, with the usual escape set — two-character
//! escapes and four-digit hexadecimal escapes — so that every control
//! character travels escaped. Opaque host objects have no encoding; they
//! cross the bridge only as proxy handles.

use vstd::prelude::*;
use vstd::string::*;

use crate::value::{HostValue, ValueModel};

verus! {

// ---------------------------------------------------------------------------
// Digits
// ---------------------------------------------------------------------------

/// The decimal digit character for `d`, for `d < 10`.
pub open spec fn digit_char(d: nat) -> char {
    if d == 0 {
        '0'
    } else if d == 1 {
        '1'
    } else if d == 2 {
        '2'
    } else if d == 3 {
        '3'
    } else if d == 4 {
        '4'
    } else if d == 5 {
        '5'
    } else if d == 6 {
        '6'
    } else if d == 7 {
        '7'
    } else if d == 8 {
        '8'
    } else {
        '9'
    }
}

pub open spec fn is_digit(c: char) -> bool {
    c == '0' || c == '1' || c == '2' || c == '3' || c == '4' || c == '5' || c == '6' || c == '7'
        || c == '8' || c == '9'
}

/// The value of a decimal digit character; zero on anything else.
pub open spec fn digit_val(c: char) -> nat {
    if c == '1' {
        1
    } else if c == '2' {
        2
    } else if c == '3' {
        3
    } else if c == '4' {
        4
    } else if c == '5' {
        5
    } else if c == '6' {
        6
    } else if c == '7' {
        7
    } else if c == '8' {
        8
    } else if c == '9' {
        9
    } else {
        0
    }
}

/// The decimal rendering of `n`, most significant digit first.
pub open spec fn dec_digits(n: nat) -> Seq<char>
    decreases n,
{
    if n < 10 {
        seq![digit_char(n)]
    } else {
        dec_digits(n / 10) + seq![digit_char(n % 10)]
    }
}

pub open spec fn all_digits(s: Seq<char>) -> bool {
    forall|i: int| 0 <= i < s.len() ==> is_digit(#[trigger] s[i])
}

/// The numeric value of a digit string, read most significant digit first.
pub open spec fn digits_val(s: Seq<char>) -> nat
    decreases s.len(),
{
    if s.len() == 0 {
        0
    } else {
        digits_val(s.drop_last()) * 10 + digit_val(s.last())
    }
}

/// A canonical digit string: nonempty, digits only, no leading zero.
pub open spec fn canon_digits(s: Seq<char>) -> bool {
    s.len() > 0 && all_digits(s) && (s[0] != '0' || s.len() == 1)
}

/// The texts that decode as integers: canonical digits, optionally behind a
/// minus sign; `-0` has no canonical form and is not one of them.
pub open spec fn int_text(s: Seq<char>) -> bool {
    if s.len() >= 1 && s[0] == '-' {
        canon_digits(s.skip(1)) && s.skip(1) != seq!['0']
    } else {
        canon_digits(s)
    }
}

/// The integer an `int_text` stands for.
pub open spec fn int_text_val(s: Seq<char>) -> int {
    if s.len() >= 1 && s[0] == '-' {
        -(digits_val(s.skip(1)) as int)
    } else {
        digits_val(s) as int
    }
}

// ---------------------------------------------------------------------------
// String escaping
// ---------------------------------------------------------------------------

/// The hexadecimal digit character for `d`, for `d < 16`, in lower case.
pub open spec fn hex_char(d: nat) -> char {
    if d < 10 {
        digit_char(d)
    } else if d == 10 {
        'a'
    } else if d == 11 {
        'b'
    } else if d == 12 {
        'c'
    } else if d == 13 {
        'd'
    } else if d == 14 {
        'e'
    } else {
        'f'
    }
}

pub open spec fn is_hex_digit(c: char) -> bool {
    is_digit(c) || c == 'a' || c == 'b' || c == 'c' || c == 'd' || c == 'e' || c == 'f' || c == 'A'
        || c == 'B' || c == 'C' || c == 'D' || c == 'E' || c == 'F'
}

/// The value of a hexadecimal digit character; zero on anything else.
pub open spec fn hex_val(c: char) -> nat {
    if c == 'a' || c == 'A' {
        10
    } else if c == 'b' || c == 'B' {
        11
    } else if c == 'c' || c == 'C' {
        12
    } else if c == 'd' || c == 'D' {
        13
    } else if c == 'e' || c == 'E' {
        14
    } else if c == 'f' || c == 'F' {
        15
    } else {
        digit_val(c)
    }
}

/// The value of a four-digit hexadecimal escape.
pub open spec fn hex4_val(a: char, b: char, c: char, d: char) -> nat {
    ((hex_val(a) * 16 + hex_val(b)) * 16 + hex_val(c)) * 16 + hex_val(d)
}

/// Whether a code point is a Unicode scalar value a character can hold.
pub open spec fn scalar_code(n: nat) -> bool {
    n < 0xD800 || (0xE000 <= n && n <= 0x10FFFF)
}

/// The character with the given code point.
pub open spec fn code_char(n: nat) -> char {
    (n as u32) as char
}

/// The letters that may follow a backslash as a two-character escape.
pub open spec fn short_escape(c: char) -> bool {
    c == '"' || c == '\\' || c == '/' || c == 'b' || c == 'f' || c == 'n' || c == 'r' || c == 't'
}

/// The character a two-character escape stands for.
pub open spec fn short_escape_char(c: char) -> char {
    if c == 'b' {
        '\u{8}'
    } else if c == 'f' {
        '\u{c}'
    } else if c == 'n' {
        '\n'
    } else if c == 'r' {
        '\r'
    } else if c == 't' {
        '\t'
    } else {
        c
    }
}

/// The encoding of one character inside a quoted string: quotes and
/// backslashes behind a backslash, the common control characters as their
/// two-character escapes, the remaining control characters as four-digit
/// hexadecimal escapes, and everything else as itself.
pub open spec fn esc1(c: char) -> Seq<char> {
    if c == '"' || c == '\\' {
        seq!['\\', c]
    } else if c == '\n' {
        seq!['\\', 'n']
    } else if c == '\r' {
        seq!['\\', 'r']
    } else if c == '\t' {
        seq!['\\', 't']
    } else if c == '\u{8}' {
        seq!['\\', 'b']
    } else if c == '\u{c}' {
        seq!['\\', 'f']
    } else if (c as u32) < 0x20 {
        seq!['\\', 'u', '0', '0', hex_char((c as u32) as nat / 16), hex_char((c as u32) as nat % 16)]
    } else {
        seq![c]
    }
}

/// The escaped form of a string body.
pub open spec fn esc_chars(s: Seq<char>) -> Seq<char>
    decreases s.len(),
{
    if s.len() == 0 {
        Seq::<char>::empty()
    } else {
        esc1(s[0]) + esc_chars(s.skip(1))
    }
}

/// A well-formed quoted-string body: every backslash starts a
/// two-character escape or a four-digit hexadecimal escape of a scalar
/// code point, and no quote or control character stands unescaped.
pub open spec fn valid_escaped(s: Seq<char>) -> bool
    decreases s.len(),
{
    if s.len() == 0 {
        true
    } else if s[0] == '\\' {
        if s.len() >= 2 && short_escape(s[1]) {
            valid_escaped(s.skip(2))
        } else if s.len() >= 6 && s[1] == 'u' && is_hex_digit(s[2]) && is_hex_digit(s[3])
            && is_hex_digit(s[4]) && is_hex_digit(s[5]) && scalar_code(
            hex4_val(s[2], s[3], s[4], s[5]),
        ) {
            valid_escaped(s.skip(6))
        } else {
            false
        }
    } else {
        s[0] != '"' && (s[0] as u32) >= 0x20 && valid_escaped(s.skip(1))
    }
}

/// The string body an escaped text stands for.
pub open spec fn unesc_chars(s: Seq<char>) -> Seq<char>
    decreases s.len(),
{
    if s.len() == 0 {
        Seq::<char>::empty()
    } else if s[0] == '\\' {
        if s.len() >= 2 && short_escape(s[1]) {
            seq![short_escape_char(s[1])] + unesc_chars(s.skip(2))
        } else if s.len() >= 6 && s[1] == 'u' {
            seq![code_char(hex4_val(s[2], s[3], s[4], s[5]))] + unesc_chars(s.skip(6))
        } else {
            Seq::<char>::empty()
        }
    } else {
        seq![s[0]] + unesc_chars(s.skip(1))
    }
}

// ---------------------------------------------------------------------------
// Encoding and decoding, as mathematics
// ---------------------------------------------------------------------------

pub open spec fn null_chars() -> Seq<char> {
    seq!['n', 'u', 'l', 'l']
}

pub open spec fn true_chars() -> Seq<char> {
    seq!['t', 'r', 'u', 'e']
}

pub open spec fn false_chars() -> Seq<char> {
    seq!['f', 'a', 'l', 's', 'e']
}

pub open spec fn int_chars(i: int) -> Seq<char> {
    if i < 0 {
        seq!['-'] + dec_digits((-i) as nat)
    } else {
        dec_digits(i as nat)
    }
}

pub open spec fn text_chars(t: Seq<char>) -> Seq<char> {
    seq!['"'] + esc_chars(t) + seq!['"']
}

/// What the marshalling service turns a value into: its text for a
/// primitive, nothing for an opaque object.
pub open spec fn encode_model(v: ValueModel) -> Option<Seq<char>> {
    match v {
        ValueModel::Nil => Some(null_chars()),
        ValueModel::True => Some(true_chars()),
        ValueModel::Int(i) => Some(int_chars(i)),
        ValueModel::Text(t) => Some(text_chars(t)),
        ValueModel::Obj(_) => None,
    }
}

/// What the marshalling service reads out of a text: the primitive it
/// encodes, or nothing where the text encodes none (including integers
/// beyond the host's range). The guest's false value reads back as the
/// host's nil, its false-equivalent.
pub open spec fn decode_model(s: Seq<char>) -> Option<ValueModel> {
    if s == null_chars() {
        Some(ValueModel::Nil)
    } else if s == true_chars() {
        Some(ValueModel::True)
    } else if s == false_chars() {
        Some(ValueModel::Nil)
    } else if s.len() >= 2 && s[0] == '"' && s.last() == '"' && valid_escaped(
        s.subrange(1, s.len() - 1),
    ) {
        Some(ValueModel::Text(unesc_chars(s.subrange(1, s.len() - 1))))
    } else if int_text(s) && i64::MIN <= int_text_val(s) <= i64::MAX {
        Some(ValueModel::Int(int_text_val(s)))
    } else {
        None
    }
}

/// The model of an optional encoded text.
pub open spec fn opt_text(r: Option<String>) -> Option<Seq<char>> {
    match r {
        Some(s) => Some(s@),
        None => None,
    }
}

/// The model of an optional decoded value.
pub open spec fn opt_model(r: Option<HostValue>) -> Option<ValueModel> {
    match r {
        Some(v) => Some(v@),
        None => None,
    }
}

// ---------------------------------------------------------------------------
// Facts about digit strings
// ---------------------------------------------------------------------------

/// The decimal rendering of `n` is a canonical digit string with value `n`,
/// and `0` is the only value rendered as `"0"`.
pub proof fn lemma_dec_digits(n: nat)
    ensures
        canon_digits(dec_digits(n)),
        digits_val(dec_digits(n)) == n,
        n > 0 ==> dec_digits(n)[0] != '0',
        dec_digits(n) == seq!['0'] <==> n == 0,
    decreases n,
{
    if n < 10 {
        assert(dec_digits(n) == seq![digit_char(n)]);
        assert(digits_val(seq![digit_char(n)]) == digit_val(digit_char(n))) by {
            assert(seq![digit_char(n)].drop_last() =~= Seq::<char>::empty());
            assert(digits_val(Seq::<char>::empty()) == 0);
            assert(seq![digit_char(n)].last() == digit_char(n));
        }
        if n > 0 {
            assert(dec_digits(n)[0] != '0');
        }
    } else {
        lemma_dec_digits(n / 10);
        let hi = dec_digits(n / 10);
        let d = digit_char(n % 10);
        assert(dec_digits(n) == hi + seq![d]);
        assert((hi + seq![d]).drop_last() =~= hi);
        assert((hi + seq![d]).last() == d);
        assert(digits_val(hi + seq![d]) == digits_val(hi) * 10 + digit_val(d));
        assert(n / 10 * 10 + n % 10 == n) by (nonlinear_arith);
        assert(digits_val(dec_digits(n)) == n);
        assert(n / 10 >= 1);
        assert(dec_digits(n)[0] == hi[0]);
        assert(dec_digits(n)[0] != '0');
        assert(dec_digits(n).len() >= 2);
    }
}

/// Reading one more digit multiplies the value by ten and adds the digit.
pub proof fn lemma_digits_val_push(s: Seq<char>, c: char)
    ensures
        digits_val(s.push(c)) == digits_val(s) * 10 + digit_val(c),
{
    assert(s.push(c).drop_last() =~= s);
    assert(s.push(c).last() == c);
}

/// A digit string is worth at least any of its prefixes.
pub proof fn lemma_digits_val_prefix_le(s: Seq<char>, k: int)
    requires
        0 <= k <= s.len(),
    ensures
        digits_val(s.take(k)) <= digits_val(s),
    decreases s.len(),
{
    if k == s.len() {
        assert(s.take(k) =~= s);
    } else {
        assert(s.drop_last().take(k) =~= s.take(k));
        lemma_digits_val_prefix_le(s.drop_last(), k);
        assert(digits_val(s) == digits_val(s.drop_last()) * 10 + digit_val(s.last()));
        assert(digits_val(s.drop_last()) * 10 >= digits_val(s.drop_last()));
    }
}

// ---------------------------------------------------------------------------
// Executable encoding
// ---------------------------------------------------------------------------

/// Relies on String::push: appends the given character to the end of the
/// string.
#[verifier::external_body]
pub(crate) fn push_char(s: &mut String, c: char)
    ensures
        final(s)@ == old(s)@.push(c),
{
    s.push(c);
}

/// The digit character for `d`.
fn digit_char_of(d: u64) -> (c: char)
    requires
        d < 10,
    ensures
        c == digit_char(d as nat),
{
    match d {
        0 => '0',
        1 => '1',
        2 => '2',
        3 => '3',
        4 => '4',
        5 => '5',
        6 => '6',
        7 => '7',
        8 => '8',
        _ => '9',
    }
}

/// Appends the decimal rendering of `n` to `out`.
pub(crate) fn push_dec(n: u64, out: &mut String)
    ensures
        final(out)@ == old(out)@ + dec_digits(n as nat),
    decreases n,
{
    if n >= 10 {
        assert(n as nat / 10 == (n / 10) as nat);
        push_dec(n / 10, out);
    }
    let c = digit_char_of(n % 10);
    push_char(out, c);
    proof {
        if n < 10 {
            assert(final(out)@ =~= old(out)@ + dec_digits(n as nat));
        } else {
            assert(dec_digits(n as nat) == dec_digits(n as nat / 10) + seq![
                digit_char(n as nat % 10),
            ]);
            assert(final(out)@ =~= old(out)@ + dec_digits(n as nat));
        }
    }
}

/// The hexadecimal digit character for `d`, in lower case.
fn hex_char_of(d: u32) -> (c: char)
    requires
        d < 16,
    ensures
        c == hex_char(d as nat),
{
    match d {
        0 => '0',
        1 => '1',
        2 => '2',
        3 => '3',
        4 => '4',
        5 => '5',
        6 => '6',
        7 => '7',
        8 => '8',
        9 => '9',
        10 => 'a',
        11 => 'b',
        12 => 'c',
        13 => 'd',
        14 => 'e',
        _ => 'f',
    }
}

/// Appends the escaped form of `t` to `out`.
fn push_escaped(t: &str, out: &mut String)
    ensures
        final(out)@ == old(out)@ + esc_chars(t@),
{
    let n = t.unicode_len();
    let mut i: usize = 0;
    while i < n
        invariant
            0 <= i <= n,
            n == t@.len(),
            out@ == old(out)@ + esc_chars(t@.take(i as int)),
        decreases n - i,
    {
        let c = t.get_char(i);
        let u = c as u32;
        if c == '"' || c == '\\' {
            push_char(out, '\\');
            push_char(out, c);
        } else if c == '\n' {
            push_char(out, '\\');
            push_char(out, 'n');
        } else if c == '\r' {
            push_char(out, '\\');
            push_char(out, 'r');
        } else if c == '\t' {
            push_char(out, '\\');
            push_char(out, 't');
        } else if u == 0x8 {
            push_char(out, '\\');
            push_char(out, 'b');
        } else if u == 0xC {
            push_char(out, '\\');
            push_char(out, 'f');
        } else if u < 0x20 {
            push_char(out, '\\');
            push_char(out, 'u');
            push_char(out, '0');
            push_char(out, '0');
            let hi = hex_char_of(u / 16);
            push_char(out, hi);
            let lo = hex_char_of(u % 16);
            push_char(out, lo);
        } else {
            push_char(out, c);
        }
        proof {
            lemma_esc_chars_push(t@.take(i as int), c);
            assert(t@.take(i as int).push(c) =~= t@.take(i as int + 1));
            assert(out@ =~= old(out)@ + esc_chars(t@.take(i as int + 1)));
        }
        i = i + 1;
    }
    proof {
        assert(t@.take(n as int) =~= t@);
    }
}

/// Escaping one more character appends that character's escape.
pub proof fn lemma_esc_chars_push(s: Seq<char>, c: char)
    ensures
        esc_chars(s.push(c)) == esc_chars(s) + esc1(c),
    decreases s.len(),
{
    if s.len() == 0 {
        assert(s.push(c) =~= seq![c]);
        assert(esc_chars(seq![c]) == esc1(c) + esc_chars(seq![c].skip(1)));
        assert(seq![c].skip(1) =~= Seq::<char>::empty());
        assert(esc_chars(s.push(c)) =~= esc_chars(s) + esc1(c));
    } else {
        assert(s.push(c)[0] == s[0]);
        assert(s.push(c).skip(1) =~= s.skip(1).push(c));
        lemma_esc_chars_push(s.skip(1), c);
        assert(esc_chars(s.push(c)) == esc1(s[0]) + (esc_chars(s.skip(1)) + esc1(c)));
        assert(esc_chars(s.push(c)) =~= esc_chars(s) + esc1(c));
    }
}

/// Encodes a primitive value as text; an opaque object has no encoding.
pub fn encode(v: &HostValue) -> (r: Option<String>)
    ensures
        opt_text(r) == encode_model(v@),
{
    match v {
        HostValue::Nil => {
            let s = String::from_str("null");
            proof {
                reveal_strlit("null");
                assert(s@ =~= null_chars());
            }
            Some(s)
        },
        HostValue::True => {
            let s = String::from_str("true");
            proof {
                reveal_strlit("true");
                assert(s@ =~= true_chars());
            }
            Some(s)
        },
        HostValue::Int(i) => {
            let mut out = String::new();
            if *i >= 0 {
                push_dec(*i as u64, &mut out);
                proof {
                    assert(out@ =~= int_chars(*i as int));
                }
            } else {
                push_char(&mut out, '-');
                let m: u64 = if *i == i64::MIN {
                    9223372036854775808u64
                } else {
                    (-(*i)) as u64
                };
                assert(m as nat == (-(*i as int)) as nat);
                push_dec(m, &mut out);
                proof {
                    assert(out@ =~= seq!['-'] + dec_digits((-(*i as int)) as nat));
                }
            }
            Some(out)
        },
        HostValue::Text(t) => {
            let mut out = String::new();
            push_char(&mut out, '"');
            push_escaped(t.as_str(), &mut out);
            push_char(&mut out, '"');
            proof {
                assert(out@ =~= text_chars(t@));
            }
            Some(out)
        },
        HostValue::Obj(_) => None,
    }
}

// ---------------------------------------------------------------------------
// Executable decoding
// ---------------------------------------------------------------------------

/// The value of a digit character, or nothing for any other character.
fn digit_of(c: char) -> (r: Option<u64>)
    ensures
        r is Some <==> is_digit(c),
        r matches Some(d) ==> d < 10 && d as nat == digit_val(c),
{
    match c {
        '0' => Some(0),
        '1' => Some(1),
        '2' => Some(2),
        '3' => Some(3),
        '4' => Some(4),
        '5' => Some(5),
        '6' => Some(6),
        '7' => Some(7),
        '8' => Some(8),
        '9' => Some(9),
        _ => None,
    }
}

/// The value of a hexadecimal digit character, or nothing for any other
/// character.
fn hex_of(c: char) -> (r: Option<u32>)
    ensures
        r is Some <==> is_hex_digit(c),
        r matches Some(h) ==> h < 16 && h as nat == hex_val(c),
{
    match c {
        '0' => Some(0),
        '1' => Some(1),
        '2' => Some(2),
        '3' => Some(3),
        '4' => Some(4),
        '5' => Some(5),
        '6' => Some(6),
        '7' => Some(7),
        '8' => Some(8),
        '9' => Some(9),
        'a' | 'A' => Some(10),
        'b' | 'B' => Some(11),
        'c' | 'C' => Some(12),
        'd' | 'D' => Some(13),
        'e' | 'E' => Some(14),
        'f' | 'F' => Some(15),
        _ => None,
    }
}

/// Relies on char::from_u32: the character with the given code point, for
/// every Unicode scalar value; nothing for surrogates and values past the
/// last code point.
#[verifier::external_body]
fn char_from_code(u: u32) -> (r: Option<char>)
    ensures
        r is Some <==> scalar_code(u as nat),
        r matches Some(c) ==> c as u32 == u,
{
    char::from_u32(u)
}

/// A text whose first character is neither a minus sign nor a digit does
/// not encode an integer.
proof fn lemma_not_int_start(s: Seq<char>)
    requires
        s.len() >= 1,
        s[0] != '-',
        !is_digit(s[0]),
    ensures
        !int_text(s),
{
}

/// The character a two-character escape stands for, or nothing where the
/// letter starts no such escape.
fn short_unescape(c: char) -> (r: Option<char>)
    ensures
        r is Some <==> short_escape(c),
        r matches Some(m) ==> m == short_escape_char(c),
{
    match c {
        '"' => Some('"'),
        '\\' => Some('\\'),
        '/' => Some('/'),
        'b' => Some('\u{8}'),
        'f' => Some('\u{c}'),
        'n' => Some('\n'),
        'r' => Some('\r'),
        't' => Some('\t'),
        _ => None,
    }
}

/// Decodes a text as the primitive it encodes, or nothing where it encodes
/// none.
pub fn decode(s: &str) -> (r: Option<HostValue>)
    ensures
        opt_model(r) == decode_model(s@),
{
    let n = s.unicode_len();
    if n == 0 {
        return None;
    }
    let c0 = s.get_char(0);
    if c0 == 'n' {
        if n == 4 && s.get_char(1) == 'u' && s.get_char(2) == 'l' && s.get_char(3) == 'l' {
            proof {
                assert(s@ =~= null_chars());
            }
            return Some(HostValue::Nil);
        }
        proof {
            lemma_not_int_start(s@);
        }
        return None;
    }
    if c0 == 't' {
        if n == 4 && s.get_char(1) == 'r' && s.get_char(2) == 'u' && s.get_char(3) == 'e' {
            proof {
                assert(s@ =~= true_chars());
            }
            return Some(HostValue::True);
        }
        proof {
            lemma_not_int_start(s@);
        }
        return None;
    }
    if c0 == 'f' {
        if n == 5 && s.get_char(1) == 'a' && s.get_char(2) == 'l' && s.get_char(3) == 's'
            && s.get_char(4) == 'e' {
            proof {
                assert(s@ =~= false_chars());
            }
            return Some(HostValue::Nil);
        }
        proof {
            lemma_not_int_start(s@);
        }
        return None;
    }
    if c0 == '"' {
        proof {
            lemma_not_int_start(s@);
        }
        if n < 2 {
            return None;
        }
        if s.get_char(n - 1) != '"' {
            return None;
        }
        let ghost inner: Seq<char> = s@.subrange(1, n as int - 1);
        let m = n - 1;
        let mut out = String::new();
        let mut i: usize = 1;
        proof {
            assert(inner.skip(0) =~= inner);
        }
        while i < m
            invariant
                1 <= i <= m,
                m == n - 1,
                n == s@.len(),
                n >= 2,
                s@[0] == '"',
                s@.last() == '"',
                inner == s@.subrange(1, n as int - 1),
                valid_escaped(inner) <==> valid_escaped(inner.skip(i - 1)),
                valid_escaped(inner.skip(i - 1)) ==> unesc_chars(inner) == out@ + unesc_chars(
                    inner.skip(i - 1),
                ),
                !int_text(s@),
            decreases m - i,
        {
            let ghost suf: Seq<char> = inner.skip(i - 1);
            let c = s.get_char(i);
            proof {
                assert(suf.len() == m - i);
                assert(suf[0] == s@[i as int]);
            }
            if c == '\\' {
                if i + 1 >= m {
                    proof {
                        assert(suf.len() == 1);
                        assert(!valid_escaped(suf));
                    }
                    return None;
                }
                let c2 = s.get_char(i + 1);
                proof {
                    assert(suf[1] == s@[i as int + 1]);
                }
                match short_unescape(c2) {
                    Some(mc) => {
                        push_char(&mut out, mc);
                        proof {
                            assert(suf.skip(2) =~= inner.skip(i + 1));
                            assert(valid_escaped(suf) <==> valid_escaped(suf.skip(2)));
                            assert(unesc_chars(suf) == seq![short_escape_char(c2)] + unesc_chars(
                                suf.skip(2),
                            ));
                            assert(valid_escaped(inner.skip(i + 1)) ==> unesc_chars(inner) == out@
                                + unesc_chars(inner.skip(i + 1)));
                        }
                        i = i + 2;
                    },
                    None => {
                        if c2 != 'u' {
                            proof {
                                assert(!valid_escaped(suf));
                            }
                            return None;
                        }
                        if m - i < 6 {
                            proof {
                                assert(suf.len() < 6);
                                assert(!valid_escaped(suf));
                            }
                            return None;
                        }
                        proof {
                            assert(suf[2] == s@[i as int + 2]);
                            assert(suf[3] == s@[i as int + 3]);
                            assert(suf[4] == s@[i as int + 4]);
                            assert(suf[5] == s@[i as int + 5]);
                        }
                        let h0 = match hex_of(s.get_char(i + 2)) {
                            Some(h) => h,
                            None => {
                                proof {
                                    assert(!valid_escaped(suf));
                                }
                                return None;
                            },
                        };
                        let h1 = match hex_of(s.get_char(i + 3)) {
                            Some(h) => h,
                            None => {
                                proof {
                                    assert(!valid_escaped(suf));
                                }
                                return None;
                            },
                        };
                        let h2 = match hex_of(s.get_char(i + 4)) {
                            Some(h) => h,
                            None => {
                                proof {
                                    assert(!valid_escaped(suf));
                                }
                                return None;
                            },
                        };
                        let h3 = match hex_of(s.get_char(i + 5)) {
                            Some(h) => h,
                            None => {
                                proof {
                                    assert(!valid_escaped(suf));
                                }
                                return None;
                            },
                        };
                        let code: u32 = ((h0 * 16 + h1) * 16 + h2) * 16 + h3;
                        proof {
                            assert(code as nat == hex4_val(suf[2], suf[3], suf[4], suf[5]));
                        }
                        if 0xD800 <= code && code < 0xE000 {
                            proof {
                                assert(!scalar_code(hex4_val(suf[2], suf[3], suf[4], suf[5])));
                                assert(!valid_escaped(suf));
                            }
                            return None;
                        }
                        let ch = match char_from_code(code) {
                            Some(ch) => ch,
                            None => {
                                proof {
                                    assert(false);
                                }
                                return None;
                            },
                        };
                        push_char(&mut out, ch);
                        proof {
                            vstd::utf8::char_u32_cast(ch, code);
                            assert(ch == code_char(code as nat));
                            assert(suf.skip(6) =~= inner.skip(i + 5));
                            assert(valid_escaped(suf) <==> valid_escaped(suf.skip(6)));
                            assert(unesc_chars(suf) == seq![
                                code_char(hex4_val(suf[2], suf[3], suf[4], suf[5])),
                            ] + unesc_chars(suf.skip(6)));
                            assert(valid_escaped(inner.skip(i + 5)) ==> unesc_chars(inner) == out@
                                + unesc_chars(inner.skip(i + 5)));
                        }
                        i = i + 6;
                    },
                }
            } else if c == '"' {
                proof {
                    assert(!valid_escaped(suf));
                }
                return None;
            } else {
                let u = c as u32;
                if u < 0x20 {
                    proof {
                        assert(!valid_escaped(suf));
                    }
                    return None;
                }
                push_char(&mut out, c);
                proof {
                    assert(suf.skip(1) =~= inner.skip(i as int));
                    assert(valid_escaped(suf) <==> valid_escaped(suf.skip(1)));
                    assert(unesc_chars(suf) == seq![c] + unesc_chars(suf.skip(1)));
                    assert(valid_escaped(inner.skip(i as int)) ==> unesc_chars(inner) == out@
                        + unesc_chars(inner.skip(i as int)));
                }
                i = i + 1;
            }
        }
        proof {
            assert(inner.skip(i - 1) =~= Seq::<char>::empty());
            assert(valid_escaped(inner));
            assert(unesc_chars(inner) == out@ + unesc_chars(Seq::<char>::empty()));
            assert(out@ =~= unesc_chars(inner));
        }
        return Some(HostValue::Text(out));
    }
    // Integer text: optional minus sign, then canonical decimal digits.
    let neg = c0 == '-';
    let start: usize = if neg {
        1
    } else {
        0
    };
    let ghost ds: Seq<char> = if neg {
        s@.skip(1)
    } else {
        s@
    };
    if n == start {
        proof {
            assert(ds.len() == 0);
        }
        return None;
    }
    let limit: u64 = if neg {
        9223372036854775808u64
    } else {
        9223372036854775807u64
    };
    let mut val: u64 = 0;
    let mut i: usize = start;
    proof {
        assert(ds.take(0) =~= Seq::<char>::empty());
    }
    while i < n
        invariant
            start <= i <= n,
            n == s@.len(),
            n > start,
            start == if neg {
                1int
            } else {
                0int
            },
            neg <==> s@[0] == '-',
            s@[0] != 'n' && s@[0] != 't' && s@[0] != 'f' && s@[0] != '"',
            ds == if neg {
                s@.skip(1)
            } else {
                s@
            },
            ds.len() == n - start,
            all_digits(ds.take(i - start)),
            digits_val(ds.take(i - start)) == val,
            val <= limit,
            limit == if neg {
                9223372036854775808u64
            } else {
                9223372036854775807u64
            },
            i > start && ds.len() > 1 ==> ds[0] != '0',
            neg && i > start ==> ds[0] != '0',
        decreases n - i,
    {
        let c = s.get_char(i);
        proof {
            assert(ds[i - start] == s@[i as int]);
        }
        match digit_of(c) {
            None => {
                proof {
                    assert(!all_digits(ds));
                }
                return None;
            },
            Some(d) => {
                if i == start && c == '0' {
                    if n - start > 1 {
                        proof {
                            assert(ds[0] == '0' && ds.len() > 1);
                            assert(!canon_digits(ds));
                        }
                        return None;
                    }
                    if neg {
                        proof {
                            assert(ds =~= seq!['0']);
                        }
                        return None;
                    }
                }
                if val > (limit - d) / 10 {
                    proof {
                        let x = (limit - d) as nat;
                        assert(x / 10 * 10 >= x - 9) by (nonlinear_arith);
                        assert(val * 10 >= (x / 10 + 1) * 10) by (nonlinear_arith)
                            requires
                                val >= x / 10 + 1,
                        ;
                        assert(val * 10 + d > limit);
                        lemma_digits_val_push(ds.take(i - start), c);
                        assert(ds.take(i - start).push(c) =~= ds.take(i + 1 - start));
                        assert(digits_val(ds.take(i + 1 - start)) > limit);
                        lemma_digits_val_prefix_le(ds, i + 1 - start);
                        assert(digits_val(ds) > limit);
                        if int_text(s@) {
                            if neg {
                                assert(int_text_val(s@) == -(digits_val(ds) as int));
                                assert(int_text_val(s@) < i64::MIN);
                            } else {
                                assert(int_text_val(s@) == digits_val(ds) as int);
                                assert(int_text_val(s@) > i64::MAX);
                            }
                        }
                    }
                    return None;
                }
                proof {
                    let x = (limit - d) as nat;
                    assert(x / 10 * 10 <= x) by (nonlinear_arith);
                    assert(val * 10 <= x / 10 * 10) by (nonlinear_arith)
                        requires
                            val <= x / 10,
                    ;
                    assert(val * 10 + d <= limit);
                    lemma_digits_val_push(ds.take(i - start), c);
                    assert(ds.take(i - start).push(c) =~= ds.take(i + 1 - start));
                }
                val = val * 10 + d;
                i = i + 1;
            },
        }
    }
    proof {
        assert(ds.take(i - start) =~= ds);
        assert(canon_digits(ds));
        if neg {
            assert(ds[0] != '0');
            assert(ds != seq!['0']);
            assert(int_text(s@));
            assert(int_text_val(s@) == -(digits_val(ds) as int));
        } else {
            assert(int_text(s@));
            assert(int_text_val(s@) == digits_val(ds) as int);
        }
    }
    let res: i64 = if neg {
        if val == 9223372036854775808u64 {
            i64::MIN
        } else {
            proof {
                assert(val < 9223372036854775808u64);
            }
            -(val as i64)
        }
    } else {
        val as i64
    };
    proof {
        assert(res as int == int_text_val(s@));
        assert(decode_model(s@) == Some(ValueModel::Int(res as int)));
    }
    Some(HostValue::Int(res))
}

// ---------------------------------------------------------------------------
// The round trip
// ---------------------------------------------------------------------------

/// A hexadecimal digit character carries the value it was made from.
proof fn lemma_hex_char_val(d: nat)
    requires
        d < 16,
    ensures
        is_hex_digit(hex_char(d)),
        hex_val(hex_char(d)) == d,
{
}

/// Escaping a string body yields a well-formed body that unescapes back
/// to that same body.
pub proof fn lemma_esc_round_trip(s: Seq<char>)
    ensures
        valid_escaped(esc_chars(s)),
        unesc_chars(esc_chars(s)) == s,
    decreases s.len(),
{
    if s.len() == 0 {
    } else {
        lemma_esc_round_trip(s.skip(1));
        let c = s[0];
        let e = esc_chars(s);
        assert(e == esc1(c) + esc_chars(s.skip(1)));
        if c == '"' || c == '\\' {
            assert(e[0] == '\\' && e[1] == c);
            assert(short_escape(c) && short_escape_char(c) == c);
            assert(e.skip(2) =~= esc_chars(s.skip(1)));
            assert(valid_escaped(e));
            assert(unesc_chars(e) == seq![c] + unesc_chars(e.skip(2)));
            assert(unesc_chars(e) =~= s);
        } else if c == '\n' || c == '\r' || c == '\t' || c == '\u{8}' || c == '\u{c}' {
            let l = if c == '\n' {
                'n'
            } else if c == '\r' {
                'r'
            } else if c == '\t' {
                't'
            } else if c == '\u{8}' {
                'b'
            } else {
                'f'
            };
            assert(esc1(c) == seq!['\\', l]);
            assert(e[0] == '\\' && e[1] == l);
            assert(short_escape(l) && short_escape_char(l) == c);
            assert(e.skip(2) =~= esc_chars(s.skip(1)));
            assert(valid_escaped(e));
            assert(unesc_chars(e) == seq![c] + unesc_chars(e.skip(2)));
            assert(unesc_chars(e) =~= s);
        } else if (c as u32) < 0x20 {
            let u = (c as u32) as nat;
            assert(esc1(c) == seq!['\\', 'u', '0', '0', hex_char(u / 16), hex_char(u % 16)]);
            assert(e[0] == '\\' && e[1] == 'u' && e[2] == '0' && e[3] == '0' && e[4] == hex_char(
                u / 16,
            ) && e[5] == hex_char(u % 16));
            assert(!short_escape('u'));
            lemma_hex_char_val(u / 16);
            lemma_hex_char_val(u % 16);
            assert(hex4_val(e[2], e[3], e[4], e[5]) == (u / 16) * 16 + u % 16);
            assert((u / 16) * 16 + u % 16 == u) by (nonlinear_arith);
            assert(scalar_code(u));
            assert(e.skip(6) =~= esc_chars(s.skip(1)));
            assert(valid_escaped(e));
            assert(code_char(u) == c) by {
                vstd::utf8::char_u32_cast(c, c as u32);
            }
            assert(unesc_chars(e) == seq![c] + unesc_chars(e.skip(6)));
            assert(unesc_chars(e) =~= s);
        } else {
            assert(esc1(c) == seq![c]);
            assert(e[0] == c);
            assert(c != '"' && c != '\\' && (c as u32) >= 0x20);
            assert(e.skip(1) =~= esc_chars(s.skip(1)));
            assert(valid_escaped(e));
            assert(unesc_chars(e) == seq![c] + unesc_chars(e.skip(1)));
            assert(unesc_chars(e) =~= s);
        }
    }
}

/// The marshalling round trip: every primitive value the host can hold
/// encodes as a text that decodes back to exactly that value.
pub proof fn lemma_round_trip(v: ValueModel)
    requires
        v.is_primitive(),
        v matches ValueModel::Int(i) ==> i64::MIN <= i <= i64::MAX,
    ensures
        encode_model(v) is Some,
        decode_model(encode_model(v).unwrap()) == Some(v),
{
    match v {
        ValueModel::Nil => {
        },
        ValueModel::True => {
            assert(true_chars()[0] != null_chars()[0]);
        },
        ValueModel::Int(i) => {
            let s = int_chars(i);
            if i < 0 {
                lemma_dec_digits((-i) as nat);
                assert(s[0] == '-');
                assert(s.skip(1) =~= dec_digits((-i) as nat));
                assert(s.skip(1) != seq!['0']);
                assert(int_text(s));
                assert(int_text_val(s) == i);
            } else {
                lemma_dec_digits(i as nat);
                assert(s =~= dec_digits(i as nat));
                assert(is_digit(s[0]));
                assert(s[0] != '-');
                assert(int_text(s));
                assert(int_text_val(s) == i);
            }
            assert(is_digit(s[0]) || s[0] == '-');
            assert(s != null_chars()) by {
                if s == null_chars() {
                    assert(s[0] == 'n');
                }
            }
            assert(s != true_chars()) by {
                if s == true_chars() {
                    assert(s[0] == 't');
                }
            }
            assert(s[0] != '"');
            assert(decode_model(s) == Some(ValueModel::Int(i)));
        },
        ValueModel::Text(t) => {
            lemma_esc_round_trip(t);
            let s = text_chars(t);
            assert(s[0] == '"');
            assert(s.len() >= 2);
            assert(s.last() == '"') by {
                assert(s.len() == esc_chars(t).len() + 2);
            }
            assert(s.subrange(1, s.len() - 1) =~= esc_chars(t));
            assert(s != null_chars()) by {
                if s == null_chars() {
                    assert(s[0] == 'n');
                }
            }
            assert(s != true_chars()) by {
                if s == true_chars() {
                    assert(s[0] == 't');
                }
            }
            assert(decode_model(s) == Some(ValueModel::Text(t)));
        },
        ValueModel::Obj(_) => {
        },
    }
}

} // verus!
