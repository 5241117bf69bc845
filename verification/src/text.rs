//! Small text builders shared by the modules: lower-case hexadecimal digits
//! and the spelling of booleans.

use vstd::prelude::*;

verus! {

/// The lower-case hexadecimal digit of a nibble (`0..=15`).
pub open spec fn hex_digit(d: u8) -> char {
    if d < 10 {
        (48 + d) as char
    } else {
        (87 + d) as char
    }
}

/// Two lower-case hex digits of a byte, most significant first (`{:02x}`).
pub open spec fn hex_byte(b: u8) -> Seq<char> {
    seq![hex_digit(b / 16), hex_digit(b % 16)]
}

/// Four lower-case hex digits of a 16-bit value, most significant first (`{:04x}`).
pub open spec fn hex_u16(v: u16) -> Seq<char> {
    hex_byte((v / 256) as u8) + hex_byte((v % 256) as u8)
}

/// The decimal digit of `d` (`0..=9`).
pub open spec fn dec_digit(d: nat) -> char {
    (48 + d) as char
}

/// The decimal spelling of `n` (`{}` of an unsigned integer).
pub open spec fn decimal(n: nat) -> Seq<char>
    decreases n,
{
    if n < 10 {
        seq![dec_digit(n)]
    } else {
        decimal(n / 10).push(dec_digit(n % 10))
    }
}

/// The text of a list of strings.
pub open spec fn strings_view(v: Seq<String>) -> Seq<Seq<char>> {
    v.map_values(|s: String| s@)
}

/// How `{}` spells a boolean.
pub open spec fn bool_word(b: bool) -> Seq<char> {
    if b {
        "true"@
    } else {
        "false"@
    }
}

/// The value of a lower-case hexadecimal digit, or `None` for any other character.
pub open spec fn hex_value(c: char) -> Option<int> {
    if '0' <= c <= '9' {
        Some(c as int - 48)
    } else if 'a' <= c <= 'f' {
        Some(c as int - 87)
    } else {
        None
    }
}

/// The value of a decimal digit, or `None` for any other character.
pub open spec fn digit_value(c: char) -> Option<int> {
    if '0' <= c <= '9' {
        Some(c as int - 48)
    } else {
        None
    }
}

/// The number that a string of decimal digits denotes.
pub open spec fn decimal_value(s: Seq<char>) -> int
    decreases s.len(),
{
    if s.len() == 0 {
        0
    } else {
        10 * decimal_value(s.drop_last()) + match digit_value(s.last()) {
            Some(d) => d,
            None => 0,
        }
    }
}

/// Two hex digits of a byte are lower-case hexadecimal digits that read back
/// as the byte, most significant first; four hex digits of a 16-bit value
/// read back likewise.
pub proof fn law_hex_reads_back(b: u8, v: u16)
    ensures
        hex_byte(b).len() == 2,
        hex_value(hex_byte(b)[0]) matches Some(hi) && hex_value(hex_byte(b)[1]) matches Some(lo)
            && hi * 16 + lo == b,
        hex_u16(v).len() == 4,
        forall|i: int| 0 <= i < 4 ==> hex_value(#[trigger] hex_u16(v)[i]) is Some,
        hex_value(hex_u16(v)[0])->0 * 4096 + hex_value(hex_u16(v)[1])->0 * 256 + hex_value(
            hex_u16(v)[2],
        )->0 * 16 + hex_value(hex_u16(v)[3])->0 == v,
{
    let h = (v / 256) as u8;
    let l = (v % 256) as u8;
    assert(hex_u16(v)[0] == hex_byte(h)[0]);
    assert(hex_u16(v)[1] == hex_byte(h)[1]);
    assert(hex_u16(v)[2] == hex_byte(l)[0]);
    assert(hex_u16(v)[3] == hex_byte(l)[1]);
}

/// The decimal spelling of `n` is a non-empty string of digits, without a
/// leading zero unless it is `0` itself, that denotes `n`.
pub proof fn law_decimal_reads_back(n: nat)
    ensures
        decimal(n).len() > 0,
        forall|i: int| 0 <= i < decimal(n).len() ==> digit_value(#[trigger] decimal(n)[i]) is Some,
        decimal_value(decimal(n)) == n,
        decimal(n).len() > 1 ==> decimal(n)[0] != '0',
        decimal(n).len() == 1 <==> n < 10,
    decreases n,
{
    if n >= 10 {
        law_decimal_reads_back(n / 10);
        let d = decimal(n);
        assert(d.drop_last() =~= decimal(n / 10));
        assert forall|i: int| 0 <= i < d.len() implies digit_value(#[trigger] d[i]) is Some by {
            if i < d.len() - 1 {
                assert(d[i] == decimal(n / 10)[i]);
            }
        }
        assert(d[0] == decimal(n / 10)[0]);
        let k = n % 10;
        assert(d.last() == dec_digit(k));
        assert(digit_value(dec_digit(k)) == Some(k as int));
        assert(decimal_value(d) == 10 * decimal_value(d.drop_last()) + k);
        assert(n == 10 * (n / 10) + n % 10);
        if decimal(n / 10).len() == 1 {
            assert(n / 10 > 0);
            assert(n / 10 < 10);
            assert(decimal(n / 10)[0] == dec_digit(n / 10));
        }
    } else {
        let d = decimal(n);
        assert(d.drop_last() =~= Seq::<char>::empty());
        assert(decimal_value(d.drop_last()) == 0);
        assert(d.last() == dec_digit(n));
        assert(digit_value(dec_digit(n)) == Some(n as int));
        assert(decimal_value(d) == 10 * decimal_value(d.drop_last()) + n);
    }
}

/// Appends one character to a string (`String::push`).
#[verifier::external_body]
pub(crate) fn push_char(s: &mut String, c: char)
    ensures
        final(s)@ == old(s)@.push(c),
{
    s.push(c)
}

/// Whether `s` reads `t`.
pub fn string_is(s: &String, t: &str) -> (b: bool)
    ensures
        b == (s@ == t@),
{
    let other = String::from_str(t);
    s.eq(&other)
}

/// The character of one hexadecimal digit.
pub fn hex_digit_char(d: u8) -> (c: char)
    requires
        d < 16,
    ensures
        c == hex_digit(d),
{
    if d < 10 {
        (48u8 + d) as char
    } else {
        (87u8 + d) as char
    }
}

/// Appends the two hex digits of `b` to `s`.
pub fn push_hex_byte(s: &mut String, b: u8)
    ensures
        final(s)@ == old(s)@ + hex_byte(b),
{
    let hi = hex_digit_char(b / 16);
    let lo = hex_digit_char(b % 16);
    push_char(s, hi);
    push_char(s, lo);
    assert(s@ =~= old(s)@ + hex_byte(b));
}

/// Appends the four hex digits of `v` to `s`.
pub fn push_hex_u16(s: &mut String, v: u16)
    ensures
        final(s)@ == old(s)@ + hex_u16(v),
{
    push_hex_byte(s, (v / 256) as u8);
    push_hex_byte(s, (v % 256) as u8);
    assert(s@ =~= old(s)@ + hex_u16(v));
}

/// Appends the decimal spelling of `n` to `s`.
pub fn push_decimal(s: &mut String, n: u64)
    ensures
        final(s)@ == old(s)@ + decimal(n as nat),
    decreases n,
{
    if n >= 10 {
        push_decimal(s, n / 10);
    }
    let d = (48u8 + (n % 10) as u8) as char;
    push_char(s, d);
    assert(s@ =~= old(s)@ + decimal(n as nat));
}

/// Appends `true` or `false` to `s`.
pub fn push_bool(s: &mut String, b: bool)
    ensures
        final(s)@ == old(s)@ + bool_word(b),
{
    if b {
        s.append("true");
    } else {
        s.append("false");
    }
}

} // verus!
