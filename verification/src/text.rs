//! Text building blocks: appending characters, decimal numbers and
//! hexadecimal bytes to a `String`.

use vstd::prelude::*;

verus! {

/// `String::push` appends one character.
pub assume_specification[ String::push ](s: &mut String, ch: char)
    ensures
        final(s)@ == old(s)@.push(ch),
;

/// The decimal digit character for `d` (0..=9).
pub open spec fn digit_char(d: int) -> char {
    ((d + '0' as int) as u32) as char
}

/// Decimal text of `v`, without leading zeros ("0" for zero).
pub open spec fn dec_text(v: nat) -> Seq<char>
    decreases v,
{
    if v < 10 {
        seq![digit_char(v as int)]
    } else {
        dec_text(v / 10) + seq![digit_char((v % 10) as int)]
    }
}

/// The upper-case hexadecimal digit character for `d` (0..=15).
pub open spec fn hex_digit_upper(d: int) -> char {
    if d < 10 { digit_char(d) } else { ((d - 10 + 'A' as int) as u32) as char }
}

/// Two upper-case hexadecimal digits of a byte.
pub open spec fn hex2(v: u8) -> Seq<char> {
    seq![hex_digit_upper(v as int / 16), hex_digit_upper(v as int % 16)]
}

fn digit_to_char(d: u8) -> (c: char)
    requires
        d < 10,
    ensures
        c == digit_char(d as int),
{
    let code: u32 = d as u32 + '0' as u32;
    proof {
        assert(code < 0xD800);
    }
    char::from_u32(code).unwrap()
}

/// `char::from_u32` gives the character of a code point outside the
/// surrogate range.
pub assume_specification[ char::from_u32 ](i: u32) -> (res: Option<char>)
    ensures
        (i < 0xD800 || (0xE000 <= i && i <= 0x10FFFF)) ==> res == Some(i as char),
        !(i < 0xD800 || (0xE000 <= i && i <= 0x10FFFF)) ==> res is None,
;

/// Appends the decimal text of `v`.
pub fn push_decimal(s: &mut String, v: u64)
    ensures
        final(s)@ == old(s)@ + dec_text(v as nat),
    decreases v,
{
    if v < 10 {
        let c = digit_to_char(v as u8);
        s.push(c);
        assert(final(s)@ =~= old(s)@ + dec_text(v as nat));
    } else {
        push_decimal(s, v / 10);
        let c = digit_to_char((v % 10) as u8);
        s.push(c);
        assert(final(s)@ =~= old(s)@ + dec_text(v as nat));
    }
}

fn hex_char(d: u8) -> (c: char)
    requires
        d < 16,
    ensures
        c == hex_digit_upper(d as int),
{
    if d < 10 {
        digit_to_char(d)
    } else {
        let code: u32 = (d - 10) as u32 + 'A' as u32;
        char::from_u32(code).unwrap()
    }
}

/// Appends the two upper-case hexadecimal digits of `v`.
pub fn push_hex2(s: &mut String, v: u8)
    ensures
        final(s)@ == old(s)@ + hex2(v),
{
    let hi = hex_char(v / 16);
    let lo = hex_char(v % 16);
    s.push(hi);
    s.push(lo);
    assert(final(s)@ =~= old(s)@ + hex2(v));
}

/// Appends a string.
pub fn push_str(s: &mut String, t: &str)
    ensures
        final(s)@ == old(s)@ + t@,
{
    s.append(t);
}

/// The decimal text of `v`.
pub fn decimal_string(v: u64) -> (s: String)
    ensures
        s@ == dec_text(v as nat),
{
    let mut s = String::new();
    push_decimal(&mut s, v);
    assert(s@ =~= dec_text(v as nat));
    s
}

/// Character-wise equality of two strings.
pub fn str_eq(a: &str, b: &str) -> (eq: bool)
    ensures
        eq == (a@ == b@),
{
    let n = a.unicode_len();
    if n != b.unicode_len() {
        return false;
    }
    let mut i: usize = 0;
    while i < n
        invariant
            n == a@.len(),
            n == b@.len(),
            i <= n,
            forall|k: int| 0 <= k < i ==> a@[k] == b@[k],
        decreases n - i,
    {
        if a.get_char(i) != b.get_char(i) {
            return false;
        }
        i = i + 1;
    }
    assert(a@ =~= b@);
    true
}

} // verus!
