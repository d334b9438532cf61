//! Scalar token codecs: decimal integers, 6-digit hex colors and boolean
//! flags, as they appear in XML attribute values.
//!
//! Parsing and formatting are both specified exactly, and each pair comes
//! with a round-trip lemma: parsing a formatted value yields the value.

use vstd::prelude::*;
use vstd::string::*;
use crate::model::Color;

verus! {

// ---------------------------------------------------------------------
// Decimal integers
// ---------------------------------------------------------------------

/// Is `c` an ASCII decimal digit?
pub open spec fn is_digit(c: char) -> bool {
    48 <= c as u32 <= 57
}

/// Numeric value of a decimal digit.
pub open spec fn digit_val(c: char) -> int {
    c as u32 - 48
}

/// Every character of `s` is a decimal digit.
pub open spec fn all_digits(s: Seq<char>) -> bool {
    forall|i: int| 0 <= i < s.len() ==> is_digit(#[trigger] s[i])
}

/// The number denoted by a digit string, most significant digit first.
pub open spec fn dec_value(s: Seq<char>) -> int
    decreases s.len(),
{
    if s.len() == 0 {
        0
    } else {
        dec_value(s.drop_last()) * 10 + digit_val(s.last())
    }
}

/// What an unsigned 64-bit decimal token parses to: the denoted number if
/// the token is one or more digits and the number fits, `None` otherwise.
pub open spec fn parse_u64_token(s: Seq<char>) -> Option<u64> {
    if s.len() > 0 && all_digits(s) && dec_value(s) <= u64::MAX {
        Some(dec_value(s) as u64)
    } else {
        None
    }
}

/// A digit string denotes a non-negative number.
pub proof fn lemma_dec_value_nonneg(s: Seq<char>)
    requires
        all_digits(s),
    ensures
        dec_value(s) >= 0,
    decreases s.len(),
{
    if s.len() > 0 {
        assert(all_digits(s.drop_last()));
        lemma_dec_value_nonneg(s.drop_last());
    }
}

/// Extending a digit string multiplies its value up: the whole string
/// denotes at least what any prefix denotes.
pub proof fn lemma_dec_value_prefix(s: Seq<char>, k: int)
    requires
        all_digits(s),
        0 <= k <= s.len(),
    ensures
        dec_value(s) >= dec_value(s.subrange(0, k)),
    decreases s.len() - k,
{
    if k < s.len() {
        lemma_dec_value_prefix(s, k + 1);
        let t = s.subrange(0, k + 1);
        assert(t.drop_last() =~= s.subrange(0, k));
        assert(all_digits(s.subrange(0, k)));
        lemma_dec_value_nonneg(s.subrange(0, k));
        assert(dec_value(t) == dec_value(s.subrange(0, k)) * 10 + digit_val(s[k]));
    } else {
        assert(s.subrange(0, k) =~= s);
    }
}

/// Parse an unsigned 64-bit decimal attribute token.
pub fn parse_u64_str(s: &str) -> (r: Option<u64>)
    ensures
        r == parse_u64_token(s@),
{
    let n = s.unicode_len();
    if n == 0 {
        return None;
    }
    let mut v: u64 = 0;
    let mut i: usize = 0;
    while i < n
        invariant
            0 <= i <= n,
            n == s@.len(),
            all_digits(s@.subrange(0, i as int)),
            v == dec_value(s@.subrange(0, i as int)),
        decreases n - i,
    {
        let c = s.get_char(i);
        let u = c as u32;
        if u < 48 || u > 57 {
            assert(!is_digit(s@[i as int]));
            return None;
        }
        let d = (u - 48) as u64;
        proof {
            assert(s@.subrange(0, i + 1).drop_last() =~= s@.subrange(0, i as int));
            assert(dec_value(s@.subrange(0, i + 1)) == v * 10 + d);
        }
        if v > (u64::MAX - d) / 10 {
            proof {
                assert(v * 10 + d > u64::MAX) by {
                    assert(v >= (u64::MAX - d) / 10 + 1);
                    assert(((u64::MAX - d) / 10 + 1) * 10 == ((u64::MAX - d) / 10) * 10 + 10);
                    assert(((u64::MAX - d) / 10) * 10 > u64::MAX - d - 10);
                }
                if all_digits(s@) {
                    lemma_dec_value_prefix(s@, i + 1);
                }
            }
            return None;
        }
        v = v * 10 + d;
        i = i + 1;
    }
    proof {
        assert(s@.subrange(0, n as int) =~= s@);
    }
    Some(v)
}

/// What an unsigned 32-bit decimal token parses to.
pub open spec fn parse_u32_token(s: Seq<char>) -> Option<u32> {
    match parse_u64_token(s) {
        Some(v) => if v <= u32::MAX { Some(v as u32) } else { None },
        None => None,
    }
}

/// Parse an unsigned 32-bit decimal attribute token.
pub fn parse_u32_str(s: &str) -> (r: Option<u32>)
    ensures
        r == parse_u32_token(s@),
{
    match parse_u64_str(s) {
        Some(v) => if v <= 0xffff_ffff { Some(v as u32) } else { None },
        None => None,
    }
}

/// What an unsigned 8-bit decimal token parses to.
pub open spec fn parse_u8_token(s: Seq<char>) -> Option<u8> {
    match parse_u64_token(s) {
        Some(v) => if v <= u8::MAX { Some(v as u8) } else { None },
        None => None,
    }
}

/// Parse an unsigned 8-bit decimal attribute token.
pub fn parse_u8_str(s: &str) -> (r: Option<u8>)
    ensures
        r == parse_u8_token(s@),
{
    match parse_u64_str(s) {
        Some(v) => if v <= 255 { Some(v as u8) } else { None },
        None => None,
    }
}

/// What a signed 32-bit decimal token parses to: an optional leading `-`
/// followed by one or more digits, if the denoted number fits.
pub open spec fn parse_i32_token(s: Seq<char>) -> Option<i32> {
    if s.len() >= 1 && s[0] == '-' {
        let t = s.subrange(1, s.len() as int);
        if t.len() > 0 && all_digits(t) && dec_value(t) <= 0x8000_0000 {
            Some((0 - dec_value(t)) as i32)
        } else {
            None
        }
    } else {
        match parse_u64_token(s) {
            Some(v) => if v <= i32::MAX { Some(v as i32) } else { None },
            None => None,
        }
    }
}

/// Parse a signed 32-bit decimal attribute token.
pub fn parse_i32_str(s: &str) -> (r: Option<i32>)
    ensures
        r == parse_i32_token(s@),
{
    let n = s.unicode_len();
    if n >= 1 && s.get_char(0) == '-' {
        let rest = s.substring_char(1, n);
        match parse_u64_str(rest) {
            Some(v) => {
                if v <= 0x8000_0000 {
                    proof {
                        lemma_dec_value_nonneg(rest@);
                        assert(rest@ =~= s@.subrange(1, s@.len() as int));
                        assert(v == dec_value(rest@));
                    }
                    let r = (0 - (v as i64)) as i32;
                    assert(r as int == 0 - dec_value(s@.subrange(1, s@.len() as int)));
                    Some(r)
                } else {
                    proof {
                        lemma_dec_value_nonneg(rest@);
                        assert(rest@ =~= s@.subrange(1, s@.len() as int));
                        assert(dec_value(s@.subrange(1, s@.len() as int)) > 0x8000_0000);
                    }
                    None
                }
            },
            None => None,
        }
    } else {
        match parse_u64_str(s) {
            Some(v) => if v <= 0x7fff_ffff { Some(v as i32) } else { None },
            None => None,
        }
    }
}

/// The character of a decimal digit value.
pub open spec fn digit_char(d: int) -> char {
    if d == 0 { '0' }
    else if d == 1 { '1' }
    else if d == 2 { '2' }
    else if d == 3 { '3' }
    else if d == 4 { '4' }
    else if d == 5 { '5' }
    else if d == 6 { '6' }
    else if d == 7 { '7' }
    else if d == 8 { '8' }
    else { '9' }
}

/// The decimal token of a non-negative number, most significant digit
/// first, with no leading zeros (the number 0 is the single digit `0`).
pub open spec fn dec_token(v: int) -> Seq<char>
    decreases v,
{
    if v < 10 {
        seq![digit_char(v)]
    } else {
        dec_token(v / 10).push(digit_char(v % 10))
    }
}

/// The decimal token of a signed number: a `-` sign where negative.
pub open spec fn dec_token_signed(v: int) -> Seq<char> {
    if v < 0 {
        seq!['-'] + dec_token(0 - v)
    } else {
        dec_token(v)
    }
}

/// Append one decimal digit character.
fn append_digit(out: &mut String, d: u64)
    requires
        d < 10,
    ensures
        final(out)@ == old(out)@ + seq![digit_char(d as int)],
{
    proof {
        reveal_strlit("0");
        reveal_strlit("1");
        reveal_strlit("2");
        reveal_strlit("3");
        reveal_strlit("4");
        reveal_strlit("5");
        reveal_strlit("6");
        reveal_strlit("7");
        reveal_strlit("8");
        reveal_strlit("9");
    }
    if d == 0 { out.append("0"); }
    else if d == 1 { out.append("1"); }
    else if d == 2 { out.append("2"); }
    else if d == 3 { out.append("3"); }
    else if d == 4 { out.append("4"); }
    else if d == 5 { out.append("5"); }
    else if d == 6 { out.append("6"); }
    else if d == 7 { out.append("7"); }
    else if d == 8 { out.append("8"); }
    else { out.append("9"); }
    proof {
        assert(out@ =~= old(out)@ + seq![digit_char(d as int)]);
    }
}

/// Append the decimal token of an unsigned number.
pub fn append_u64(out: &mut String, v: u64)
    ensures
        final(out)@ == old(out)@ + dec_token(v as int),
    decreases v,
{
    if v >= 10 {
        append_u64(out, v / 10);
        append_digit(out, v % 10);
        proof {
            assert(out@ =~= old(out)@ + dec_token(v as int));
        }
    } else {
        append_digit(out, v);
    }
}

/// Append the decimal token of an unsigned 32-bit number.
pub fn append_u32(out: &mut String, v: u32)
    ensures
        final(out)@ == old(out)@ + dec_token(v as int),
{
    append_u64(out, v as u64);
}

/// Append the decimal token of a signed 32-bit number.
pub fn append_i32(out: &mut String, v: i32)
    ensures
        final(out)@ == old(out)@ + dec_token_signed(v as int),
{
    if v < 0 {
        proof {
            reveal_strlit("-");
        }
        out.append("-");
        proof {
            assert(out@ =~= old(out)@ + seq!['-']);
        }
        let m = (0 - (v as i64)) as u64;
        append_u64(out, m);
        proof {
            assert(out@ =~= old(out)@ + dec_token_signed(v as int));
        }
    } else {
        append_u64(out, v as u64);
    }
}

/// A decimal token is made of digits and denotes the number it was
/// formatted from.
pub proof fn lemma_dec_token_value(v: int)
    requires
        v >= 0,
    ensures
        dec_token(v).len() >= 1,
        all_digits(dec_token(v)),
        dec_value(dec_token(v)) == v,
    decreases v,
{
    if v < 10 {
        let t = seq![digit_char(v)];
        assert(dec_token(v) =~= t);
        assert(t.drop_last() =~= Seq::<char>::empty());
        assert(t.last() == digit_char(v));
        assert(dec_value(t) == dec_value(Seq::<char>::empty()) * 10 + digit_val(digit_char(v)));
        assert(digit_val(digit_char(v)) == v);
    } else {
        lemma_dec_token_value(v / 10);
        let t = dec_token(v / 10);
        let w = t.push(digit_char(v % 10));
        assert(w.drop_last() =~= t);
        assert(dec_value(w) == dec_value(t) * 10 + digit_val(digit_char(v % 10)));
        assert(digit_val(digit_char(v % 10)) == v % 10);
        assert(dec_value(t) * 10 + v % 10 == v);
        assert(forall|i: int| 0 <= i < w.len() ==> is_digit(#[trigger] w[i]));
    }
}

/// Round trip of unsigned decimal tokens: parsing a formatted number
/// yields the number.
pub proof fn lemma_u64_token_round_trip(v: u64)
    ensures
        parse_u64_token(dec_token(v as int)) == Some(v),
{
    lemma_dec_token_value(v as int);
}

/// Round trip of signed decimal tokens: parsing a formatted number yields
/// the number.
pub proof fn lemma_i32_token_round_trip(v: i32)
    ensures
        parse_i32_token(dec_token_signed(v as int)) == Some(v),
{
    if v < 0 {
        let m = 0 - v as int;
        lemma_dec_token_value(m);
        let s = dec_token_signed(v as int);
        assert(s[0] == '-');
        assert(s.subrange(1, s.len() as int) =~= dec_token(m));
    } else {
        lemma_dec_token_value(v as int);
        let s = dec_token_signed(v as int);
        assert(s =~= dec_token(v as int));
    }
}

// ---------------------------------------------------------------------
// Booleans
// ---------------------------------------------------------------------

/// What a boolean attribute token parses to: the dialect's tokens are the
/// digits `1` (true) and `0` (false).
pub open spec fn parse_bool_token(s: Seq<char>) -> Option<bool> {
    if s.len() == 1 && s[0] == '1' {
        Some(true)
    } else if s.len() == 1 && s[0] == '0' {
        Some(false)
    } else {
        None
    }
}

/// The token of a boolean flag.
pub open spec fn bool_token(b: bool) -> Seq<char> {
    if b {
        seq!['1']
    } else {
        seq!['0']
    }
}

/// Parse a boolean attribute token.
pub fn parse_bool_str(s: &str) -> (r: Option<bool>)
    ensures
        r == parse_bool_token(s@),
{
    let n = s.unicode_len();
    if n == 1 && s.get_char(0) == '1' {
        Some(true)
    } else if n == 1 && s.get_char(0) == '0' {
        Some(false)
    } else {
        None
    }
}

/// Append the token of a boolean flag.
pub fn append_bool(out: &mut String, b: bool)
    ensures
        final(out)@ == old(out)@ + bool_token(b),
{
    proof {
        reveal_strlit("1");
        reveal_strlit("0");
    }
    if b {
        out.append("1");
    } else {
        out.append("0");
    }
    proof {
        assert(out@ =~= old(out)@ + bool_token(b));
    }
}

/// Round trip of boolean tokens.
pub proof fn lemma_bool_token_round_trip(b: bool)
    ensures
        parse_bool_token(bool_token(b)) == Some(b),
{
}

// ---------------------------------------------------------------------
// Colors
// ---------------------------------------------------------------------

/// Is `c` a hex digit (either case)?
pub open spec fn is_hex_digit(c: char) -> bool {
    is_digit(c) || 65 <= c as u32 <= 70 || 97 <= c as u32 <= 102
}

/// Numeric value of a hex digit (either case).
pub open spec fn hex_val(c: char) -> int {
    if is_digit(c) {
        c as u32 - 48
    } else if 65 <= c as u32 <= 70 {
        c as u32 - 55
    } else {
        c as u32 - 87
    }
}

/// What a color attribute token parses to: `#` followed by exactly six
/// hex digits, giving the red, green and blue channels.
pub open spec fn parse_color_token(s: Seq<char>) -> Option<Color> {
    if s.len() == 7 && s[0] == '#' && (forall|i: int| 1 <= i < 7 ==> is_hex_digit(#[trigger] s[i])) {
        Some(Color {
            r: (hex_val(s[1]) * 16 + hex_val(s[2])) as u8,
            g: (hex_val(s[3]) * 16 + hex_val(s[4])) as u8,
            b: (hex_val(s[5]) * 16 + hex_val(s[6])) as u8,
        })
    } else {
        None
    }
}

/// The uppercase character of a hex digit value.
pub open spec fn hex_char(d: int) -> char {
    if d == 10 { 'A' }
    else if d == 11 { 'B' }
    else if d == 12 { 'C' }
    else if d == 13 { 'D' }
    else if d == 14 { 'E' }
    else if d == 15 { 'F' }
    else { digit_char(d) }
}

/// The token of a color: `#` and six uppercase hex digits.
pub open spec fn color_token(c: Color) -> Seq<char> {
    seq![
        '#',
        hex_char(c.r as int / 16),
        hex_char(c.r as int % 16),
        hex_char(c.g as int / 16),
        hex_char(c.g as int % 16),
        hex_char(c.b as int / 16),
        hex_char(c.b as int % 16),
    ]
}

/// Exec value of one hex digit character, or 255 where it is none.
fn hex_val_of(c: char) -> (r: u32)
    ensures
        is_hex_digit(c) ==> r == hex_val(c),
        !is_hex_digit(c) ==> r == 255,
{
    let u = c as u32;
    if 48 <= u && u <= 57 {
        u - 48
    } else if 65 <= u && u <= 70 {
        u - 55
    } else if 97 <= u && u <= 102 {
        u - 87
    } else {
        255
    }
}

/// Parse a color attribute token.
pub fn parse_color_str(s: &str) -> (r: Option<Color>)
    ensures
        r == parse_color_token(s@),
{
    let n = s.unicode_len();
    if n != 7 || s.get_char(0) != '#' {
        return None;
    }
    let d1 = hex_val_of(s.get_char(1));
    let d2 = hex_val_of(s.get_char(2));
    let d3 = hex_val_of(s.get_char(3));
    let d4 = hex_val_of(s.get_char(4));
    let d5 = hex_val_of(s.get_char(5));
    let d6 = hex_val_of(s.get_char(6));
    if d1 > 15 || d2 > 15 || d3 > 15 || d4 > 15 || d5 > 15 || d6 > 15 {
        assert(exists|i: int| 1 <= i < 7 && !is_hex_digit(s@[i]));
        return None;
    }
    Some(Color {
        r: (d1 * 16 + d2) as u8,
        g: (d3 * 16 + d4) as u8,
        b: (d5 * 16 + d6) as u8,
    })
}

/// Append one uppercase hex digit character.
fn append_hex_digit(out: &mut String, d: u8)
    requires
        d < 16,
    ensures
        final(out)@ == old(out)@ + seq![hex_char(d as int)],
{
    if d < 10 {
        append_digit(out, d as u64);
    } else {
        proof {
            reveal_strlit("A");
            reveal_strlit("B");
            reveal_strlit("C");
            reveal_strlit("D");
            reveal_strlit("E");
            reveal_strlit("F");
        }
        if d == 10 { out.append("A"); }
        else if d == 11 { out.append("B"); }
        else if d == 12 { out.append("C"); }
        else if d == 13 { out.append("D"); }
        else if d == 14 { out.append("E"); }
        else { out.append("F"); }
        proof {
            assert(out@ =~= old(out)@ + seq![hex_char(d as int)]);
        }
    }
}

/// Append the token of a color.
pub fn append_color(out: &mut String, c: Color)
    ensures
        final(out)@ == old(out)@ + color_token(c),
{
    proof {
        reveal_strlit("#");
    }
    out.append("#");
    append_hex_digit(out, c.r / 16);
    append_hex_digit(out, c.r % 16);
    append_hex_digit(out, c.g / 16);
    append_hex_digit(out, c.g % 16);
    append_hex_digit(out, c.b / 16);
    append_hex_digit(out, c.b % 16);
    proof {
        assert(out@ =~= old(out)@ + color_token(c));
    }
}

/// A hex digit character denotes its digit.
pub proof fn lemma_hex_char_val(d: int)
    requires
        0 <= d < 16,
    ensures
        is_hex_digit(hex_char(d)),
        hex_val(hex_char(d)) == d,
{
}

/// Round trip of color tokens: parsing a formatted color yields the
/// color.
pub proof fn lemma_color_token_round_trip(c: Color)
    ensures
        parse_color_token(color_token(c)) == Some(c),
{
    let s = color_token(c);
    lemma_hex_char_val(c.r as int / 16);
    lemma_hex_char_val(c.r as int % 16);
    lemma_hex_char_val(c.g as int / 16);
    lemma_hex_char_val(c.g as int % 16);
    lemma_hex_char_val(c.b as int / 16);
    lemma_hex_char_val(c.b as int % 16);
    assert(forall|i: int| 1 <= i < 7 ==> is_hex_digit(#[trigger] s[i]));
    assert((c.r as int / 16) * 16 + (c.r as int % 16) == c.r as int);
    assert((c.g as int / 16) * 16 + (c.g as int % 16) == c.g as int);
    assert((c.b as int / 16) * 16 + (c.b as int % 16) == c.b as int);
}

} // verus!
