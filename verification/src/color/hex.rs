//! The text form of a colour in config files: `#RRGGBB` for an opaque colour,
//! `#AARRGGBB` otherwise. Reading accepts the `#` as optional and reads the
//! digits as `u32::from_str_radix(_, 16)` does.

use vstd::prelude::*;

use super::Color;
use crate::chars::{chars_of, string_from_chars};

verus! {

/// Why a text is not a hexadecimal `u32`, in the terms of `u32::from_str_radix`.
#[derive(Debug, Clone, Copy, PartialEq, Eq, Structural)]
pub enum HexDigitsError {
    /// Nothing to read.
    Empty,
    /// A character that is not a hexadecimal digit (a lone `+` included).
    InvalidDigit,
    /// The digits name a number above `u32::MAX`.
    PosOverflow,
}

/// Why a text is not a colour.
#[derive(Debug, Clone, Copy, PartialEq, Eq, Structural)]
pub enum ColorHexError {
    /// The text after the `#` is not a hexadecimal `u32`.
    Digits(HexDigitsError),
    /// The digits read, but there are neither six nor eight of them.
    BadLength,
}

/// The value of hexadecimal digit `c`, or -1 when `c` is not one.
pub open spec fn hex_digit_value(c: char) -> int {
    if '0' <= c && c <= '9' {
        c as int - '0' as int
    } else if 'a' <= c && c <= 'f' {
        c as int - 'a' as int + 10
    } else if 'A' <= c && c <= 'F' {
        c as int - 'A' as int + 10
    } else {
        -1
    }
}

/// Read `d` front first onto `acc`: the first non-digit, or the first digit
/// that takes the number past `u32::MAX`, stops the reading.
pub open spec fn radix16_from(acc: int, d: Seq<char>) -> Result<int, HexDigitsError>
    decreases d.len(),
{
    if d.len() == 0 {
        Ok(acc)
    } else if hex_digit_value(d[0]) < 0 {
        Err(HexDigitsError::InvalidDigit)
    } else if acc * 16 + hex_digit_value(d[0]) > u32::MAX {
        Err(HexDigitsError::PosOverflow)
    } else {
        radix16_from(acc * 16 + hex_digit_value(d[0]), d.drop_first())
    }
}

/// `s` read as a hexadecimal `u32` with an optional leading `+`.
pub open spec fn radix16(s: Seq<char>) -> Result<int, HexDigitsError> {
    if s.len() == 0 {
        Err(HexDigitsError::Empty)
    } else if s == seq!['+'] {
        Err(HexDigitsError::InvalidDigit)
    } else if s[0] == '+' {
        radix16_from(0, s.drop_first())
    } else {
        radix16_from(0, s)
    }
}

/// `s` without one leading `#`, if it has one.
pub open spec fn without_hash(s: Seq<char>) -> Seq<char> {
    if s.len() > 0 && s[0] == '#' {
        s.drop_first()
    } else {
        s
    }
}

/// The colour text `s` names: six digits are an opaque colour, eight carry
/// their own alpha.
pub open spec fn color_from_hex(s: Seq<char>) -> Result<Color, ColorHexError> {
    let hex = without_hash(s);
    match radix16(hex) {
        Err(e) => Err(ColorHexError::Digits(e)),
        Ok(v) => if hex.len() == 6 {
            Ok(Color((0xFF00_0000 + v) as u32))
        } else if hex.len() == 8 {
            Ok(Color(v as u32))
        } else {
            Err(ColorHexError::BadLength)
        },
    }
}

/// The uppercase hexadecimal digit for `d` (`d` in `0..16`).
pub open spec fn hex_char(d: int) -> char {
    if d < 10 {
        ('0' as int + d) as char
    } else {
        ('A' as int + d - 10) as char
    }
}

/// The low `n` hexadecimal digits of `v`, most significant first.
pub open spec fn hex_text(v: nat, n: nat) -> Seq<char>
    decreases n,
{
    if n == 0 {
        seq![]
    } else {
        hex_text(v / 16, (n - 1) as nat).push(hex_char((v % 16) as int))
    }
}

/// The text of `c`: `#RRGGBB` when opaque, else `#AARRGGBB`.
pub open spec fn color_to_hex(c: Color) -> Seq<char> {
    if c.spec_alpha() == 0xFF {
        seq!['#'] + hex_text(c.spec_packed() as nat, 6)
    } else {
        seq!['#'] + hex_text(c.0 as nat, 8)
    }
}

/// The number `n` hexadecimal digits of `v` read back: `v` modulo `16^n`.
pub open spec fn pow16(n: nat) -> nat
    decreases n,
{
    if n == 0 {
        1
    } else {
        16 * pow16((n - 1) as nat)
    }
}

/// Digits read from text that names a number below `16^len`.
proof fn lemma_radix16_bound(acc: int, d: Seq<char>)
    requires
        0 <= acc,
        radix16_from(acc, d) is Ok,
    ensures
        radix16_from(acc, d)->Ok_0 < (acc + 1) * pow16(d.len()),
    decreases d.len(),
{
    if d.len() == 0 {
        assert(pow16(0) == 1);
        assert((acc + 1) * pow16(d.len()) == acc + 1);
    } else {
        let a2 = acc * 16 + hex_digit_value(d[0]);
        assert(radix16_from(acc, d) == radix16_from(a2, d.drop_first()));
        assert(pow16(d.len()) == 16 * pow16(d.drop_first().len()));
        lemma_radix16_bound(a2, d.drop_first());
        assert((a2 + 1) * pow16(d.drop_first().len()) <= (acc + 1) * pow16(d.len())) by (
        nonlinear_arith)
            requires
                a2 < acc * 16 + 16,
                pow16(d.len()) == 16 * pow16(d.drop_first().len()),
                0 <= a2,
        ;
    }
}

/// Reading one more digit `c` onto `acc`.
pub open spec fn radix16_step(acc: int, c: char) -> Result<int, HexDigitsError> {
    if hex_digit_value(c) < 0 {
        Err(HexDigitsError::InvalidDigit)
    } else if acc * 16 + hex_digit_value(c) > u32::MAX {
        Err(HexDigitsError::PosOverflow)
    } else {
        Ok(acc * 16 + hex_digit_value(c))
    }
}

/// Reading `s` and then `c` is reading `s`, then one step more.
proof fn lemma_radix16_push(acc: int, s: Seq<char>, c: char)
    ensures
        radix16_from(acc, s.push(c)) == match radix16_from(acc, s) {
            Ok(a) => radix16_step(a, c),
            Err(e) => Err(e),
        },
    decreases s.len(),
{
    if s.len() == 0 {
        let e: Seq<char> = seq![];
        assert(s.push(c).drop_first() =~= e);
        assert(s.push(c)[0] == c);
        assert(radix16_from(acc * 16 + hex_digit_value(c), e) == Ok::<int, HexDigitsError>(
            acc * 16 + hex_digit_value(c),
        ));
    } else {
        assert(s.push(c)[0] == s[0]);
        assert(s.push(c).drop_first() =~= s.drop_first().push(c));
        lemma_radix16_push(acc * 16 + hex_digit_value(s[0]), s.drop_first(), c);
    }
}

/// Each digit character reads back as its value.
proof fn lemma_hex_char_value(d: int)
    requires
        0 <= d < 16,
    ensures
        hex_digit_value(hex_char(d)) == d,
{
}

/// The low `n` digits of `v` read back as `v` modulo `16^n`.
proof fn lemma_hex_text_reads_back(v: nat, n: nat)
    requires
        pow16(n) <= u32::MAX + 1,
    ensures
        radix16_from(0, hex_text(v, n)) == Ok::<int, HexDigitsError>((v % pow16(n)) as int),
    decreases n,
{
    if n == 0 {
        assert(pow16(0) == 1);
    } else {
        let m = (n - 1) as nat;
        assert(pow16(n) == 16 * pow16(m));
        assert(pow16(m) >= 1) by {
            lemma_pow16_positive(m);
        }
        lemma_hex_text_reads_back(v / 16, m);
        let a = ((v / 16) % pow16(m)) as int;
        let d = (v % 16) as int;
        lemma_radix16_push(0, hex_text(v / 16, m), hex_char(d));
        lemma_hex_char_value(d);
        let p = pow16(m) as int;
        let vi = v as int;
        assert(a * 16 + d == vi % (16 * p) && a * 16 + d < 16 * p) by {
            vstd::arithmetic::div_mod::lemma_breakdown(vi, 16, p);
            vstd::arithmetic::div_mod::lemma_mod_pos_bound(vi / 16, p);
        }
    }
}

/// `16^n` is positive.
proof fn lemma_pow16_positive(n: nat)
    ensures
        pow16(n) >= 1,
    decreases n,
{
    if n > 0 {
        lemma_pow16_positive((n - 1) as nat);
    }
}

/// Law: the text a colour is written as reads back as that colour.
pub proof fn law_hex_text_reads_back(c: Color)
    ensures
        color_from_hex(color_to_hex(c)) == Ok::<Color, ColorHexError>(c),
{
    let opaque = c.spec_alpha() == 0xFF;
    let n: nat = if opaque { 6 } else { 8 };
    let v: nat = if opaque { c.spec_packed() as nat } else { c.0 as nat };
    let t = hex_text(v, n);
    assert(pow16(6) == 16777216) by {
        reveal_with_fuel(pow16, 7);
    }
    assert(pow16(8) == 4294967296) by {
        reveal_with_fuel(pow16, 9);
    }
    lemma_hex_text_reads_back(v, n);
    lemma_hex_text_len(v, n);
    assert(without_hash(color_to_hex(c)) =~= t);
    assert(t.len() > 0);
    if t[0] == '+' {
        assert(hex_digit_value(t[0]) < 0);
        assert(radix16_from(0, t) is Err);
    }
    assert(t != seq!['+']);
    assert(v % pow16(n) == v);
    if opaque {
        assert(c.0 == 0xFF00_0000 + c.spec_packed());
    }
}

/// `hex_text(v, n)` has `n` characters.
proof fn lemma_hex_text_len(v: nat, n: nat)
    ensures
        hex_text(v, n).len() == n,
    decreases n,
{
    if n > 0 {
        lemma_hex_text_len(v / 16, (n - 1) as nat);
    }
}

/// The value of digit `c`, if it is one.
fn digit_value(c: char) -> (v: Option<u32>)
    ensures
        match v {
            Some(x) => x == hex_digit_value(c) && 0 <= hex_digit_value(c) < 16,
            None => hex_digit_value(c) < 0,
        },
{
    if '0' <= c && c <= '9' {
        Some((c as u32) - ('0' as u32))
    } else if 'a' <= c && c <= 'f' {
        Some((c as u32) - ('a' as u32) + 10)
    } else if 'A' <= c && c <= 'F' {
        Some((c as u32) - ('A' as u32) + 10)
    } else {
        None
    }
}

/// Read `d[start..]` as hexadecimal digits.
fn read_digits(d: &Vec<char>, start: usize) -> (r: Result<u32, HexDigitsError>)
    requires
        start <= d@.len(),
    ensures
        match r {
            Ok(v) => radix16_from(0, d@.subrange(start as int, d@.len() as int)) == Ok::<
                int,
                HexDigitsError,
            >(v as int),
            Err(e) => radix16_from(0, d@.subrange(start as int, d@.len() as int)) == Err::<
                int,
                HexDigitsError,
            >(e),
        },
{
    let n = d.len();
    let mut acc: u32 = 0;
    let mut i: usize = start;
    while i < n
        invariant
            n == d@.len(),
            start <= i <= n,
            radix16_from(0, d@.subrange(start as int, n as int)) == radix16_from(
                acc as int,
                d@.subrange(i as int, n as int),
            ),
        decreases n - i,
    {
        let rest = Ghost(d@.subrange(i as int, n as int));
        proof {
            assert(rest@[0] == d@[i as int]);
            assert(rest@.drop_first() =~= d@.subrange(i + 1, n as int));
        }
        match digit_value(d[i]) {
            None => {
                return Err(HexDigitsError::InvalidDigit);
            },
            Some(x) => {
                if acc > (u32::MAX - x) / 16 {
                    assert(acc * 16 + x > u32::MAX) by (nonlinear_arith)
                        requires
                            acc > (u32::MAX - x) / 16,
                            x < 16,
                    ;
                    return Err(HexDigitsError::PosOverflow);
                }
                assert(acc * 16 + x <= u32::MAX) by (nonlinear_arith)
                    requires
                        acc <= (u32::MAX - x) / 16,
                        x < 16,
                ;
                acc = acc * 16 + x;
            },
        }
        i = i + 1;
    }
    Ok(acc)
}

impl Color {
    /// Read a colour from `#RRGGBB` (opaque) or `#AARRGGBB` text; the `#` is
    /// optional.
    pub fn from_hex(s: &str) -> (r: Result<Color, ColorHexError>)
        ensures
            r == color_from_hex(s@),
    {
        let cs = chars_of(s);
        let n = cs.len();
        let start: usize = if n > 0 && cs[0] == '#' {
            1
        } else {
            0
        };
        let ghost hex = without_hash(s@);
        proof {
            assert(hex =~= cs@.subrange(start as int, n as int));
        }
        if start == n {
            return Err(ColorHexError::Digits(HexDigitsError::Empty));
        }
        let signed = cs[start] == '+';
        if signed && start + 1 == n {
            proof {
                assert(hex =~= seq!['+']);
            }
            return Err(ColorHexError::Digits(HexDigitsError::InvalidDigit));
        }
        proof {
            if signed {
                assert(hex != seq!['+']);
                assert(hex.drop_first() =~= cs@.subrange(start + 1, n as int));
            } else {
                assert(hex != seq!['+']);
            }
        }
        let digits_from: usize = if signed {
            start + 1
        } else {
            start
        };
        match read_digits(&cs, digits_from) {
            Err(e) => Err(ColorHexError::Digits(e)),
            Ok(v) => {
                let len = n - start;
                if len == 6 {
                    proof {
                        lemma_radix16_bound(0, cs@.subrange(digits_from as int, n as int));
                        assert(pow16(0) == 1);
                        assert(pow16(1) == 16);
                        assert(pow16(2) == 256);
                        assert(pow16(3) == 4096);
                        assert(pow16(4) == 65536);
                        assert(pow16(5) == 1048576);
                        assert(pow16(6) == 16777216);
                    }
                    assert(v < 0x100_0000);
                    assert(0xFF00_0000u32 | v == 0xFF00_0000u32 + v) by (bit_vector)
                        requires
                            v < 0x100_0000u32,
                    ;
                    Ok(Color(0xFF00_0000 | v))
                } else if len == 8 {
                    Ok(Color(v))
                } else {
                    Err(ColorHexError::BadLength)
                }
            },
        }
    }

    /// This colour as text: `#RRGGBB` when opaque, else `#AARRGGBB`, in
    /// uppercase digits.
    pub fn to_hex(self) -> (s: String)
        ensures
            s@ == color_to_hex(self),
    {
        let mut out: Vec<char> = Vec::new();
        out.push('#');
        if self.alpha() == 0xFF {
            push_hex(&mut out, self.packed(), 6);
        } else {
            push_hex(&mut out, self.0, 8);
        }
        proof {
            assert(out@ =~= color_to_hex(self));
        }
        string_from_chars(&out)
    }
}

/// The uppercase hexadecimal digit for `d`.
fn hex_digit(d: u32) -> (c: char)
    requires
        d < 16,
    ensures
        c == hex_char(d as int),
{
    if d < 10 {
        ((d as u8) + 48u8) as char
    } else {
        ((d as u8) + 55u8) as char
    }
}

/// Append the low `n` hexadecimal digits of `v` to `out`.
fn push_hex(out: &mut Vec<char>, v: u32, n: u32)
    ensures
        final(out)@ == old(out)@ + hex_text(v as nat, n as nat),
    decreases n,
{
    if n > 0 {
        push_hex(out, v / 16, n - 1);
        out.push(hex_digit(v % 16));
        proof {
            assert(out@ =~= old(out)@ + hex_text(v as nat, n as nat));
        }
    } else {
        proof {
            assert(out@ =~= old(out)@ + hex_text(v as nat, n as nat));
        }
    }
}

} // verus!
