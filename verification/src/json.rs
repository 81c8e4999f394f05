//! Byte-level parser for one newline-delimited JSON input line.
//!
//! The pipeline reads only a fixed slice of each line — the `metadata`
//! member, its `type` discriminator, and the fields of the two record
//! shapes it knows. Those parts are parsed strictly; members the
//! pipeline does not read are skipped by bracket matching without
//! further validation, repeated member names take the last occurrence,
//! and a trailing comma before a closing bracket is tolerated. A line
//! the parser cannot make sense of is dropped by the caller, never
//! fatal. Every routine here is defined twice: a specification
//! function that is the grammar, and an executable twin proved equal
//! to it. String content is carried as unescaped UTF-8 bytes.

use vstd::prelude::*;
use crate::records::{TitleRecord, TitleRecordV, HoldingsRecord, RawRecord, JsonRecord, opt_bytes_view, bytes_views};

verus! {

/// JSON whitespace.
pub open spec fn is_ws(b: u8) -> bool {
    b == 0x20 || b == 0x09 || b == 0x0a || b == 0x0d
}

/// First position at or after `i` that does not hold whitespace.
pub open spec fn spec_skip_ws(s: Seq<u8>, i: int) -> int
    decreases s.len() - i,
{
    if 0 <= i < s.len() && is_ws(s[i]) {
        spec_skip_ws(s, i + 1)
    } else {
        i
    }
}

/// Advance past whitespace.
pub fn skip_ws(s: &[u8], i: usize) -> (r: usize)
    requires
        i <= s@.len(),
    ensures
        i <= r <= s@.len(),
        r as int == spec_skip_ws(s@, i as int),
    decreases s@.len() - i,
{
    if i < s.len() {
        let b = s[i];
        if b == 0x20 || b == 0x09 || b == 0x0a || b == 0x0d {
            return skip_ws(s, i + 1);
        }
    }
    i
}

/// Value of one hexadecimal digit.
pub open spec fn spec_hex_val(b: u8) -> Option<u8> {
    if 0x30 <= b <= 0x39 {
        Option::Some((b - 0x30) as u8)
    } else if 0x61 <= b <= 0x66 {
        Option::Some((b - 0x57) as u8)
    } else if 0x41 <= b <= 0x46 {
        Option::Some((b - 0x37) as u8)
    } else {
        Option::None
    }
}

/// Value of a four-digit hexadecimal escape at `i`.
pub open spec fn spec_hex4(s: Seq<u8>, i: int) -> Option<u32> {
    if 0 <= i && i + 4 <= s.len() {
        match (spec_hex_val(s[i]), spec_hex_val(s[i + 1]), spec_hex_val(s[i + 2]), spec_hex_val(
            s[i + 3],
        )) {
            (Option::Some(a), Option::Some(b), Option::Some(c), Option::Some(d)) => Option::Some(
                (a * 4096 + b * 256 + c * 16 + d) as u32,
            ),
            _ => Option::None,
        }
    } else {
        Option::None
    }
}

/// Read one hexadecimal digit.
pub fn hex_val(b: u8) -> (r: Option<u8>)
    ensures
        r == spec_hex_val(b),
{
    if b >= 0x30 && b <= 0x39 {
        Some(b - 0x30)
    } else if b >= 0x61 && b <= 0x66 {
        Some(b - 0x57)
    } else if b >= 0x41 && b <= 0x46 {
        Some(b - 0x37)
    } else {
        None
    }
}

/// Read a four-digit hexadecimal escape at `i`.
pub fn hex4(s: &[u8], i: usize) -> (r: Option<u32>)
    requires
        i <= s@.len(),
    ensures
        r == spec_hex4(s@, i as int),
        r is Some ==> i + 4 <= s@.len(),
{
    if s.len() - i < 4 {
        return None;
    }
    let a = hex_val(s[i]);
    let b = hex_val(s[i + 1]);
    let c = hex_val(s[i + 2]);
    let d = hex_val(s[i + 3]);
    match (a, b, c, d) {
        (Some(a), Some(b), Some(c), Some(d)) => Some(
            a as u32 * 4096 + b as u32 * 256 + c as u32 * 16 + d as u32,
        ),
        _ => None,
    }
}

/// UTF-8 encoding of a code point.
pub open spec fn spec_utf8_bytes(cp: u32) -> Seq<u8> {
    if cp < 0x80 {
        seq![cp as u8]
    } else if cp < 0x800 {
        seq![(0xC0 + cp / 0x40) as u8, (0x80 + cp % 0x40) as u8]
    } else if cp < 0x10000 {
        seq![
            (0xE0 + cp / 0x1000) as u8,
            (0x80 + (cp / 0x40) % 0x40) as u8,
            (0x80 + cp % 0x40) as u8,
        ]
    } else {
        seq![
            (0xF0 + cp / 0x40000) as u8,
            (0x80 + (cp / 0x1000) % 0x40) as u8,
            (0x80 + (cp / 0x40) % 0x40) as u8,
            (0x80 + cp % 0x40) as u8,
        ]
    }
}

/// Append the UTF-8 encoding of a code point.
pub fn push_utf8(out: &mut Vec<u8>, cp: u32)
    requires
        cp < 0x110000,
    ensures
        final(out)@ == old(out)@ + spec_utf8_bytes(cp),
{
    if cp < 0x80 {
        out.push(cp as u8);
        proof {
            assert(final(out)@ =~= old(out)@ + spec_utf8_bytes(cp));
        }
    } else if cp < 0x800 {
        out.push((0xC0 + cp / 0x40) as u8);
        out.push((0x80 + cp % 0x40) as u8);
        proof {
            assert(final(out)@ =~= old(out)@ + spec_utf8_bytes(cp));
        }
    } else if cp < 0x10000 {
        out.push((0xE0 + cp / 0x1000) as u8);
        out.push((0x80 + (cp / 0x40) % 0x40) as u8);
        out.push((0x80 + cp % 0x40) as u8);
        proof {
            assert(final(out)@ =~= old(out)@ + spec_utf8_bytes(cp));
        }
    } else {
        out.push((0xF0 + cp / 0x40000) as u8);
        out.push((0x80 + (cp / 0x1000) % 0x40) as u8);
        out.push((0x80 + (cp / 0x40) % 0x40) as u8);
        out.push((0x80 + cp % 0x40) as u8);
        proof {
            assert(final(out)@ =~= old(out)@ + spec_utf8_bytes(cp));
        }
    }
}

/// Body of a string literal from `i` (after the opening quote) to its
/// closing quote: `acc` plus the remaining unescaped content, and the
/// position after the closing quote. Escapes cover the JSON simple
/// escapes and `\u` with surrogate pairs; an unescaped control byte,
/// a lone surrogate, or an unterminated string yields nothing.
pub open spec fn spec_str_body(s: Seq<u8>, i: int, acc: Seq<u8>) -> Option<(Seq<u8>, int)>
    decreases s.len() - i,
{
    if i < 0 || i >= s.len() {
        Option::None
    } else {
        let b = s[i];
        if b == 0x22 {
            Option::Some((acc, i + 1))
        } else if b == 0x5c {
            if i + 1 >= s.len() {
                Option::None
            } else {
                let e = s[i + 1];
                if e == 0x22 || e == 0x5c || e == 0x2f {
                    spec_str_body(s, i + 2, acc.push(e))
                } else if e == 0x62 {
                    spec_str_body(s, i + 2, acc.push(0x08))
                } else if e == 0x66 {
                    spec_str_body(s, i + 2, acc.push(0x0c))
                } else if e == 0x6e {
                    spec_str_body(s, i + 2, acc.push(0x0a))
                } else if e == 0x72 {
                    spec_str_body(s, i + 2, acc.push(0x0d))
                } else if e == 0x74 {
                    spec_str_body(s, i + 2, acc.push(0x09))
                } else if e == 0x75 {
                    match spec_hex4(s, i + 2) {
                        Option::Some(cp) => {
                            if 0xD800 <= cp < 0xDC00 {
                                if i + 12 <= s.len() && s[i + 6] == 0x5c && s[i + 7] == 0x75 {
                                    match spec_hex4(s, i + 8) {
                                        Option::Some(lo) => {
                                            if 0xDC00 <= lo < 0xE000 {
                                                spec_str_body(
                                                    s,
                                                    i + 12,
                                                    acc + spec_utf8_bytes(
                                                        (0x10000 + (cp - 0xD800) * 0x400 + (lo
                                                            - 0xDC00)) as u32,
                                                    ),
                                                )
                                            } else {
                                                Option::None
                                            }
                                        },
                                        Option::None => Option::None,
                                    }
                                } else {
                                    Option::None
                                }
                            } else if 0xDC00 <= cp < 0xE000 {
                                Option::None
                            } else {
                                spec_str_body(s, i + 6, acc + spec_utf8_bytes(cp))
                            }
                        },
                        Option::None => Option::None,
                    }
                } else {
                    Option::None
                }
            }
        } else if b < 0x20 {
            Option::None
        } else {
            spec_str_body(s, i + 1, acc.push(b))
        }
    }
}

/// A string literal starting with its opening quote at `i`.
pub open spec fn spec_parse_string(s: Seq<u8>, i: int) -> Option<(Seq<u8>, int)> {
    if 0 <= i < s.len() && s[i] == 0x22 {
        spec_str_body(s, i + 1, Seq::empty())
    } else {
        Option::None
    }
}

/// Executable twin of [`spec_str_body`].
fn str_body(s: &[u8], i: usize, acc: Vec<u8>) -> (r: Option<(Vec<u8>, usize)>)
    requires
        i <= s@.len(),
    ensures
        match r {
            Option::Some(p) => spec_str_body(s@, i as int, acc@) == Option::Some(
                (p.0@, p.1 as int),
            ) && i < p.1 <= s@.len(),
            Option::None => spec_str_body(s@, i as int, acc@) is None,
        },
    decreases s@.len() - i,
{
    if i >= s.len() {
        return None;
    }
    let b = s[i];
    if b == 0x22 {
        Some((acc, i + 1))
    } else if b == 0x5c {
        if i + 1 >= s.len() {
            return None;
        }
        let e = s[i + 1];
        if e == 0x22 || e == 0x5c || e == 0x2f {
            let mut acc2 = acc;
            acc2.push(e);
            str_body(s, i + 2, acc2)
        } else if e == 0x62 {
            let mut acc2 = acc;
            acc2.push(0x08);
            str_body(s, i + 2, acc2)
        } else if e == 0x66 {
            let mut acc2 = acc;
            acc2.push(0x0c);
            str_body(s, i + 2, acc2)
        } else if e == 0x6e {
            let mut acc2 = acc;
            acc2.push(0x0a);
            str_body(s, i + 2, acc2)
        } else if e == 0x72 {
            let mut acc2 = acc;
            acc2.push(0x0d);
            str_body(s, i + 2, acc2)
        } else if e == 0x74 {
            let mut acc2 = acc;
            acc2.push(0x09);
            str_body(s, i + 2, acc2)
        } else if e == 0x75 {
            match hex4(s, i + 2) {
                Some(cp) => {
                    if 0xD800 <= cp && cp < 0xDC00 {
                        if s.len() - i >= 12 && s[i + 6] == 0x5c && s[i + 7] == 0x75 {
                            match hex4(s, i + 8) {
                                Some(lo) => {
                                    if 0xDC00 <= lo && lo < 0xE000 {
                                        let full: u32 = 0x10000 + (cp - 0xD800) * 0x400 + (lo
                                            - 0xDC00);
                                        let mut acc2 = acc;
                                        push_utf8(&mut acc2, full);
                                        str_body(s, i + 12, acc2)
                                    } else {
                                        None
                                    }
                                },
                                None => None,
                            }
                        } else {
                            None
                        }
                    } else if 0xDC00 <= cp && cp < 0xE000 {
                        None
                    } else {
                        let mut acc2 = acc;
                        push_utf8(&mut acc2, cp);
                        str_body(s, i + 6, acc2)
                    }
                },
                None => None,
            }
        } else {
            None
        }
    } else if b < 0x20 {
        None
    } else {
        let mut acc2 = acc;
        acc2.push(b);
        str_body(s, i + 1, acc2)
    }
}

/// Parse a string literal whose opening quote stands at `i`,
/// returning its unescaped bytes and the position after the closing
/// quote.
pub fn parse_string(s: &[u8], i: usize) -> (r: Option<(Vec<u8>, usize)>)
    requires
        i <= s@.len(),
    ensures
        match r {
            Option::Some(p) => spec_parse_string(s@, i as int) == Option::Some(
                (p.0@, p.1 as int),
            ) && i < p.1 <= s@.len(),
            Option::None => spec_parse_string(s@, i as int) is None,
        },
{
    if i < s.len() && s[i] == 0x22 {
        str_body(s, i + 1, Vec::new())
    } else {
        None
    }
}

/// Digits of an unsigned decimal number from `i`, continuing `acc`:
/// the value and the position after the last digit. A value beyond
/// the unsigned 64-bit range, or a fraction or exponent marker after
/// the digits, yields nothing.
pub open spec fn spec_digits_u64(s: Seq<u8>, i: int, acc: u64) -> Option<(u64, int)>
    decreases s.len() - i,
{
    if 0 <= i < s.len() && 0x30 <= s[i] <= 0x39 {
        if acc * 10 + (s[i] - 0x30) > u64::MAX {
            Option::None
        } else {
            spec_digits_u64(s, i + 1, (acc * 10 + (s[i] - 0x30)) as u64)
        }
    } else if 0 <= i < s.len() && (s[i] == 0x2e || s[i] == 0x65 || s[i] == 0x45) {
        Option::None
    } else {
        Option::Some((acc, i))
    }
}

/// A plain unsigned JSON integer at `i`: no sign, no leading zero, no
/// fraction, no exponent, within the unsigned 64-bit range.
pub open spec fn spec_json_u64(s: Seq<u8>, i: int) -> Option<(u64, int)> {
    if !(0 <= i < s.len() && 0x30 <= s[i] <= 0x39) {
        Option::None
    } else if s[i] == 0x30 && i + 1 < s.len() && 0x30 <= s[i + 1] <= 0x39 {
        Option::None
    } else {
        spec_digits_u64(s, i, 0)
    }
}

/// Executable twin of [`spec_digits_u64`].
fn digits_u64(s: &[u8], i: usize, acc: u64) -> (r: Option<(u64, usize)>)
    requires
        i <= s@.len(),
    ensures
        match r {
            Option::Some(p) => spec_digits_u64(s@, i as int, acc) == Option::Some(
                (p.0, p.1 as int),
            ) && i <= p.1 <= s@.len(),
            Option::None => spec_digits_u64(s@, i as int, acc) is None,
        },
    decreases s@.len() - i,
{
    if i < s.len() && s[i] >= 0x30 && s[i] <= 0x39 {
        let d = s[i] - 0x30;
        if acc > 1_844_674_407_370_955_161 || (acc == 1_844_674_407_370_955_161 && d > 5) {
            assert(acc * 10 + d > u64::MAX);
            None
        } else {
            digits_u64(s, i + 1, acc * 10 + d as u64)
        }
    } else if i < s.len() && (s[i] == 0x2e || s[i] == 0x65 || s[i] == 0x45) {
        None
    } else {
        Some((acc, i))
    }
}

/// Parse a plain unsigned JSON integer at `i`.
pub fn parse_json_u64(s: &[u8], i: usize) -> (r: Option<(u64, usize)>)
    requires
        i <= s@.len(),
    ensures
        match r {
            Option::Some(p) => spec_json_u64(s@, i as int) == Option::Some((p.0, p.1 as int)) && i
                <= p.1 <= s@.len(),
            Option::None => spec_json_u64(s@, i as int) is None,
        },
{
    if !(i < s.len() && s[i] >= 0x30 && s[i] <= 0x39) {
        None
    } else if s[i] == 0x30 && i + 1 < s.len() && s[i + 1] >= 0x30 && s[i + 1] <= 0x39 {
        None
    } else {
        digits_u64(s, i, 0)
    }
}

/// A byte that can stand inside an unquoted scalar token: a letter, a
/// digit, a sign, a dot, or an underscore.
pub open spec fn is_token_byte(b: u8) -> bool {
    (0x30 <= b <= 0x39) || (0x41 <= b <= 0x5a) || (0x61 <= b <= 0x7a) || b == 0x2b || b == 0x2d
        || b == 0x2e || b == 0x5f
}

/// End of a run of token bytes starting at `i`.
pub open spec fn spec_token_end(s: Seq<u8>, i: int) -> int
    decreases s.len() - i,
{
    if 0 <= i < s.len() && is_token_byte(s[i]) {
        spec_token_end(s, i + 1)
    } else {
        i
    }
}

/// Skip an unquoted scalar token (a number, `true`, `false`, `null`).
pub open spec fn spec_skip_token(s: Seq<u8>, i: int) -> Option<int> {
    if 0 <= i < s.len() && is_token_byte(s[i]) {
        Option::Some(spec_token_end(s, i + 1))
    } else {
        Option::None
    }
}

/// Executable twin of [`spec_token_end`].
fn token_end(s: &[u8], i: usize) -> (r: usize)
    requires
        i <= s@.len(),
    ensures
        i <= r <= s@.len(),
        r as int == spec_token_end(s@, i as int),
    decreases s@.len() - i,
{
    if i < s.len() {
        let b = s[i];
        if (b >= 0x30 && b <= 0x39) || (b >= 0x41 && b <= 0x5a) || (b >= 0x61 && b <= 0x7a) || b
            == 0x2b || b == 0x2d || b == 0x2e || b == 0x5f {
            return token_end(s, i + 1);
        }
    }
    i
}

/// Skip the rest of a string literal from `i` (after its opening
/// quote) without unescaping, for content the pipeline does not read.
pub open spec fn spec_skip_string_raw(s: Seq<u8>, i: int) -> Option<int>
    decreases s.len() - i,
{
    if i < 0 || i >= s.len() {
        Option::None
    } else if s[i] == 0x22 {
        Option::Some(i + 1)
    } else if s[i] == 0x5c {
        if i + 1 < s.len() {
            spec_skip_string_raw(s, i + 2)
        } else {
            Option::None
        }
    } else {
        spec_skip_string_raw(s, i + 1)
    }
}

/// Executable twin of [`spec_skip_string_raw`].
fn skip_string_raw(s: &[u8], i: usize) -> (r: Option<usize>)
    requires
        i <= s@.len(),
    ensures
        match r {
            Option::Some(j) => spec_skip_string_raw(s@, i as int) == Option::Some(j as int) && i
                < j <= s@.len(),
            Option::None => spec_skip_string_raw(s@, i as int) is None,
        },
    decreases s@.len() - i,
{
    if i >= s.len() {
        None
    } else if s[i] == 0x22 {
        Some(i + 1)
    } else if s[i] == 0x5c {
        if i + 1 < s.len() {
            skip_string_raw(s, i + 2)
        } else {
            None
        }
    } else {
        skip_string_raw(s, i + 1)
    }
}

/// Scan forward from inside a bracketed value, tracking bracket depth
/// and string state byte by byte, until the depth returns to zero:
/// the position after the matching closing bracket. Content inside is
/// not otherwise validated.
pub open spec fn spec_skip_brackets(s: Seq<u8>, i: int, depth: int, in_str: bool, esc: bool) -> Option<int>
    decreases s.len() - i,
{
    if i < 0 || i >= s.len() {
        Option::None
    } else if in_str {
        if esc {
            spec_skip_brackets(s, i + 1, depth, true, false)
        } else if s[i] == 0x5c {
            spec_skip_brackets(s, i + 1, depth, true, true)
        } else if s[i] == 0x22 {
            spec_skip_brackets(s, i + 1, depth, false, false)
        } else {
            spec_skip_brackets(s, i + 1, depth, true, false)
        }
    } else if s[i] == 0x7b || s[i] == 0x5b {
        spec_skip_brackets(s, i + 1, depth + 1, false, false)
    } else if s[i] == 0x7d || s[i] == 0x5d {
        if depth == 1 {
            Option::Some(i + 1)
        } else if depth <= 1 {
            Option::None
        } else {
            spec_skip_brackets(s, i + 1, depth - 1, false, false)
        }
    } else if s[i] == 0x22 {
        spec_skip_brackets(s, i + 1, depth, true, false)
    } else {
        spec_skip_brackets(s, i + 1, depth, false, false)
    }
}

/// Executable twin of [`spec_skip_brackets`].
fn skip_brackets(s: &[u8], i: usize, depth: u128, in_str: bool, esc: bool) -> (r: Option<usize>)
    requires
        i <= s@.len(),
        depth as int <= i as int + 1,
    ensures
        match r {
            Option::Some(j) => spec_skip_brackets(s@, i as int, depth as int, in_str, esc)
                == Option::Some(j as int) && i < j <= s@.len(),
            Option::None => spec_skip_brackets(s@, i as int, depth as int, in_str, esc) is None,
        },
    decreases s@.len() - i,
{
    if i >= s.len() {
        None
    } else if in_str {
        if esc {
            skip_brackets(s, i + 1, depth, true, false)
        } else if s[i] == 0x5c {
            skip_brackets(s, i + 1, depth, true, true)
        } else if s[i] == 0x22 {
            skip_brackets(s, i + 1, depth, false, false)
        } else {
            skip_brackets(s, i + 1, depth, true, false)
        }
    } else if s[i] == 0x7b || s[i] == 0x5b {
        skip_brackets(s, i + 1, depth + 1, false, false)
    } else if s[i] == 0x7d || s[i] == 0x5d {
        if depth == 1 {
            Some(i + 1)
        } else if depth <= 1 {
            None
        } else {
            skip_brackets(s, i + 1, depth - 1, false, false)
        }
    } else if s[i] == 0x22 {
        skip_brackets(s, i + 1, depth, true, false)
    } else {
        skip_brackets(s, i + 1, depth, false, false)
    }
}

/// Skip one value the pipeline does not read: leading whitespace,
/// then a string, a bracketed value, or a scalar token.
pub open spec fn spec_skip_value(s: Seq<u8>, i: int) -> Option<int> {
    let j = spec_skip_ws(s, i);
    if !(0 <= j < s.len()) {
        Option::None
    } else if s[j] == 0x22 {
        spec_skip_string_raw(s, j + 1)
    } else if s[j] == 0x7b || s[j] == 0x5b {
        spec_skip_brackets(s, j + 1, 1, false, false)
    } else if is_token_byte(s[j]) {
        Option::Some(spec_token_end(s, j + 1))
    } else {
        Option::None
    }
}

/// Executable twin of [`spec_skip_value`].
pub fn skip_value(s: &[u8], i: usize) -> (r: Option<usize>)
    requires
        i <= s@.len(),
    ensures
        match r {
            Option::Some(j) => spec_skip_value(s@, i as int) == Option::Some(j as int) && i < j
                <= s@.len(),
            Option::None => spec_skip_value(s@, i as int) is None,
        },
{
    let j = skip_ws(s, i);
    if j >= s.len() {
        None
    } else if s[j] == 0x22 {
        skip_string_raw(s, j + 1)
    } else if s[j] == 0x7b || s[j] == 0x5b {
        skip_brackets(s, j + 1, 1, false, false)
    } else {
        let b = s[j];
        if (b >= 0x30 && b <= 0x39) || (b >= 0x41 && b <= 0x5a) || (b >= 0x61 && b <= 0x7a) || b
            == 0x2b || b == 0x2d || b == 0x2e || b == 0x5f {
            Some(token_end(s, j + 1))
        } else {
            None
        }
    }
}

/// Partial content of a title record object while its members are
/// being read: absent fields still unseen.
pub struct TitleAccV {
    pub oclc: Option<Seq<u8>>,
    pub title: Option<Seq<u8>>,
    pub creator: Option<Seq<u8>>,
    pub isbns: Option<Seq<Seq<u8>>>,
    pub mrd: Option<Seq<u8>>,
    pub date: Option<Seq<u8>>,
    pub pubd: Option<Seq<u8>>,
}

/// Executable twin of [`TitleAccV`].
pub struct TitleAcc {
    pub oclc: Option<Vec<u8>>,
    pub title: Option<Vec<u8>>,
    pub creator: Option<Vec<u8>>,
    pub isbns: Option<Vec<Vec<u8>>>,
    pub mrd: Option<Vec<u8>>,
    pub date: Option<Vec<u8>>,
    pub pubd: Option<Vec<u8>>,
}

impl View for TitleAcc {
    type V = TitleAccV;

    open spec fn view(&self) -> TitleAccV {
        TitleAccV {
            oclc: opt_bytes_view(self.oclc),
            title: opt_bytes_view(self.title),
            creator: opt_bytes_view(self.creator),
            isbns: match self.isbns {
                Option::Some(v) => Option::Some(bytes_views(v@)),
                Option::None => Option::None,
            },
            mrd: opt_bytes_view(self.mrd),
            date: opt_bytes_view(self.date),
            pubd: opt_bytes_view(self.pubd),
        }
    }
}

/// A string value or a JSON `null` at `i`.
pub open spec fn spec_opt_string(s: Seq<u8>, i: int) -> Option<(Option<Seq<u8>>, int)> {
    if 0 <= i < s.len() && s[i] == 0x22 {
        match spec_parse_string(s, i) {
            Option::Some(p) => Option::Some((Option::Some(p.0), p.1)),
            Option::None => Option::None,
        }
    } else if 0 <= i && i + 4 <= s.len() && s[i] == 0x6e && s[i + 1] == 0x75 && s[i + 2] == 0x6c
        && s[i + 3] == 0x6c {
        Option::Some((Option::None, i + 4))
    } else {
        Option::None
    }
}

/// Parse a string value or a JSON `null`.
pub fn parse_opt_string(s: &[u8], i: usize) -> (r: Option<(Option<Vec<u8>>, usize)>)
    requires
        i <= s@.len(),
    ensures
        match r {
            Option::Some(p) => spec_opt_string(s@, i as int) == Option::Some(
                (opt_bytes_view(p.0), p.1 as int),
            ) && i < p.1 <= s@.len(),
            Option::None => spec_opt_string(s@, i as int) is None,
        },
{
    if i < s.len() && s[i] == 0x22 {
        match parse_string(s, i) {
            Some(p) => Some((Some(p.0), p.1)),
            None => None,
        }
    } else if s.len() - i >= 4 && s[i] == 0x6e && s[i + 1] == 0x75 && s[i + 2] == 0x6c && s[i + 3]
        == 0x6c {
        Some((None, i + 4))
    } else {
        None
    }
}

/// Members of an ISBN array from `i` (after the opening bracket):
/// string elements separated by commas up to the closing bracket.
pub open spec fn spec_isbn_array_items(s: Seq<u8>, i: int, acc: Seq<Seq<u8>>, fuel: nat) -> Option<
    (Seq<Seq<u8>>, int),
>
    decreases fuel,
{
    if fuel == 0 {
        Option::None
    } else {
        let j = spec_skip_ws(s, i);
        if !(0 <= j < s.len()) {
            Option::None
        } else if s[j] == 0x5d {
            Option::Some((acc, j + 1))
        } else {
            match spec_parse_string(s, j) {
                Option::None => Option::None,
                Option::Some(p) => {
                    let j3 = spec_skip_ws(s, p.1);
                    if !(j3 < s.len()) {
                        Option::None
                    } else if s[j3] == 0x2c {
                        spec_isbn_array_items(s, j3 + 1, acc.push(p.0), (fuel - 1) as nat)
                    } else if s[j3] == 0x5d {
                        Option::Some((acc.push(p.0), j3 + 1))
                    } else {
                        Option::None
                    }
                },
            }
        }
    }
}

/// An ISBN array value at `i`.
pub open spec fn spec_isbn_array(s: Seq<u8>, i: int, fuel: nat) -> Option<(Seq<Seq<u8>>, int)> {
    if 0 <= i < s.len() && s[i] == 0x5b {
        spec_isbn_array_items(s, i + 1, Seq::empty(), fuel)
    } else {
        Option::None
    }
}

/// Executable twin of [`spec_isbn_array_items`].
fn isbn_array_items(s: &[u8], i: usize, acc: Vec<Vec<u8>>, Ghost(fuel): Ghost<nat>) -> (r: Option<
    (Vec<Vec<u8>>, usize),
>)
    requires
        i <= s@.len(),
        fuel >= s@.len() - i + 1,
    ensures
        match r {
            Option::Some(p) => spec_isbn_array_items(s@, i as int, bytes_views(acc@), fuel)
                == Option::Some((bytes_views(p.0@), p.1 as int)) && i < p.1 <= s@.len(),
            Option::None => spec_isbn_array_items(s@, i as int, bytes_views(acc@), fuel) is None,
        },
    decreases s@.len() - i,
{
    let j = skip_ws(s, i);
    if j >= s.len() {
        None
    } else if s[j] == 0x5d {
        Some((acc, j + 1))
    } else {
        match parse_string(s, j) {
            None => None,
            Some((v, j2)) => {
                let j3 = skip_ws(s, j2);
                if j3 >= s.len() {
                    None
                } else if s[j3] == 0x2c {
                    let ghost old_views = bytes_views(acc@);
                    let mut acc2 = acc;
                    acc2.push(v);
                    proof {
                        assert(bytes_views(acc2@) =~= old_views.push(acc2@[acc2@.len() - 1]@));
                    }
                    isbn_array_items(s, j3 + 1, acc2, Ghost((fuel - 1) as nat))
                } else if s[j3] == 0x5d {
                    let ghost old_views = bytes_views(acc@);
                    let mut acc2 = acc;
                    acc2.push(v);
                    proof {
                        assert(bytes_views(acc2@) =~= old_views.push(acc2@[acc2@.len() - 1]@));
                    }
                    Some((acc2, j3 + 1))
                } else {
                    None
                }
            },
        }
    }
}

/// Executable twin of [`spec_isbn_array`].
fn parse_isbn_array(s: &[u8], i: usize, Ghost(fuel): Ghost<nat>) -> (r: Option<(Vec<Vec<u8>>, usize)>)
    requires
        i <= s@.len(),
        fuel >= s@.len() - i + 1,
    ensures
        match r {
            Option::Some(p) => spec_isbn_array(s@, i as int, fuel) == Option::Some(
                (bytes_views(p.0@), p.1 as int),
            ) && i < p.1 <= s@.len(),
            Option::None => spec_isbn_array(s@, i as int, fuel) is None,
        },
{
    if i < s.len() && s[i] == 0x5b {
        proof {
            assert(bytes_views(Seq::<Vec<u8>>::empty()) =~= Seq::<Seq<u8>>::empty());
        }
        isbn_array_items(s, i + 1, Vec::new(), Ghost(fuel))
    } else {
        None
    }
}

/// Members of a title record object from `i` (after the opening
/// brace): known members are parsed strictly into the accumulator,
/// the last occurrence winning; unknown members are skipped.
pub open spec fn spec_title_members(s: Seq<u8>, i: int, acc: TitleAccV, fuel: nat) -> Option<
    (TitleAccV, int),
>
    decreases fuel,
{
    if fuel == 0 {
        Option::None
    } else {
        let j = spec_skip_ws(s, i);
        if !(0 <= j < s.len()) {
            Option::None
        } else if s[j] == 0x7d {
            Option::Some((acc, j + 1))
        } else {
            match spec_parse_string(s, j) {
                Option::None => Option::None,
                Option::Some(kp) => {
                    let j3 = spec_skip_ws(s, kp.1);
                    if !(j3 < s.len() && s[j3] == 0x3a) {
                        Option::None
                    } else {
                        let j4 = spec_skip_ws(s, j3 + 1);
                        let step: Option<(TitleAccV, int)> = if kp.0
                            == crate::json_keys::key_oclc_number_title() {
                            match spec_parse_string(s, j4) {
                                Option::Some(vp) => Option::Some(
                                    (TitleAccV { oclc: Option::Some(vp.0), ..acc }, vp.1),
                                ),
                                Option::None => Option::None,
                            }
                        } else if kp.0 == crate::json_keys::key_title() {
                            match spec_opt_string(s, j4) {
                                Option::Some(vp) => Option::Some(
                                    (TitleAccV { title: vp.0, ..acc }, vp.1),
                                ),
                                Option::None => Option::None,
                            }
                        } else if kp.0 == crate::json_keys::key_creator() {
                            match spec_opt_string(s, j4) {
                                Option::Some(vp) => Option::Some(
                                    (TitleAccV { creator: vp.0, ..acc }, vp.1),
                                ),
                                Option::None => Option::None,
                            }
                        } else if kp.0 == crate::json_keys::key_isbns() {
                            match spec_isbn_array(s, j4, (fuel - 1) as nat) {
                                Option::Some(vp) => Option::Some(
                                    (TitleAccV { isbns: Option::Some(vp.0), ..acc }, vp.1),
                                ),
                                Option::None => Option::None,
                            }
                        } else if kp.0 == crate::json_keys::key_machine_readable_date() {
                            match spec_opt_string(s, j4) {
                                Option::Some(vp) => Option::Some(
                                    (TitleAccV { mrd: vp.0, ..acc }, vp.1),
                                ),
                                Option::None => Option::None,
                            }
                        } else if kp.0 == crate::json_keys::key_date() {
                            match spec_opt_string(s, j4) {
                                Option::Some(vp) => Option::Some(
                                    (TitleAccV { date: vp.0, ..acc }, vp.1),
                                ),
                                Option::None => Option::None,
                            }
                        } else if kp.0 == crate::json_keys::key_publication_date() {
                            match spec_opt_string(s, j4) {
                                Option::Some(vp) => Option::Some(
                                    (TitleAccV { pubd: vp.0, ..acc }, vp.1),
                                ),
                                Option::None => Option::None,
                            }
                        } else {
                            match spec_skip_value(s, j4) {
                                Option::Some(j5) => Option::Some((acc, j5)),
                                Option::None => Option::None,
                            }
                        };
                        match step {
                            Option::None => Option::None,
                            Option::Some(sp) => {
                                let j6 = spec_skip_ws(s, sp.1);
                                if !(j6 < s.len()) {
                                    Option::None
                                } else if s[j6] == 0x2c {
                                    spec_title_members(s, j6 + 1, sp.0, (fuel - 1) as nat)
                                } else if s[j6] == 0x7d {
                                    Option::Some((sp.0, j6 + 1))
                                } else {
                                    Option::None
                                }
                            },
                        }
                    }
                },
            }
        }
    }
}

/// A title record object at `i`.
pub open spec fn spec_title_object(s: Seq<u8>, i: int, fuel: nat) -> Option<(TitleAccV, int)> {
    if 0 <= i < s.len() && s[i] == 0x7b {
        spec_title_members(
            s,
            i + 1,
            TitleAccV {
                oclc: Option::None,
                title: Option::None,
                creator: Option::None,
                isbns: Option::None,
                mrd: Option::None,
                date: Option::None,
                pubd: Option::None,
            },
            fuel,
        )
    } else {
        Option::None
    }
}

/// Executable twin of [`spec_title_members`].
fn title_members(s: &[u8], i: usize, acc: TitleAcc, Ghost(fuel): Ghost<nat>) -> (r: Option<
    (TitleAcc, usize),
>)
    requires
        i <= s@.len(),
        fuel >= s@.len() - i + 1,
    ensures
        match r {
            Option::Some(p) => spec_title_members(s@, i as int, acc@, fuel) == Option::Some(
                (p.0@, p.1 as int),
            ) && i < p.1 <= s@.len(),
            Option::None => spec_title_members(s@, i as int, acc@, fuel) is None,
        },
    decreases s@.len() - i,
{
    let j = skip_ws(s, i);
    if j >= s.len() {
        return None;
    }
    if s[j] == 0x7d {
        return Some((acc, j + 1));
    }
    match parse_string(s, j) {
        None => None,
        Some((key, j2)) => {
            let j3 = skip_ws(s, j2);
            if !(j3 < s.len() && s[j3] == 0x3a) {
                return None;
            }
            let j4 = skip_ws(s, j3 + 1);
            let step: Option<(TitleAcc, usize)> = if crate::json_keys::is_key_oclc_number_title(
                &key,
            ) {
                match parse_string(s, j4) {
                    Some((v, j5)) => Some((TitleAcc { oclc: Some(v), ..acc }, j5)),
                    None => None,
                }
            } else if crate::json_keys::is_key_title(&key) {
                match parse_opt_string(s, j4) {
                    Some((v, j5)) => Some((TitleAcc { title: v, ..acc }, j5)),
                    None => None,
                }
            } else if crate::json_keys::is_key_creator(&key) {
                match parse_opt_string(s, j4) {
                    Some((v, j5)) => Some((TitleAcc { creator: v, ..acc }, j5)),
                    None => None,
                }
            } else if crate::json_keys::is_key_isbns(&key) {
                match parse_isbn_array(s, j4, Ghost((fuel - 1) as nat)) {
                    Some((v, j5)) => Some((TitleAcc { isbns: Some(v), ..acc }, j5)),
                    None => None,
                }
            } else if crate::json_keys::is_key_machine_readable_date(&key) {
                match parse_opt_string(s, j4) {
                    Some((v, j5)) => Some((TitleAcc { mrd: v, ..acc }, j5)),
                    None => None,
                }
            } else if crate::json_keys::is_key_date(&key) {
                match parse_opt_string(s, j4) {
                    Some((v, j5)) => Some((TitleAcc { date: v, ..acc }, j5)),
                    None => None,
                }
            } else if crate::json_keys::is_key_publication_date(&key) {
                match parse_opt_string(s, j4) {
                    Some((v, j5)) => Some((TitleAcc { pubd: v, ..acc }, j5)),
                    None => None,
                }
            } else {
                match skip_value(s, j4) {
                    Some(j5) => Some((acc, j5)),
                    None => None,
                }
            };
            match step {
                None => None,
                Some((acc2, j5)) => {
                    let j6 = skip_ws(s, j5);
                    if j6 >= s.len() {
                        None
                    } else if s[j6] == 0x2c {
                        title_members(s, j6 + 1, acc2, Ghost((fuel - 1) as nat))
                    } else if s[j6] == 0x7d {
                        Some((acc2, j6 + 1))
                    } else {
                        None
                    }
                },
            }
        },
    }
}

/// Executable twin of [`spec_title_object`].
fn parse_title_object(s: &[u8], i: usize, Ghost(fuel): Ghost<nat>) -> (r: Option<(TitleAcc, usize)>)
    requires
        i <= s@.len(),
        fuel >= s@.len() - i + 1,
    ensures
        match r {
            Option::Some(p) => spec_title_object(s@, i as int, fuel) == Option::Some(
                (p.0@, p.1 as int),
            ) && i < p.1 <= s@.len(),
            Option::None => spec_title_object(s@, i as int, fuel) is None,
        },
{
    if i < s.len() && s[i] == 0x7b {
        title_members(
            s,
            i + 1,
            TitleAcc {
                oclc: None,
                title: None,
                creator: None,
                isbns: None,
                mrd: None,
                date: None,
                pubd: None,
            },
            Ghost(fuel),
        )
    } else {
        None
    }
}

/// Partial content of a holdings record object.
pub struct HoldingsAcc {
    pub oclc: Option<u64>,
    pub holding: Option<u32>,
    pub editions: Option<u32>,
}

/// Members of a holdings record object from `i` (after the opening
/// brace): the three numeric fields are parsed strictly, unknown
/// members are skipped.
pub open spec fn spec_holdings_members(s: Seq<u8>, i: int, acc: HoldingsAcc, fuel: nat) -> Option<
    (HoldingsAcc, int),
>
    decreases fuel,
{
    if fuel == 0 {
        Option::None
    } else {
        let j = spec_skip_ws(s, i);
        if !(0 <= j < s.len()) {
            Option::None
        } else if s[j] == 0x7d {
            Option::Some((acc, j + 1))
        } else {
            match spec_parse_string(s, j) {
                Option::None => Option::None,
                Option::Some(kp) => {
                    let j3 = spec_skip_ws(s, kp.1);
                    if !(j3 < s.len() && s[j3] == 0x3a) {
                        Option::None
                    } else {
                        let j4 = spec_skip_ws(s, j3 + 1);
                        let step: Option<(HoldingsAcc, int)> = if kp.0
                            == crate::json_keys::key_oclc_number_holdings() {
                            match spec_json_u64(s, j4) {
                                Option::Some(vp) => Option::Some(
                                    (HoldingsAcc { oclc: Option::Some(vp.0), ..acc }, vp.1),
                                ),
                                Option::None => Option::None,
                            }
                        } else if kp.0 == crate::json_keys::key_total_holding_count() {
                            match spec_json_u64(s, j4) {
                                Option::Some(vp) => if vp.0 <= u32::MAX {
                                    Option::Some(
                                        (
                                            HoldingsAcc {
                                                holding: Option::Some(vp.0 as u32),
                                                ..acc
                                            },
                                            vp.1,
                                        ),
                                    )
                                } else {
                                    Option::None
                                },
                                Option::None => Option::None,
                            }
                        } else if kp.0 == crate::json_keys::key_total_editions() {
                            match spec_json_u64(s, j4) {
                                Option::Some(vp) => if vp.0 <= u32::MAX {
                                    Option::Some(
                                        (
                                            HoldingsAcc {
                                                editions: Option::Some(vp.0 as u32),
                                                ..acc
                                            },
                                            vp.1,
                                        ),
                                    )
                                } else {
                                    Option::None
                                },
                                Option::None => Option::None,
                            }
                        } else {
                            match spec_skip_value(s, j4) {
                                Option::Some(j5) => Option::Some((acc, j5)),
                                Option::None => Option::None,
                            }
                        };
                        match step {
                            Option::None => Option::None,
                            Option::Some(sp) => {
                                let j6 = spec_skip_ws(s, sp.1);
                                if !(j6 < s.len()) {
                                    Option::None
                                } else if s[j6] == 0x2c {
                                    spec_holdings_members(s, j6 + 1, sp.0, (fuel - 1) as nat)
                                } else if s[j6] == 0x7d {
                                    Option::Some((sp.0, j6 + 1))
                                } else {
                                    Option::None
                                }
                            },
                        }
                    }
                },
            }
        }
    }
}

/// A holdings record object at `i`.
pub open spec fn spec_holdings_object(s: Seq<u8>, i: int, fuel: nat) -> Option<(HoldingsAcc, int)> {
    if 0 <= i < s.len() && s[i] == 0x7b {
        spec_holdings_members(
            s,
            i + 1,
            HoldingsAcc { oclc: Option::None, holding: Option::None, editions: Option::None },
            fuel,
        )
    } else {
        Option::None
    }
}

/// Executable twin of [`spec_holdings_members`].
fn holdings_members(s: &[u8], i: usize, acc: HoldingsAcc, Ghost(fuel): Ghost<nat>) -> (r: Option<
    (HoldingsAcc, usize),
>)
    requires
        i <= s@.len(),
        fuel >= s@.len() - i + 1,
    ensures
        match r {
            Option::Some(p) => spec_holdings_members(s@, i as int, acc, fuel) == Option::Some(
                (p.0, p.1 as int),
            ) && i < p.1 <= s@.len(),
            Option::None => spec_holdings_members(s@, i as int, acc, fuel) is None,
        },
    decreases s@.len() - i,
{
    let j = skip_ws(s, i);
    if j >= s.len() {
        return None;
    }
    if s[j] == 0x7d {
        return Some((acc, j + 1));
    }
    match parse_string(s, j) {
        None => None,
        Some((key, j2)) => {
            let j3 = skip_ws(s, j2);
            if !(j3 < s.len() && s[j3] == 0x3a) {
                return None;
            }
            let j4 = skip_ws(s, j3 + 1);
            let step: Option<(HoldingsAcc, usize)> = if crate::json_keys::is_key_oclc_number_holdings(
                &key,
            ) {
                match parse_json_u64(s, j4) {
                    Some((v, j5)) => Some((HoldingsAcc { oclc: Some(v), ..acc }, j5)),
                    None => None,
                }
            } else if crate::json_keys::is_key_total_holding_count(&key) {
                match parse_json_u64(s, j4) {
                    Some((v, j5)) => if v <= u32::MAX as u64 {
                        Some((HoldingsAcc { holding: Some(v as u32), ..acc }, j5))
                    } else {
                        None
                    },
                    None => None,
                }
            } else if crate::json_keys::is_key_total_editions(&key) {
                match parse_json_u64(s, j4) {
                    Some((v, j5)) => if v <= u32::MAX as u64 {
                        Some((HoldingsAcc { editions: Some(v as u32), ..acc }, j5))
                    } else {
                        None
                    },
                    None => None,
                }
            } else {
                match skip_value(s, j4) {
                    Some(j5) => Some((acc, j5)),
                    None => None,
                }
            };
            match step {
                None => None,
                Some((acc2, j5)) => {
                    let j6 = skip_ws(s, j5);
                    if j6 >= s.len() {
                        None
                    } else if s[j6] == 0x2c {
                        holdings_members(s, j6 + 1, acc2, Ghost((fuel - 1) as nat))
                    } else if s[j6] == 0x7d {
                        Some((acc2, j6 + 1))
                    } else {
                        None
                    }
                },
            }
        },
    }
}

/// Executable twin of [`spec_holdings_object`].
fn parse_holdings_object(s: &[u8], i: usize, Ghost(fuel): Ghost<nat>) -> (r: Option<
    (HoldingsAcc, usize),
>)
    requires
        i <= s@.len(),
        fuel >= s@.len() - i + 1,
    ensures
        match r {
            Option::Some(p) => spec_holdings_object(s@, i as int, fuel) == Option::Some(
                (p.0, p.1 as int),
            ) && i < p.1 <= s@.len(),
            Option::None => spec_holdings_object(s@, i as int, fuel) is None,
        },
{
    if i < s.len() && s[i] == 0x7b {
        holdings_members(
            s,
            i + 1,
            HoldingsAcc { oclc: None, holding: None, editions: None },
            Ghost(fuel),
        )
    } else {
        None
    }
}

/// What the scan of the `metadata` object remembers: the `type`
/// discriminator and where the `record` value starts.
pub struct MetaAccV {
    pub type_tag: Option<Seq<u8>>,
    pub rec_pos: Option<int>,
}

/// Executable twin of [`MetaAccV`].
pub struct MetaAcc {
    pub type_tag: Option<Vec<u8>>,
    pub rec_pos: Option<usize>,
}

impl View for MetaAcc {
    type V = MetaAccV;

    open spec fn view(&self) -> MetaAccV {
        MetaAccV {
            type_tag: opt_bytes_view(self.type_tag),
            rec_pos: match self.rec_pos {
                Option::Some(p) => Option::Some(p as int),
                Option::None => Option::None,
            },
        }
    }
}

/// Members of the `metadata` object from `i` (after the opening
/// brace): the `type` member must be a string; the `record` member's
/// start position is remembered and its value skipped, to be
/// re-parsed once the discriminator is known; other members are
/// skipped.
pub open spec fn spec_meta_members(s: Seq<u8>, i: int, acc: MetaAccV, fuel: nat) -> Option<
    (MetaAccV, int),
>
    decreases fuel,
{
    if fuel == 0 {
        Option::None
    } else {
        let j = spec_skip_ws(s, i);
        if !(0 <= j < s.len()) {
            Option::None
        } else if s[j] == 0x7d {
            Option::Some((acc, j + 1))
        } else {
            match spec_parse_string(s, j) {
                Option::None => Option::None,
                Option::Some(kp) => {
                    let j3 = spec_skip_ws(s, kp.1);
                    if !(j3 < s.len() && s[j3] == 0x3a) {
                        Option::None
                    } else {
                        let j4 = spec_skip_ws(s, j3 + 1);
                        let step: Option<(MetaAccV, int)> = if kp.0
                            == crate::json_keys::key_type_field() {
                            match spec_parse_string(s, j4) {
                                Option::Some(vp) => Option::Some(
                                    (MetaAccV { type_tag: Option::Some(vp.0), ..acc }, vp.1),
                                ),
                                Option::None => Option::None,
                            }
                        } else if kp.0 == crate::json_keys::key_record() {
                            match spec_skip_value(s, j4) {
                                Option::Some(j5) => Option::Some(
                                    (MetaAccV { rec_pos: Option::Some(j4), ..acc }, j5),
                                ),
                                Option::None => Option::None,
                            }
                        } else {
                            match spec_skip_value(s, j4) {
                                Option::Some(j5) => Option::Some((acc, j5)),
                                Option::None => Option::None,
                            }
                        };
                        match step {
                            Option::None => Option::None,
                            Option::Some(sp) => {
                                let j6 = spec_skip_ws(s, sp.1);
                                if !(j6 < s.len()) {
                                    Option::None
                                } else if s[j6] == 0x2c {
                                    spec_meta_members(s, j6 + 1, sp.0, (fuel - 1) as nat)
                                } else if s[j6] == 0x7d {
                                    Option::Some((sp.0, j6 + 1))
                                } else {
                                    Option::None
                                }
                            },
                        }
                    }
                },
            }
        }
    }
}

/// The `metadata` object at `i`.
pub open spec fn spec_meta_object(s: Seq<u8>, i: int, fuel: nat) -> Option<(MetaAccV, int)> {
    if 0 <= i < s.len() && s[i] == 0x7b {
        spec_meta_members(
            s,
            i + 1,
            MetaAccV { type_tag: Option::None, rec_pos: Option::None },
            fuel,
        )
    } else {
        Option::None
    }
}

/// Executable twin of [`spec_meta_members`].
fn meta_members(s: &[u8], i: usize, acc: MetaAcc, Ghost(fuel): Ghost<nat>) -> (r: Option<
    (MetaAcc, usize),
>)
    requires
        i <= s@.len(),
        fuel >= s@.len() - i + 1,
        acc.rec_pos matches Some(q) ==> q <= s@.len(),
    ensures
        match r {
            Option::Some(p) => spec_meta_members(s@, i as int, acc@, fuel) == Option::Some(
                (p.0@, p.1 as int),
            ) && i < p.1 <= s@.len() && (p.0.rec_pos matches Some(q) ==> q <= s@.len()),
            Option::None => spec_meta_members(s@, i as int, acc@, fuel) is None,
        },
    decreases s@.len() - i,
{
    let j = skip_ws(s, i);
    if j >= s.len() {
        return None;
    }
    if s[j] == 0x7d {
        return Some((acc, j + 1));
    }
    match parse_string(s, j) {
        None => None,
        Some((key, j2)) => {
            let j3 = skip_ws(s, j2);
            if !(j3 < s.len() && s[j3] == 0x3a) {
                return None;
            }
            let j4 = skip_ws(s, j3 + 1);
            let step: Option<(MetaAcc, usize)> = if crate::json_keys::is_key_type_field(&key) {
                match parse_string(s, j4) {
                    Some((v, j5)) => Some((MetaAcc { type_tag: Some(v), ..acc }, j5)),
                    None => None,
                }
            } else if crate::json_keys::is_key_record(&key) {
                match skip_value(s, j4) {
                    Some(j5) => Some((MetaAcc { rec_pos: Some(j4), ..acc }, j5)),
                    None => None,
                }
            } else {
                match skip_value(s, j4) {
                    Some(j5) => Some((acc, j5)),
                    None => None,
                }
            };
            match step {
                None => None,
                Some((acc2, j5)) => {
                    let j6 = skip_ws(s, j5);
                    if j6 >= s.len() {
                        None
                    } else if s[j6] == 0x2c {
                        meta_members(s, j6 + 1, acc2, Ghost((fuel - 1) as nat))
                    } else if s[j6] == 0x7d {
                        Some((acc2, j6 + 1))
                    } else {
                        None
                    }
                },
            }
        },
    }
}

/// Executable twin of [`spec_meta_object`].
fn parse_meta_object(s: &[u8], i: usize, Ghost(fuel): Ghost<nat>) -> (r: Option<(MetaAcc, usize)>)
    requires
        i <= s@.len(),
        fuel >= s@.len() - i + 1,
    ensures
        match r {
            Option::Some(p) => spec_meta_object(s@, i as int, fuel) == Option::Some(
                (p.0@, p.1 as int),
            ) && i < p.1 <= s@.len() && (p.0.rec_pos matches Some(q) ==> q <= s@.len()),
            Option::None => spec_meta_object(s@, i as int, fuel) is None,
        },
{
    if i < s.len() && s[i] == 0x7b {
        meta_members(s, i + 1, MetaAcc { type_tag: None, rec_pos: None }, Ghost(fuel))
    } else {
        None
    }
}

/// Members of the top-level line object from `i` (after the opening
/// brace): the `metadata` member is parsed, the last occurrence
/// winning; other members are skipped.
pub open spec fn spec_top_members(s: Seq<u8>, i: int, acc: Option<MetaAccV>, fuel: nat) -> Option<
    (Option<MetaAccV>, int),
>
    decreases fuel,
{
    if fuel == 0 {
        Option::None
    } else {
        let j = spec_skip_ws(s, i);
        if !(0 <= j < s.len()) {
            Option::None
        } else if s[j] == 0x7d {
            Option::Some((acc, j + 1))
        } else {
            match spec_parse_string(s, j) {
                Option::None => Option::None,
                Option::Some(kp) => {
                    let j3 = spec_skip_ws(s, kp.1);
                    if !(j3 < s.len() && s[j3] == 0x3a) {
                        Option::None
                    } else {
                        let j4 = spec_skip_ws(s, j3 + 1);
                        let step: Option<(Option<MetaAccV>, int)> = if kp.0
                            == crate::json_keys::key_metadata() {
                            match spec_meta_object(s, j4, (fuel - 1) as nat) {
                                Option::Some(vp) => Option::Some((Option::Some(vp.0), vp.1)),
                                Option::None => Option::None,
                            }
                        } else {
                            match spec_skip_value(s, j4) {
                                Option::Some(j5) => Option::Some((acc, j5)),
                                Option::None => Option::None,
                            }
                        };
                        match step {
                            Option::None => Option::None,
                            Option::Some(sp) => {
                                let j6 = spec_skip_ws(s, sp.1);
                                if !(j6 < s.len()) {
                                    Option::None
                                } else if s[j6] == 0x2c {
                                    spec_top_members(s, j6 + 1, sp.0, (fuel - 1) as nat)
                                } else if s[j6] == 0x7d {
                                    Option::Some((sp.0, j6 + 1))
                                } else {
                                    Option::None
                                }
                            },
                        }
                    }
                },
            }
        }
    }
}

/// Executable twin of [`spec_top_members`].
fn top_members(s: &[u8], i: usize, acc: Option<MetaAcc>, Ghost(fuel): Ghost<nat>) -> (r: Option<
    (Option<MetaAcc>, usize),
>)
    requires
        i <= s@.len(),
        fuel >= s@.len() - i + 1,
        match acc {
            Option::Some(m) => (match m.rec_pos {
                Option::Some(q) => q <= s@.len(),
                Option::None => true,
            }),
            Option::None => true,
        },
    ensures
        match r {
            Option::Some(p) => spec_top_members(s@, i as int, opt_meta_view(acc), fuel)
                == Option::Some((opt_meta_view(p.0), p.1 as int)) && i < p.1 <= s@.len() && (match p.0 {
                Option::Some(m) => (match m.rec_pos {
                    Option::Some(q) => q <= s@.len(),
                    Option::None => true,
                }),
                Option::None => true,
            }),
            Option::None => spec_top_members(s@, i as int, opt_meta_view(acc), fuel) is None,
        },
    decreases s@.len() - i,
{
    let j = skip_ws(s, i);
    if j >= s.len() {
        return None;
    }
    if s[j] == 0x7d {
        return Some((acc, j + 1));
    }
    match parse_string(s, j) {
        None => None,
        Some((key, j2)) => {
            let j3 = skip_ws(s, j2);
            if !(j3 < s.len() && s[j3] == 0x3a) {
                return None;
            }
            let j4 = skip_ws(s, j3 + 1);
            let step: Option<(Option<MetaAcc>, usize)> = if crate::json_keys::is_key_metadata(
                &key,
            ) {
                match parse_meta_object(s, j4, Ghost((fuel - 1) as nat)) {
                    Some((m, j5)) => Some((Some(m), j5)),
                    None => None,
                }
            } else {
                match skip_value(s, j4) {
                    Some(j5) => Some((acc, j5)),
                    None => None,
                }
            };
            match step {
                None => None,
                Some((acc2, j5)) => {
                    let j6 = skip_ws(s, j5);
                    if j6 >= s.len() {
                        None
                    } else if s[j6] == 0x2c {
                        top_members(s, j6 + 1, acc2, Ghost((fuel - 1) as nat))
                    } else if s[j6] == 0x7d {
                        Some((acc2, j6 + 1))
                    } else {
                        None
                    }
                },
            }
        },
    }
}

/// View of an optional metadata accumulator.
pub open spec fn opt_meta_view(m: Option<MetaAcc>) -> Option<MetaAccV> {
    match m {
        Option::Some(a) => Option::Some(a@),
        Option::None => Option::None,
    }
}

/// What one input line denotes.
pub enum LineV {
    Title(TitleRecordV),
    Holdings(HoldingsRecord),
    Other,
    Malformed,
}

/// Fuel that always suffices for one line: member parsing consumes at
/// least one byte per unit.
pub open spec fn spec_line_fuel(s: Seq<u8>) -> nat {
    (s.len() + 1) as nat
}

/// What a whole input line denotes: the line must be one JSON object
/// with nothing but whitespace around it, its `metadata` member
/// decides, and the `type` discriminator selects how the `record`
/// member is read. A missing discriminator or an unknown one makes
/// the line an unrecognized shape; everything else that fails makes
/// it malformed.
pub open spec fn spec_parse_line(s: Seq<u8>) -> LineV {
    let j = spec_skip_ws(s, 0);
    if !(0 <= j < s.len() && s[j] == 0x7b) {
        LineV::Malformed
    } else {
        match spec_top_members(s, j + 1, Option::None, spec_line_fuel(s)) {
            Option::None => LineV::Malformed,
            Option::Some(tp) => {
                if spec_skip_ws(s, tp.1) != s.len() {
                    LineV::Malformed
                } else {
                    match tp.0 {
                        Option::None => LineV::Malformed,
                        Option::Some(m) => match m.type_tag {
                            Option::None => LineV::Other,
                            Option::Some(tag) => {
                                if tag == crate::json_keys::key_title_json() {
                                    match m.rec_pos {
                                        Option::None => LineV::Malformed,
                                        Option::Some(p) => match spec_title_object(
                                            s,
                                            p,
                                            spec_line_fuel(s),
                                        ) {
                                            Option::None => LineV::Malformed,
                                            Option::Some(tacc) => match (
                                                tacc.0.oclc,
                                                tacc.0.isbns,
                                            ) {
                                                (Option::Some(o), Option::Some(isbns)) => (
                                                    LineV::Title(
                                                        TitleRecordV {
                                                            oclc_number: o,
                                                            title: tacc.0.title,
                                                            creator: tacc.0.creator,
                                                            isbns,
                                                            machine_readable_date: tacc.0.mrd,
                                                            date: tacc.0.date,
                                                            publication_date: tacc.0.pubd,
                                                        },
                                                    )
                                                ),
                                                _ => LineV::Malformed,
                                            },
                                        },
                                    }
                                } else if tag == crate::json_keys::key_search_holdings() {
                                    match m.rec_pos {
                                        Option::None => LineV::Malformed,
                                        Option::Some(p) => match spec_holdings_object(
                                            s,
                                            p,
                                            spec_line_fuel(s),
                                        ) {
                                            Option::None => LineV::Malformed,
                                            Option::Some(hacc) => match (
                                                hacc.0.oclc,
                                                hacc.0.holding,
                                                hacc.0.editions,
                                            ) {
                                                (
                                                    Option::Some(o),
                                                    Option::Some(h),
                                                    Option::Some(e),
                                                ) => LineV::Holdings(
                                                    HoldingsRecord {
                                                        oclc_number: o,
                                                        total_holding_count: h,
                                                        total_editions: e,
                                                    },
                                                ),
                                                _ => LineV::Malformed,
                                            },
                                        },
                                    }
                                } else {
                                    LineV::Other
                                }
                            },
                        },
                    }
                }
            },
        }
    }
}

/// Parse one input line. `None` exactly when [`spec_parse_line`]
/// calls the line malformed; otherwise the classified record.
pub fn parse_line(s: &[u8]) -> (r: Option<JsonRecord>)
    ensures
        match r {
            Option::None => spec_parse_line(s@) == LineV::Malformed,
            Option::Some(rec) => match rec.metadata {
                RawRecord::TitleJson { record } => spec_parse_line(s@) == LineV::Title(record@),
                RawRecord::SearchHoldings { record } => spec_parse_line(s@) == LineV::Holdings(
                    record,
                ),
                RawRecord::Other => spec_parse_line(s@) == LineV::Other,
            },
        },
{
    let j = skip_ws(s, 0);
    if !(j < s.len() && s[j] == 0x7b) {
        return None;
    }
    let ghost fuel = spec_line_fuel(s@);
    match top_members(s, j + 1, None, Ghost(fuel)) {
        None => None,
        Some((top, end)) => {
            let after = skip_ws(s, end);
            if after != s.len() {
                return None;
            }
            match top {
                None => None,
                Some(m) => match m.type_tag {
                    None => Some(JsonRecord { metadata: RawRecord::Other }),
                    Some(tag) => {
                        if crate::json_keys::is_key_title_json(&tag) {
                            match m.rec_pos {
                                None => None,
                                Some(p) => match parse_title_object(s, p, Ghost(fuel)) {
                                    None => None,
                                    Some((tacc, _)) => match (tacc.oclc, tacc.isbns) {
                                        (Some(o), Some(isbns)) => {
                                            let record = TitleRecord {
                                                oclc_number: o,
                                                title: tacc.title,
                                                creator: tacc.creator,
                                                isbns,
                                                machine_readable_date: tacc.mrd,
                                                date: tacc.date,
                                                publication_date: tacc.pubd,
                                            };
                                            Some(
                                                JsonRecord {
                                                    metadata: RawRecord::TitleJson { record },
                                                },
                                            )
                                        },
                                        _ => None,
                                    },
                                },
                            }
                        } else if crate::json_keys::is_key_search_holdings(&tag) {
                            match m.rec_pos {
                                None => None,
                                Some(p) => match parse_holdings_object(s, p, Ghost(fuel)) {
                                    None => None,
                                    Some((hacc, _)) => match (hacc.oclc, hacc.holding, hacc.editions) {
                                        (Some(o), Some(h), Some(e)) => {
                                            let record = HoldingsRecord {
                                                oclc_number: o,
                                                total_holding_count: h,
                                                total_editions: e,
                                            };
                                            Some(
                                                JsonRecord {
                                                    metadata: RawRecord::SearchHoldings { record },
                                                },
                                            )
                                        },
                                        _ => None,
                                    },
                                },
                            }
                        } else {
                            Some(JsonRecord { metadata: RawRecord::Other })
                        }
                    },
                },
            }
        },
    }
}

} // verus!
