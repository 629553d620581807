//! The string and number transforms around the benchmark core: formatting
//! a drive number as a device path, parsing a hexadecimal quantity, and
//! parsing the partition count reported by the external partition query.

use vstd::prelude::*;
use vstd::slice::slice_index_get;
use vstd::string::StringSliceAdditionalSpecFns;
use vstd::arithmetic::div_mod::lemma_div_denominator;

verus! {

/// Relies on String::push: appends exactly the one character to the end of
/// the string.
pub assume_specification[ String::push ](s: &mut String, ch: char)
    ensures
        final(s)@ == old(s)@.push(ch),
;

/// The character for one decimal digit.
pub open spec fn dec_digit_char(d: int) -> char
    recommends
        0 <= d <= 9,
{
    if d == 0 {
        '0'
    } else if d == 1 {
        '1'
    } else if d == 2 {
        '2'
    } else if d == 3 {
        '3'
    } else if d == 4 {
        '4'
    } else if d == 5 {
        '5'
    } else if d == 6 {
        '6'
    } else if d == 7 {
        '7'
    } else if d == 8 {
        '8'
    } else {
        '9'
    }
}

/// The decimal digits of `n`, most significant first, with no leading
/// zeros (a single `'0'` for zero itself).
pub open spec fn spec_dec_digits(n: int) -> Seq<char>
    recommends
        0 <= n,
    decreases n,
{
    if n < 10 {
        seq![dec_digit_char(n)]
    } else {
        spec_dec_digits(n / 10).push(dec_digit_char(n % 10))
    }
}

/// The device path for one physical-drive number, in the Win32
/// `\\.\PhysicalDrive{N}` convention.
pub open spec fn spec_drive_path(drive_num: u8) -> Seq<char> {
    "\\\\.\\PhysicalDrive"@ + spec_dec_digits(drive_num as int)
}

/// The character for one decimal digit, as executable code.
fn dec_char(d: u8) -> (c: char)
    requires
        d <= 9,
    ensures
        c == dec_digit_char(d as int),
{
    match d {
        0 => '0',
        1 => '1',
        2 => '2',
        3 => '3',
        4 => '4',
        5 => '5',
        6 => '6',
        7 => '7',
        8 => '8',
        _ => '9',
    }
}

/// Formats a drive number as the device path that the operating system
/// opens: the `\\.\PhysicalDrive` prefix followed by the number's decimal
/// digits.
pub fn format_drive_num(drive_num: u8) -> (r: String)
    ensures
        r@ == spec_drive_path(drive_num),
{
    let mut s: String = "\\\\.\\PhysicalDrive".to_owned();
    let ghost prefix: Seq<char> = s@;
    let hundreds = drive_num / 100;
    let tens = (drive_num / 10) % 10;
    let ones = drive_num % 10;
    proof {
        lemma_div_denominator(drive_num as int, 10, 10);
    }
    if hundreds > 0 {
        s.push(dec_char(hundreds));
        s.push(dec_char(tens));
        s.push(dec_char(ones));
        proof {
            reveal_with_fuel(spec_dec_digits, 4);
            assert((drive_num as int / 10) / 10 == drive_num as int / 100);
            assert(spec_dec_digits(drive_num as int) =~= seq![
                dec_digit_char(hundreds as int),
                dec_digit_char(tens as int),
                dec_digit_char(ones as int),
            ]);
            assert(s@ =~= prefix + spec_dec_digits(drive_num as int));
        }
    } else if tens > 0 {
        s.push(dec_char(tens));
        s.push(dec_char(ones));
        proof {
            reveal_with_fuel(spec_dec_digits, 4);
            assert(drive_num as int / 10 < 10 && (drive_num as int / 10) % 10 == drive_num as int
                / 10);
            assert(spec_dec_digits(drive_num as int) =~= seq![
                dec_digit_char(tens as int),
                dec_digit_char(ones as int),
            ]);
            assert(s@ =~= prefix + spec_dec_digits(drive_num as int));
        }
    } else {
        s.push(dec_char(ones));
        proof {
            reveal_with_fuel(spec_dec_digits, 4);
            assert(spec_dec_digits(drive_num as int) =~= seq![dec_digit_char(ones as int)]);
            assert(s@ =~= prefix + spec_dec_digits(drive_num as int));
        }
    }
    s
}

/// The numeric value of one byte read as a digit, hexadecimal digits
/// included; bytes that are no digit map to 16, above every base in use.
pub open spec fn digit_value(b: u8) -> int {
    if 48 <= b <= 57 {
        b - 48
    } else if 97 <= b <= 102 {
        (b - 97) + 10
    } else if 65 <= b <= 70 {
        (b - 65) + 10
    } else {
        16
    }
}

/// Whether `b` is a digit of the given base.
pub open spec fn is_digit_in(b: u8, base: int) -> bool {
    digit_value(b) < base
}

/// Whether every byte of `s` is a digit of the given base.
pub open spec fn all_digits_in(s: Seq<u8>, base: int) -> bool {
    forall|i: int| 0 <= i < s.len() ==> is_digit_in(#[trigger] s[i], base)
}

/// The value of a digit string read in the given base, most significant
/// digit first.
pub open spec fn radix_value(s: Seq<u8>, base: int) -> int
    recommends
        base >= 2,
    decreases s.len(),
{
    if s.len() == 0 {
        0
    } else {
        radix_value(s.drop_last(), base) * base + digit_value(s.last())
    }
}

/// A digit string's value is never negative.
pub proof fn lemma_radix_value_nonneg(s: Seq<u8>, base: int)
    requires
        base >= 1,
    ensures
        radix_value(s, base) >= 0,
    decreases s.len(),
{
    if s.len() > 0 {
        lemma_radix_value_nonneg(s.drop_last(), base);
        assert(radix_value(s.drop_last(), base) * base >= 0) by (nonlinear_arith)
            requires
                radix_value(s.drop_last(), base) >= 0,
                base >= 1,
        ;
    }
}

/// Reading more digits never shrinks the value: the value of a prefix is a
/// lower bound on the value of any longer prefix.
pub proof fn lemma_radix_prefix_monotone(s: Seq<u8>, base: int, i: int, j: int)
    requires
        base >= 1,
        0 <= i <= j <= s.len(),
    ensures
        radix_value(s.take(i), base) <= radix_value(s.take(j), base),
    decreases j - i,
{
    if i < j {
        lemma_radix_prefix_monotone(s, base, i, j - 1);
        let t = s.take(j);
        assert(t.drop_last() =~= s.take(j - 1));
        lemma_radix_value_nonneg(t.drop_last(), base);
        assert(radix_value(t.drop_last(), base) * base + digit_value(t.last()) >= radix_value(
            t.drop_last(),
            base,
        )) by (nonlinear_arith)
            requires
                radix_value(t.drop_last(), base) >= 0,
                base >= 1,
                digit_value(t.last()) >= 0,
        ;
    }
}

/// Why a hexadecimal string does not parse: it was empty, held a byte that
/// is no hexadecimal digit (a lone sign included), or named a value beyond
/// 64 bits.
#[derive(Clone, Copy, Debug, PartialEq, Eq, Structural)]
pub enum HexParseError {
    Empty,
    InvalidDigit,
    Overflow,
}

/// The digits of a hexadecimal string: the input with one optional leading
/// plus sign removed.
pub open spec fn spec_hex_body(s: Seq<u8>) -> Seq<u8> {
    if s.len() >= 1 && s[0] == 43u8 {
        s.skip(1)
    } else {
        s
    }
}

/// What parsing a hexadecimal string yields: the empty input is refused as
/// empty; an input whose digits (after an optional leading plus sign) are
/// empty or not all hexadecimal is refused as an invalid digit; a value
/// beyond 64 bits is refused as overflow; everything else parses to its
/// value.
pub open spec fn spec_parse_hex(s: Seq<u8>) -> Result<u64, HexParseError> {
    let body = spec_hex_body(s);
    if s.len() == 0 {
        Err(HexParseError::Empty)
    } else if body.len() == 0 || !all_digits_in(body, 16) {
        Err(HexParseError::InvalidDigit)
    } else if radix_value(body, 16) > u64::MAX {
        Err(HexParseError::Overflow)
    } else {
        Ok(radix_value(body, 16) as u64)
    }
}

/// The numeric value of one byte read as a hexadecimal digit, or nothing.
fn hex_digit(b: u8) -> (r: Option<u8>)
    ensures
        r is Some <==> is_digit_in(b, 16),
        r matches Some(v) ==> v == digit_value(b),
{
    if 48 <= b && b <= 57 {
        Some(b - 48)
    } else if 97 <= b && b <= 102 {
        Some(b - 97 + 10)
    } else if 65 <= b && b <= 70 {
        Some(b - 65 + 10)
    } else {
        None
    }
}

/// Parses a hexadecimal quantity: an optional leading plus sign followed
/// by hexadecimal digits, yielding its 64-bit value or the exact reason it
/// is refused.
pub fn parse_hex(src: &str) -> (r: Result<u64, HexParseError>)
    ensures
        r == spec_parse_hex(src.spec_bytes()),
{
    let bytes: &[u8] = src.as_bytes();
    let n: usize = bytes.len();
    if n == 0 {
        return Err(HexParseError::Empty);
    }
    let start: usize = if *slice_index_get(bytes, 0) == 43u8 {
        1
    } else {
        0
    };
    let ghost body = spec_hex_body(bytes@);
    proof {
        assert(body =~= bytes@.skip(start as int));
    }
    if start == n {
        return Err(HexParseError::InvalidDigit);
    }
    let mut i: usize = start;
    while i < n
        invariant
            start <= i <= n,
            start < n,
            n == bytes@.len(),
            bytes@ == src.spec_bytes(),
            body == spec_hex_body(bytes@),
            body == bytes@.skip(start as int),
            forall|k: int| 0 <= k < i - start ==> is_digit_in(#[trigger] body[k], 16),
        decreases n - i,
    {
        if hex_digit(*slice_index_get(bytes, i)).is_none() {
            proof {
                assert(body[i - start] == bytes@[i as int]);
                assert(!is_digit_in(body[i - start], 16));
                assert(!all_digits_in(body, 16));
            }
            return Err(HexParseError::InvalidDigit);
        }
        i = i + 1;
    }
    let mut acc: u64 = 0;
    let mut i: usize = start;
    while i < n
        invariant
            start <= i <= n,
            start < n,
            n == bytes@.len(),
            bytes@ == src.spec_bytes(),
            body == spec_hex_body(bytes@),
            body == bytes@.skip(start as int),
            all_digits_in(body, 16),
            acc == radix_value(body.take(i - start), 16),
        decreases n - i,
    {
        let b = *slice_index_get(bytes, i);
        proof {
            assert(body[i - start] == bytes@[i as int]);
        }
        let d = match hex_digit(b) {
            Some(d) => d,
            None => {
                proof {
                    assert(false);
                }
                0
            },
        };
        proof {
            assert(body.take(i - start + 1).drop_last() =~= body.take(i - start));
            assert(body.take(i - start + 1).last() == body[i - start]);
        }
        if acc > (u64::MAX - d as u64) / 16 {
            proof {
                assert(acc * 16 + d > u64::MAX) by (nonlinear_arith)
                    requires
                        acc > (u64::MAX as int - d) / 16,
                        0 <= d < 16,
                        acc >= 0,
                ;
                assert(radix_value(body.take(i - start + 1), 16) == acc * 16 + d);
                lemma_radix_prefix_monotone(body, 16, i - start + 1, body.len() as int);
                assert(body.take(body.len() as int) =~= body);
                assert(radix_value(body, 16) > u64::MAX);
            }
            return Err(HexParseError::Overflow);
        }
        proof {
            assert(acc * 16 + d <= u64::MAX) by (nonlinear_arith)
                requires
                    acc <= (u64::MAX as int - d) / 16,
                    0 <= d < 16,
                    acc >= 0,
            ;
        }
        acc = acc * 16 + d as u64;
        i = i + 1;
    }
    proof {
        assert(body.take((n - start) as int) =~= body);
    }
    Ok(acc)
}

/// Whether a byte is an ASCII whitespace character.
pub open spec fn is_ascii_space(b: u8) -> bool {
    b == 32 || (9 <= b <= 13)
}

/// Whether a byte is an ASCII whitespace character, as executable code.
fn ascii_space(b: u8) -> (r: bool)
    ensures
        r == is_ascii_space(b),
{
    b == 32 || (b >= 9 && b <= 13)
}

/// The input with ASCII whitespace stripped from both ends.
pub open spec fn spec_trim(s: Seq<u8>) -> Seq<u8>
    decreases s.len(),
{
    if s.len() == 0 {
        s
    } else if is_ascii_space(s[0]) {
        spec_trim(s.skip(1))
    } else if is_ascii_space(s.last()) {
        spec_trim(s.drop_last())
    } else {
        s
    }
}

/// What parsing a partition count yields: the input with surrounding ASCII
/// whitespace stripped must be one or more decimal digits naming a value
/// of at most 255; everything else is refused.
pub open spec fn spec_parse_partition_count(s: Seq<u8>) -> Option<u8> {
    let t = spec_trim(s);
    if t.len() == 0 || !all_digits_in(t, 10) {
        None
    } else if radix_value(t, 10) > 255 {
        None
    } else {
        Some(radix_value(t, 10) as u8)
    }
}

/// The numeric value of one byte read as a decimal digit, or nothing.
fn dec_digit(b: u8) -> (r: Option<u8>)
    ensures
        r is Some <==> is_digit_in(b, 10),
        r matches Some(v) ==> v == digit_value(b),
{
    if 48 <= b && b <= 57 {
        Some(b - 48)
    } else {
        None
    }
}

/// Parses the partition count reported by the external partition query:
/// decimal digits with surrounding whitespace, as the query prints it.
pub fn parse_partition_count(src: &str) -> (r: Option<u8>)
    ensures
        r == spec_parse_partition_count(src.spec_bytes()),
{
    let bytes: &[u8] = src.as_bytes();
    let n: usize = bytes.len();
    proof {
        assert(bytes@.subrange(0, n as int) =~= bytes@);
    }
    let mut lo: usize = 0;
    while lo < n && ascii_space(*slice_index_get(bytes, lo))
        invariant
            0 <= lo <= n,
            n == bytes@.len(),
            bytes@ == src.spec_bytes(),
            spec_trim(bytes@) == spec_trim(bytes@.subrange(lo as int, n as int)),
        decreases n - lo,
    {
        proof {
            assert(bytes@.subrange(lo as int, n as int).skip(1) =~= bytes@.subrange(
                lo as int + 1,
                n as int,
            ));
        }
        lo = lo + 1;
    }
    let mut hi: usize = n;
    while hi > lo && ascii_space(*slice_index_get(bytes, hi - 1))
        invariant
            lo <= hi <= n,
            n == bytes@.len(),
            bytes@ == src.spec_bytes(),
            lo == n || !is_ascii_space(bytes@[lo as int]),
            spec_trim(bytes@) == spec_trim(bytes@.subrange(lo as int, hi as int)),
        decreases hi,
    {
        proof {
            assert(bytes@.subrange(lo as int, hi as int).drop_last() =~= bytes@.subrange(
                lo as int,
                hi as int - 1,
            ));
        }
        hi = hi - 1;
    }
    let ghost t = spec_trim(bytes@);
    proof {
        assert(t =~= bytes@.subrange(lo as int, hi as int));
    }
    if lo == hi {
        return None;
    }
    let mut acc: u32 = 0;
    let mut i: usize = lo;
    while i < hi
        invariant
            lo <= i <= hi <= n,
            lo < hi,
            n == bytes@.len(),
            bytes@ == src.spec_bytes(),
            t == spec_trim(bytes@),
            t == bytes@.subrange(lo as int, hi as int),
            forall|k: int| 0 <= k < i - lo ==> is_digit_in(#[trigger] t[k], 10),
            acc == radix_value(t.take(i - lo), 10),
            acc <= 255,
        decreases hi - i,
    {
        let b = *slice_index_get(bytes, i);
        proof {
            assert(t[i - lo] == bytes@[i as int]);
        }
        let d = match dec_digit(b) {
            Some(d) => d,
            None => {
                proof {
                    assert(!is_digit_in(t[i - lo], 10));
                    assert(!all_digits_in(t, 10));
                }
                return None;
            },
        };
        proof {
            assert(t.take(i - lo + 1).drop_last() =~= t.take(i - lo));
            assert(t.take(i - lo + 1).last() == t[i - lo]);
        }
        let next = acc * 10 + d as u32;
        if next > 255 {
            proof {
                assert(radix_value(t.take(i - lo + 1), 10) == acc * 10 + d);
                lemma_radix_prefix_monotone(t, 10, i - lo + 1, t.len() as int);
                assert(t.take(t.len() as int) =~= t);
                assert(radix_value(t, 10) > 255);
            }
            return None;
        }
        acc = next;
        i = i + 1;
    }
    proof {
        assert(t.take((hi - lo) as int) =~= t);
    }
    Some(acc as u8)
}

} // verus!
