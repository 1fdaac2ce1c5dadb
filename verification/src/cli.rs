//! Command-line data model and the numeric-literal parsing that turns
//! user-facing strings into addresses, sizes and units: decimal, `0x` hex
//! and `0b` binary prefixes, and case-insensitive K/M/G/T size suffixes
//! meaning powers of 1024.
use vstd::prelude::*;

use crate::errors::MemError;

verus! {

/// One requested operation, with its parsed arguments.
#[derive(Debug, Clone, Copy)]
pub enum Commands {
    /// Digest a region of `size` bytes at `addr`.
    Md5 { addr: u64, size: usize },
    /// Fill a region with `value`, or with random bytes when `value` is absent.
    Write { addr: u64, size: usize, value: Option<u8> },
    /// Fill a region with `value`, or with zeros when `value` is absent.
    Clear { addr: u64, size: usize, value: Option<u8> },
    /// Dump a region byte by byte.
    Read { addr: u64, size: usize },
    /// Dump `count` units of `unit` bytes each.
    MD { addr: u64, unit: usize, count: usize },
    /// Write a `size`-byte little-endian scalar at `addr`.
    MS { addr: u64, size: usize, value: u64 },
}

/// A fully parsed command line.
#[derive(Debug, Clone, Copy)]
pub struct Cli {
    pub command: Commands,
}

/// The value of one digit character, or 16 when the character is no hex
/// digit at all. Codes 48..=57 are '0'..'9', 97..=102 are 'a'..'f',
/// 65..=70 are 'A'..'F'.
pub open spec fn digit_of(c: char) -> int {
    let ci = c as int;
    if 48 <= ci <= 57 {
        ci - 48
    } else if 97 <= ci <= 102 {
        ci - 87
    } else if 65 <= ci <= 70 {
        ci - 55
    } else {
        16
    }
}

/// Whether `c` is a digit under `radix`.
pub open spec fn is_digit(c: char, radix: int) -> bool {
    digit_of(c) < radix
}

/// Whether every character of `s` is a digit under `radix`.
pub open spec fn all_digits(s: Seq<char>, radix: int) -> bool {
    forall|i: int| 0 <= i < s.len() ==> is_digit(#[trigger] s[i], radix)
}

/// The value of the digit string `s` under `radix`, most significant digit
/// first.
pub open spec fn radix_val(s: Seq<char>, radix: int) -> int
    decreases s.len(),
{
    if s.len() == 0 {
        0
    } else {
        radix_val(s.drop_last(), radix) * radix + digit_of(s.last())
    }
}

/// The radix a literal announces: 16 after "0x", 2 after "0b"
/// (either case), 10 otherwise.
pub open spec fn literal_radix(s: Seq<char>) -> int {
    if s.len() >= 2 && s[0] == '0' && (s[1] == 'x' || s[1] == 'X') {
        16
    } else if s.len() >= 2 && s[0] == '0' && (s[1] == 'b' || s[1] == 'B') {
        2
    } else {
        10
    }
}

/// The digit characters of a literal: everything after the radix prefix,
/// or the whole string when there is none.
pub open spec fn literal_digits(s: Seq<char>) -> Seq<char> {
    if literal_radix(s) == 10 {
        s
    } else {
        s.skip(2)
    }
}

/// Whether `s` is a well-formed numeric literal: at least one digit after
/// any radix prefix, and every one valid under the announced radix.
pub open spec fn parses_literal(s: Seq<char>) -> bool {
    literal_digits(s).len() > 0 && all_digits(literal_digits(s), literal_radix(s))
}

/// The mathematical value of a well-formed literal.
pub open spec fn literal_val(s: Seq<char>) -> int {
    radix_val(literal_digits(s), literal_radix(s))
}

proof fn lemma_radix_val_nonneg(s: Seq<char>, radix: int)
    requires
        radix >= 1,
    ensures
        radix_val(s, radix) >= 0,
    decreases s.len(),
{
    if s.len() > 0 {
        lemma_radix_val_nonneg(s.drop_last(), radix);
        assert(radix_val(s.drop_last(), radix) * radix >= 0) by (nonlinear_arith)
            requires
                radix_val(s.drop_last(), radix) >= 0,
                radix >= 1,
        ;
        assert(digit_of(s.last()) >= 0);
    }
}

/// The value of a prefix of a digit string never exceeds the value of the
/// whole string.
proof fn lemma_radix_val_prefix(s: Seq<char>, j: int, radix: int)
    requires
        radix >= 1,
        0 <= j <= s.len(),
    ensures
        radix_val(s.take(j), radix) <= radix_val(s, radix),
    decreases s.len(),
{
    if j == s.len() {
        assert(s.take(j) =~= s);
    } else {
        let dl = s.drop_last();
        lemma_radix_val_prefix(dl, j, radix);
        assert(dl.take(j) =~= s.take(j));
        lemma_radix_val_nonneg(dl, radix);
        assert(radix_val(dl, radix) * radix >= radix_val(dl, radix)) by (nonlinear_arith)
            requires
                radix_val(dl, radix) >= 0,
                radix >= 1,
        ;
        assert(digit_of(s.last()) >= 0);
    }
}

/// The value of one digit character, 16 for anything that is no hex digit.
fn digit_val(c: char) -> (d: u8)
    ensures
        d as int == digit_of(c),
{
    let v = c as u32;
    if 48 <= v && v <= 57 {
        (v - 48) as u8
    } else if 97 <= v && v <= 102 {
        (v - 87) as u8
    } else if 65 <= v && v <= 70 {
        (v - 55) as u8
    } else {
        16
    }
}

/// Parse the digits of `s` from position `from` on under `radix`,
/// accepting exactly the strings with at least one digit, all valid, whose
/// value fits in a `u64`.
fn parse_radix(s: &str, from: usize, radix: u64) -> (r: Result<u64, MemError>)
    requires
        radix == 2 || radix == 10 || radix == 16,
        from as int <= s@.len(),
    ensures
        r is Ok <==> s@.skip(from as int).len() > 0 && all_digits(
            s@.skip(from as int),
            radix as int,
        ) && radix_val(s@.skip(from as int), radix as int) <= u64::MAX,
        r matches Ok(v) ==> v == radix_val(s@.skip(from as int), radix as int),
        r is Err ==> r == Err::<u64, MemError>(MemError::Parse),
{
    let ghost whole = s@.skip(from as int);
    let n = s.unicode_len();
    if n == from {
        return Err(MemError::Parse);
    }
    let mut acc: u64 = 0;
    let mut i = from;
    proof {
        assert(s@.subrange(from as int, from as int) =~= whole.take(0));
    }
    while i < n
        invariant
            from <= i <= n,
            n == s@.len(),
            radix == 2 || radix == 10 || radix == 16,
            whole == s@.skip(from as int),
            all_digits(whole.take(i - from), radix as int),
            acc as int == radix_val(whole.take(i - from), radix as int),
        decreases n - i,
    {
        let c = s.get_char(i);
        let d = digit_val(c);
        proof {
            assert(whole[i - from] == s@[i as int]);
        }
        if d as u64 >= radix {
            proof {
                assert(!is_digit(whole[i - from], radix as int));
            }
            return Err(MemError::Parse);
        }
        let ghost prev = whole.take(i - from);
        let ghost cur = whole.take(i + 1 - from);
        proof {
            assert(cur.drop_last() =~= prev);
            assert(cur.last() == s@[i as int]);
            lemma_radix_val_prefix(whole, i + 1 - from, radix as int);
        }
        let step = match acc.checked_mul(radix) {
            Some(m) => m,
            None => {
                proof {
                    lemma_radix_val_nonneg(prev, radix as int);
                    assert(radix_val(cur, radix as int) > u64::MAX);
                }
                return Err(MemError::Parse);
            },
        };
        let next = match step.checked_add(d as u64) {
            Some(t) => t,
            None => {
                proof {
                    assert(radix_val(cur, radix as int) > u64::MAX);
                }
                return Err(MemError::Parse);
            },
        };
        acc = next;
        i += 1;
    }
    proof {
        assert(whole.take(n - from) =~= whole);
    }
    Ok(acc)
}

/// Parse a numeric literal with an optional `0x`/`0b` radix prefix into a
/// `u64`.
pub fn str2u64(s: &str) -> (r: Result<u64, MemError>)
    ensures
        r is Ok <==> parses_literal(s@) && literal_val(s@) <= u64::MAX,
        r matches Ok(v) ==> v == literal_val(s@),
        r is Err ==> r == Err::<u64, MemError>(MemError::Parse),
{
    let n = s.unicode_len();
    if n >= 2 {
        let c0 = s.get_char(0);
        let c1 = s.get_char(1);
        if c0 == '0' && (c1 == 'x' || c1 == 'X') {
            return parse_radix(s, 2, 16);
        }
        if c0 == '0' && (c1 == 'b' || c1 == 'B') {
            return parse_radix(s, 2, 2);
        }
    }
    proof {
        assert(s@.skip(0) =~= s@);
    }
    parse_radix(s, 0, 10)
}

/// Parse a numeric literal with an optional `0x`/`0b` radix prefix into a
/// `usize`.
pub fn str2usize(s: &str) -> (r: Result<usize, MemError>)
    ensures
        r is Ok <==> parses_literal(s@) && literal_val(s@) <= usize::MAX,
        r matches Ok(v) ==> v == literal_val(s@),
        r is Err ==> r == Err::<usize, MemError>(MemError::Parse),
{
    match str2u64(s) {
        Ok(v) => {
            if v <= usize::MAX as u64 {
                Ok(v as usize)
            } else {
                Err(MemError::Parse)
            }
        },
        Err(e) => Err(e),
    }
}

/// Validate an address argument: any numeric literal that fits in a `u64`.
pub fn addr_validator(s: &str) -> (r: Result<u64, MemError>)
    ensures
        r is Ok <==> parses_literal(s@) && literal_val(s@) <= u64::MAX,
        r matches Ok(v) ==> v == literal_val(s@),
        r is Err ==> r == Err::<u64, MemError>(MemError::Parse),
{
    str2u64(s)
}

/// The factor a size-suffix character stands for: K, M, G and T (either
/// case) are powers of 1024; anything else is no suffix.
pub open spec fn factor_of(c: char) -> int {
    if c == 'K' || c == 'k' {
        1024
    } else if c == 'M' || c == 'm' {
        1048576
    } else if c == 'G' || c == 'g' {
        1073741824
    } else if c == 'T' || c == 't' {
        1099511627776
    } else {
        1
    }
}

/// The numeric part of a size argument: the string without its suffix
/// letter, or the whole string when there is none.
pub open spec fn size_body(s: Seq<char>) -> Seq<char> {
    if s.len() > 0 && factor_of(s.last()) != 1 {
        s.drop_last()
    } else {
        s
    }
}

/// The factor a size argument's suffix asks for, 1 when there is none.
pub open spec fn size_factor(s: Seq<char>) -> int {
    if s.len() > 0 {
        factor_of(s.last())
    } else {
        1
    }
}

/// Validate a size argument: a numeric literal with an optional
/// case-insensitive K/M/G/T suffix; the value times the suffix factor must
/// fit in a `usize`. A bare suffix with no digits is rejected.
pub fn size_validator(s: &str) -> (r: Result<usize, MemError>)
    ensures
        r is Ok <==> size_body(s@).len() > 0 && parses_literal(size_body(s@)) && literal_val(
            size_body(s@),
        ) * size_factor(s@) <= usize::MAX,
        r matches Ok(v) ==> v == literal_val(size_body(s@)) * size_factor(s@),
        r is Err ==> r == Err::<usize, MemError>(MemError::Parse),
{
    let n = s.unicode_len();
    let mut len = n;
    let mut factor: u64 = 1;
    if n > 0 {
        let c = s.get_char(n - 1);
        if c == 'T' || c == 't' {
            factor = 1099511627776;
            len = n - 1;
        } else if c == 'G' || c == 'g' {
            factor = 1073741824;
            len = n - 1;
        } else if c == 'M' || c == 'm' {
            factor = 1048576;
            len = n - 1;
        } else if c == 'K' || c == 'k' {
            factor = 1024;
            len = n - 1;
        }
    }
    if len == 0 {
        return Err(MemError::Parse);
    }
    let body = s.substring_char(0, len);
    proof {
        assert(body@ =~= size_body(s@));
        assert(factor as int == size_factor(s@));
    }
    match str2u64(body) {
        Ok(v) => {
            proof {
                lemma_radix_val_nonneg(literal_digits(body@), literal_radix(body@));
            }
            match v.checked_mul(factor) {
                Some(p) => {
                    if p <= usize::MAX as u64 {
                        Ok(p as usize)
                    } else {
                        Err(MemError::Parse)
                    }
                },
                None => Err(MemError::Parse),
            }
        },
        Err(_) => {
            proof {
                if parses_literal(body@) {
                    // the literal itself overflows a u64, so with its factor
                    // it cannot fit a usize either
                    lemma_radix_val_nonneg(literal_digits(body@), literal_radix(body@));
                    assert(literal_val(body@) * factor >= literal_val(body@)) by (nonlinear_arith)
                        requires
                            literal_val(body@) >= 0,
                            factor >= 1,
                    ;
                }
            }
            Err(MemError::Parse)
        },
    }
}

/// Validate a dump/poke unit argument: exactly "1", "2", "4" or "8".
pub fn unit_validator(s: &str) -> (r: Result<usize, MemError>)
    ensures
        r is Ok <==> (s@ == seq!['1'] || s@ == seq!['2'] || s@ == seq!['4'] || s@ == seq!['8']),
        r matches Ok(u) ==> (u == 1 && s@ == seq!['1']) || (u == 2 && s@ == seq!['2']) || (u == 4
            && s@ == seq!['4']) || (u == 8 && s@ == seq!['8']),
        r is Err ==> r == Err::<usize, MemError>(MemError::Parse),
{
    let n = s.unicode_len();
    if n != 1 {
        return Err(MemError::Parse);
    }
    let c = s.get_char(0);
    if c == '1' {
        proof {
            assert(s@ =~= seq!['1']);
        }
        Ok(1)
    } else if c == '2' {
        proof {
            assert(s@ =~= seq!['2']);
        }
        Ok(2)
    } else if c == '4' {
        proof {
            assert(s@ =~= seq!['4']);
        }
        Ok(4)
    } else if c == '8' {
        proof {
            assert(s@ =~= seq!['8']);
        }
        Ok(8)
    } else {
        Err(MemError::Parse)
    }
}

} // verus!
