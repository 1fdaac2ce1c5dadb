//! Lowercase hexadecimal formatting: digits, bytes, and zero-padded
//! addresses, built character by character.
use vstd::prelude::*;

verus! {

/// Relies on `String::push`: appends the character to the end.
pub assume_specification[ String::push ](s: &mut String, c: char)
    ensures
        final(s)@ == old(s)@ + seq![c],
;

/// The lowercase hex digit for a value below 16.
pub open spec fn hex_char(d: int) -> char {
    if d == 0 {
        '0'
    } else if d == 1 {
        '1'
    } else if d == 2 {
        '2'
    } else if d == 3 {
        '3'
    } else if d == 4 {
        '4'
    } else if d == 5 {
        '5'
    } else if d == 6 {
        '6'
    } else if d == 7 {
        '7'
    } else if d == 8 {
        '8'
    } else if d == 9 {
        '9'
    } else if d == 10 {
        'a'
    } else if d == 11 {
        'b'
    } else if d == 12 {
        'c'
    } else if d == 13 {
        'd'
    } else if d == 14 {
        'e'
    } else {
        'f'
    }
}

/// The two hex digits of one byte.
pub open spec fn byte_hex(b: u8) -> Seq<char> {
    seq![hex_char(b as int / 16), hex_char(b as int % 16)]
}

/// The hex digits of `n`, most significant first, with no leading zeros
/// (a single "0" for zero).
pub open spec fn hex_repr(n: nat) -> Seq<char>
    decreases n,
{
    if n < 16 {
        seq![hex_char(n as int)]
    } else {
        hex_repr(n / 16) + seq![hex_char(n as int % 16)]
    }
}

/// How many hex digits `hex_repr` gives a value in `u64` range.
pub open spec fn hex_len(n: nat) -> nat {
    if n < 0x10 {
        1
    } else if n < 0x100 {
        2
    } else if n < 0x1000 {
        3
    } else if n < 0x10000 {
        4
    } else if n < 0x100000 {
        5
    } else if n < 0x1000000 {
        6
    } else if n < 0x10000000 {
        7
    } else if n < 0x100000000 {
        8
    } else if n < 0x1000000000 {
        9
    } else if n < 0x10000000000 {
        10
    } else if n < 0x100000000000 {
        11
    } else if n < 0x1000000000000 {
        12
    } else if n < 0x10000000000000 {
        13
    } else if n < 0x100000000000000 {
        14
    } else if n < 0x1000000000000000 {
        15
    } else {
        16
    }
}

pub proof fn lemma_hex_repr_len(n: nat)
    requires
        n <= u64::MAX,
    ensures
        hex_repr(n).len() == hex_len(n),
    decreases n,
{
    if n >= 16 {
        lemma_hex_repr_len(n / 16);
    }
}

/// `s` left-padded with zeros to width `w`; unchanged if already as wide.
pub open spec fn zero_pad(s: Seq<char>, w: nat) -> Seq<char> {
    if s.len() >= w {
        s
    } else {
        Seq::new((w - s.len()) as nat, |i: int| '0') + s
    }
}

/// The address column width for a dump ending at `end`: the digit count of
/// `end`, rounded up to an even number.
pub open spec fn addr_width(end: nat) -> nat {
    if hex_len(end) % 2 == 1 {
        hex_len(end) + 1
    } else {
        hex_len(end)
    }
}

/// The address column is always even, and every address up to `end`,
/// zero-padded to it, fills it exactly.
pub proof fn lemma_addr_width_even(end: nat, a: nat)
    requires
        a <= end <= u64::MAX,
    ensures
        addr_width(end) % 2 == 0,
        zero_pad(hex_repr(a), addr_width(end)).len() == addr_width(end),
{
    lemma_hex_repr_len(a);
    lemma_hex_repr_len(end);
}

/// The lowercase hex digit character of a value below 16.
pub fn hex_char_of(d: u8) -> (c: char)
    requires
        d < 16,
    ensures
        c == hex_char(d as int),
{
    match d {
        0 => '0',
        1 => '1',
        2 => '2',
        3 => '3',
        4 => '4',
        5 => '5',
        6 => '6',
        7 => '7',
        8 => '8',
        9 => '9',
        10 => 'a',
        11 => 'b',
        12 => 'c',
        13 => 'd',
        14 => 'e',
        _ => 'f',
    }
}

/// Append the two hex digits of one byte.
pub fn push_byte_hex(b: u8, out: &mut String)
    ensures
        final(out)@ == old(out)@ + byte_hex(b),
{
    out.push(hex_char_of(b / 16));
    out.push(hex_char_of(b % 16));
    proof {
        assert(out@ =~= old(out)@ + byte_hex(b));
    }
}

/// Append the hex digits of `n`, most significant first, no leading zeros.
pub fn push_hex_u64(n: u64, out: &mut String)
    ensures
        final(out)@ == old(out)@ + hex_repr(n as nat),
    decreases n,
{
    if n < 16 {
        out.push(hex_char_of(n as u8));
    } else {
        push_hex_u64(n / 16, out);
        out.push(hex_char_of((n % 16) as u8));
        proof {
            assert(out@ =~= old(out)@ + hex_repr(n as nat));
        }
    }
}

/// The digit count of `n` in hex.
pub fn hex_len_of(n: u64) -> (l: usize)
    ensures
        l == hex_len(n as nat),
        1 <= l <= 16,
{
    if n < 0x10 {
        1
    } else if n < 0x100 {
        2
    } else if n < 0x1000 {
        3
    } else if n < 0x10000 {
        4
    } else if n < 0x100000 {
        5
    } else if n < 0x1000000 {
        6
    } else if n < 0x10000000 {
        7
    } else if n < 0x100000000 {
        8
    } else if n < 0x1000000000 {
        9
    } else if n < 0x10000000000 {
        10
    } else if n < 0x100000000000 {
        11
    } else if n < 0x1000000000000 {
        12
    } else if n < 0x10000000000000 {
        13
    } else if n < 0x100000000000000 {
        14
    } else if n < 0x1000000000000000 {
        15
    } else {
        16
    }
}

/// The even address column width for a dump ending at `end`.
pub fn addr_width_of(end: u64) -> (w: usize)
    ensures
        w == addr_width(end as nat),
{
    let l = hex_len_of(end);
    if l % 2 == 1 {
        l + 1
    } else {
        l
    }
}

/// Append `n` in hex, left-padded with zeros to `width` digits.
pub fn push_padded_hex(n: u64, width: usize, out: &mut String)
    ensures
        final(out)@ == old(out)@ + zero_pad(hex_repr(n as nat), width as nat),
{
    let l = hex_len_of(n);
    proof {
        lemma_hex_repr_len(n as nat);
        assert(out@ =~= old(out)@ + Seq::new(0, |i: int| '0'));
    }
    let mut p = l;
    while p < width
        invariant
            l <= p,
            p <= width || p == l,
            out@ == old(out)@ + Seq::new((p - l) as nat, |i: int| '0'),
        decreases width - p,
    {
        out.push('0');
        proof {
            assert(out@ =~= old(out)@ + Seq::new((p + 1 - l) as nat, |i: int| '0'));
        }
        p += 1;
    }
    push_hex_u64(n, out);
    proof {
        assert(out@ =~= old(out)@ + zero_pad(hex_repr(n as nat), width as nat));
    }
}

} // verus!
