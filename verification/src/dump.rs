//! Hex dump formatter: an address-prefixed, unit-grouped hexadecimal view
//! of a byte sequence, 16 raw bytes per line, with an extra gap space at
//! the middle of each line.
use vstd::prelude::*;

use crate::errors::MemError;
use crate::hexfmt::{
    addr_width, addr_width_of, byte_hex, hex_repr, push_byte_hex, push_padded_hex, zero_pad,
};

verus! {

/// The display unit actually used: 2, 4 and 8 group bytes into one token;
/// any other requested unit degrades to per-byte display.
pub open spec fn eff_unit(unit: int) -> int {
    if unit == 2 || unit == 4 || unit == 8 {
        unit
    } else {
        1
    }
}

/// The token of one unit: the hex digits of the `u` bytes starting at
/// `base`, highest address first, so the unit reads as a little-endian
/// scalar.
pub open spec fn group_hex(bytes: Seq<u8>, base: int, u: int) -> Seq<char>
    decreases u,
{
    if u <= 0 {
        Seq::empty()
    } else {
        byte_hex(bytes[base + u - 1]) + group_hex(bytes, base, u - 1)
    }
}

/// The body of a line up to byte position `i` (exclusive), for a line that
/// starts at `st` in `bytes`: one extra gap space before position 8, and at
/// every position that is a multiple of `u` the unit token and a space.
pub open spec fn line_body(bytes: Seq<u8>, st: int, u: int, i: int) -> Seq<char>
    decreases i,
{
    if i <= 0 {
        Seq::empty()
    } else {
        line_body(bytes, st, u, i - 1) + (if i - 1 == 8 {
            seq![' ']
        } else {
            Seq::empty()
        }) + (if (i - 1) % u == 0 {
            group_hex(bytes, st + i - 1, u) + seq![' ']
        } else {
            Seq::empty()
        })
    }
}

/// How many of the 16 byte positions line `line` shows.
pub open spec fn line_chars(len: int, line: int) -> int {
    if len - line * 16 < 16 {
        len - line * 16
    } else {
        16
    }
}

/// How many lines a dump of `len` bytes has: ceil(len / 16).
pub open spec fn line_count(len: int) -> int {
    (len + 15) / 16
}

/// One full dump line: the zero-padded hex address of its first byte,
/// ": ", then the line body.
pub open spec fn dump_line(addr: u64, bytes: Seq<u8>, u: int, w: nat, line: int) -> Seq<char> {
    zero_pad(hex_repr((addr + line * 16) as nat), w) + seq![':', ' '] + line_body(
        bytes,
        line * 16,
        u,
        line_chars(bytes.len() as int, line),
    )
}

/// `lines` is exactly the dump of `bytes` as seen from `addr` with the
/// requested unit: one entry per 16 bytes, each the corresponding line.
pub open spec fn is_dump_of(lines: Seq<Seq<char>>, addr: u64, bytes: Seq<u8>, unit: int) -> bool {
    &&& lines.len() == line_count(bytes.len() as int)
    &&& forall|l: int|
        0 <= l < lines.len() ==> #[trigger] lines[l] == dump_line(
            addr,
            bytes,
            eff_unit(unit),
            addr_width((addr + bytes.len()) as nat),
            l,
        )
}

/// A dump of no bytes has no lines.
pub proof fn lemma_empty_dump(lines: Seq<Seq<char>>, addr: u64, unit: int)
    requires
        is_dump_of(lines, addr, Seq::empty(), unit),
    ensures
        lines.len() == 0,
{
}

proof fn lemma_aligned(i: int, c: int, u: int)
    requires
        u == 1 || u == 2 || u == 4 || u == 8,
        0 <= i < c,
        i % u == 0,
        c % u == 0,
    ensures
        i + u <= c,
{
    if u == 1 {
    } else if u == 2 {
    } else if u == 4 {
    } else {
    }
}

proof fn lemma_line_mod(line: int, u: int)
    requires
        u == 1 || u == 2 || u == 4 || u == 8,
        0 <= line,
    ensures
        (line * 16) % u == 0,
{
    if u == 1 {
    } else if u == 2 {
    } else if u == 4 {
    } else {
    }
}

/// Render one dump line: the padded address of its first byte, ": ", and
/// the unit tokens of its bytes.
#[verifier::loop_isolation(false)]
#[verifier::rlimit(100)]
fn render_line(start_addr: u64, bytes: &[u8], u: usize, width: usize, line: usize) -> (s: String)
    requires
        u == 1 || u == 2 || u == 4 || u == 8,
        (bytes@.len() as int) % (u as int) == 0,
        start_addr + bytes@.len() <= u64::MAX,
        line * 16 < bytes@.len(),
    ensures
        s@ == dump_line(start_addr, bytes@, u as int, width as nat, line as int),
{
    let byte_size = bytes.len();
    let st = line * 16;
    let remaining = byte_size - st;
    let chars_num = if remaining < 16 {
        remaining
    } else {
        16
    };
    proof {
        lemma_line_mod(line as int, u as int);
        assert(chars_num as int == line_chars(byte_size as int, line as int));
        assert((chars_num as int) % (u as int) == 0);
    }
    let mut s = String::new();
    push_padded_hex(start_addr + st as u64, width, &mut s);
    s.push(':');
    s.push(' ');
    let ghost header = s@;
    proof {
        assert(s@ =~= header + line_body(bytes@, st as int, u as int, 0));
    }
    let mut i: usize = 0;
    while i < chars_num
        invariant
            i <= chars_num,
            s@ == header + line_body(bytes@, st as int, u as int, i as int),
        decreases chars_num - i,
    {
        if i == 8 {
            s.push(' ');
        }
        if i % u == 0 {
            proof {
                lemma_aligned(i as int, chars_num as int, u as int);
            }
            let base = st + i;
            let ghost g0 = s@;
            let mut k = u;
            while k > 0
                invariant
                    k <= u,
                    s@ + group_hex(bytes@, base as int, k as int) == g0 + group_hex(
                        bytes@,
                        base as int,
                        u as int,
                    ),
                decreases k,
            {
                let b = bytes[base + k - 1];
                let ghost sp = s@;
                push_byte_hex(b, &mut s);
                proof {
                    assert(s@ + group_hex(bytes@, base as int, (k - 1) as int) =~= sp + group_hex(
                        bytes@,
                        base as int,
                        k as int,
                    ));
                }
                k -= 1;
            }
            proof {
                assert(group_hex(bytes@, base as int, 0) =~= Seq::<char>::empty());
                assert(s@ =~= g0 + group_hex(bytes@, base as int, u as int));
            }
            s.push(' ');
        }
        i += 1;
        proof {
            assert(s@ =~= header + line_body(bytes@, st as int, u as int, i as int));
        }
    }
    proof {
        assert(s@ =~= dump_line(start_addr, bytes@, u as int, width as nat, line as int));
    }
    s
}

/// Render `unit_count` units of `unit` bytes starting at `start_addr` as
/// dump lines. The bytes are the region's full contents; a unit outside
/// {1, 2, 4, 8} degrades to per-byte display.
#[verifier::loop_isolation(false)]
pub fn dump(start_addr: u64, bytes: &[u8], unit: usize, unit_count: usize) -> (lines: Vec<String>)
    requires
        bytes@.len() == unit * unit_count,
        start_addr + bytes@.len() <= u64::MAX,
    ensures
        is_dump_of(lines.deep_view(), start_addr, bytes@, unit as int),
{
    let byte_size = bytes.len();
    let end_addr = start_addr + byte_size as u64;
    let width = addr_width_of(end_addr);
    let u: usize = if unit == 2 || unit == 4 || unit == 8 {
        unit
    } else {
        1
    };
    let line_cnt: usize = byte_size / 16 + if byte_size % 16 == 0 {
        0usize
    } else {
        1usize
    };
    proof {
        assert(line_cnt == line_count(byte_size as int));
        if unit == 2 || unit == 4 || unit == 8 {
            assert((byte_size as int) % (u as int) == 0) by (nonlinear_arith)
                requires
                    byte_size == unit * unit_count,
                    u == unit,
                    0 < u,
            ;
        }
    }
    let mut lines: Vec<String> = Vec::new();
    let mut line: usize = 0;
    while line < line_cnt
        invariant
            lines@.len() == line,
            line <= line_cnt,
            forall|l: int|
                0 <= l < line ==> (#[trigger] lines@[l])@ == dump_line(
                    start_addr,
                    bytes@,
                    u as int,
                    width as nat,
                    l,
                ),
        decreases line_cnt - line,
    {
        let s = render_line(start_addr, bytes, u, width, line);
        lines.push(s);
        line += 1;
    }
    proof {
        assert(lines.deep_view().len() == lines@.len());
        assert forall|l: int| 0 <= l < lines@.len() implies #[trigger] lines.deep_view()[l]
            == dump_line(
            start_addr,
            bytes@,
            eff_unit(unit as int),
            addr_width((start_addr + bytes@.len()) as nat),
            l,
        ) by {
            assert(lines.deep_view()[l] == lines@[l]@);
        }
    }
    lines
}

/// Dump a region per byte: every byte as its own token. Rejects an empty
/// region.
pub fn read(addr: u64, bytes: &[u8]) -> (r: Result<Vec<String>, MemError>)
    requires
        addr + bytes@.len() <= u64::MAX,
    ensures
        r is Ok <==> bytes@.len() > 0,
        r matches Ok(lines) ==> is_dump_of(lines.deep_view(), addr, bytes@, 1),
        r is Err ==> r == Err::<Vec<String>, MemError>(MemError::EmptyRange),
{
    if bytes.len() == 0 {
        return Err(MemError::EmptyRange);
    }
    Ok(dump(addr, bytes, 1, bytes.len()))
}

/// Dump a region of `count` units of `unit` bytes each. Rejects an empty
/// region.
pub fn mem_dump(addr: u64, bytes: &[u8], unit: usize, count: usize) -> (r: Result<
    Vec<String>,
    MemError,
>)
    requires
        bytes@.len() == unit * count,
        addr + bytes@.len() <= u64::MAX,
    ensures
        r is Ok <==> bytes@.len() > 0,
        r matches Ok(lines) ==> is_dump_of(lines.deep_view(), addr, bytes@, unit as int),
        r is Err ==> r == Err::<Vec<String>, MemError>(MemError::EmptyRange),
{
    if bytes.len() == 0 {
        return Err(MemError::EmptyRange);
    }
    Ok(dump(addr, bytes, unit, count))
}

} // verus!
