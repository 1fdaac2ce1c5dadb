//! Chunked digest engine: stream a region through the MD5 primitive in
//! bounded segments, so that no single call feeds more than one segment.
use vstd::prelude::*;

use vstd::slice::slice_subrange;

use crypto::digest::Digest;
use crypto::md5::Md5;

verus! {

/// Bytes fed to the digest primitive in one step: 1 MiB.
pub const MD5_SEG_SIZE: usize = 1048576;

#[verifier::external_type_specification]
#[verifier::external_body]
pub struct ExMd5(Md5);

/// The lowercase hexadecimal MD5 digest of a byte sequence; a function of
/// the bytes alone.
pub uninterp spec fn md5_hex_of(bytes: Seq<u8>) -> Seq<char>;

/// Relies on `crypto::md5::Md5::new`: a fresh digest state with no input yet.
#[verifier::external_body]
fn md5_new() -> Md5 {
    Md5::new()
}

/// An MD5 accumulator that remembers, in ghost state, every byte fed so far.
pub(crate) struct Md5Hasher {
    inner: Md5,
    fed: Ghost<Seq<u8>>,
}

impl Md5Hasher {
    /// The bytes absorbed so far.
    pub(crate) closed spec fn bytes_fed(&self) -> Seq<u8> {
        self.fed@
    }

    /// A fresh accumulator with no input yet.
    pub(crate) fn new() -> (h: Md5Hasher)
        ensures
            h.bytes_fed() == Seq::<u8>::empty(),
    {
        Md5Hasher { inner: md5_new(), fed: Ghost(Seq::empty()) }
    }

    /// Relies on `crypto::digest::Digest::input` for `Md5`: absorbs the
    /// bytes after those already fed.
    #[verifier::external_body]
    pub(crate) fn feed(&mut self, data: &[u8])
        ensures
            final(self).bytes_fed() == old(self).bytes_fed() + data@,
    {
        self.inner.input(data);
    }

    /// Relies on `crypto::digest::Digest::result_str` for `Md5`: the
    /// lowercase hexadecimal digest of everything fed, 32 digits for the
    /// 128-bit result.
    #[verifier::external_body]
    pub(crate) fn result_hex(self) -> (r: String)
        ensures
            r@ == md5_hex_of(self.bytes_fed()),
            r@.len() == 32,
    {
        let mut inner = self.inner;
        inner.result_str()
    }
}

/// How many segments a region of `size` bytes is fed in.
pub open spec fn seg_count(size: int) -> int {
    (size + MD5_SEG_SIZE - 1) / (MD5_SEG_SIZE as int)
}

/// Digest a region segment by segment: every full segment in order, then
/// the final (possibly partial) one. The result is the digest of the whole
/// region, exactly as if it had been fed in one pass.
pub fn get_md5(bytes: &[u8]) -> (r: String)
    requires
        bytes@.len() > 0,
    ensures
        r@ == md5_hex_of(bytes@),
        r@.len() == 32,
{
    let size = bytes.len();
    let mut hasher = Md5Hasher::new();
    let seg_cnt: usize = size / MD5_SEG_SIZE + if size % MD5_SEG_SIZE == 0 {
        0usize
    } else {
        1usize
    };
    proof {
        assert(seg_cnt == seg_count(size as int));
        assert(seg_cnt >= 1);
        assert((seg_cnt - 1) * (MD5_SEG_SIZE as int) < size as int);
        assert(bytes@.subrange(0, 0) =~= Seq::<u8>::empty());
    }
    let mut i: usize = 0;
    while i < seg_cnt - 1
        invariant
            size == bytes@.len(),
            0 < size <= usize::MAX,
            seg_cnt == seg_count(size as int),
            1 <= seg_cnt,
            (seg_cnt - 1) * (MD5_SEG_SIZE as int) < size as int,
            i <= seg_cnt - 1,
            hasher.bytes_fed() == bytes@.subrange(0, i * MD5_SEG_SIZE as int),
        decreases seg_cnt - 1 - i,
    {
        proof {
            assert((i + 1) * (MD5_SEG_SIZE as int) <= (seg_cnt - 1) * (MD5_SEG_SIZE as int))
                by (nonlinear_arith)
                requires
                    i + 1 <= seg_cnt - 1,
                    MD5_SEG_SIZE as int > 0,
            ;
        }
        let start = i * MD5_SEG_SIZE;
        let end = start + MD5_SEG_SIZE;
        let seg = slice_subrange(bytes, start, end);
        hasher.feed(seg);
        proof {
            assert(bytes@.subrange(0, end as int) =~= bytes@.subrange(0, start as int)
                + bytes@.subrange(start as int, end as int));
        }
        i += 1;
    }
    let start = (seg_cnt - 1) * MD5_SEG_SIZE;
    let seg = slice_subrange(bytes, start, size);
    hasher.feed(seg);
    proof {
        assert(bytes@.subrange(0, size as int) =~= bytes@.subrange(0, start as int)
            + bytes@.subrange(start as int, size as int));
        assert(bytes@.subrange(0, size as int) =~= bytes@);
    }
    hasher.result_hex()
}

} // verus!
