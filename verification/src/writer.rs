//! Byte writer: fill a region with a fixed value, or with independently
//! drawn pseudo-random bytes when no value is supplied.
use vstd::prelude::*;

verus! {

/// Relies on rand 0.8's `rand::random`: a value drawn from the thread-local
/// generator. Nothing is promised of the value.
pub assume_specification<T>[ rand::random::<T> ]() -> (r: T)
    where
        rand::distributions::Standard: rand::distributions::Distribution<T>,
;

/// Relies on `<[u8]>::fill`: sets every element of the slice to the value.
#[verifier::external_body]
fn fill_bytes(region: &mut Vec<u8>, value: u8)
    ensures
        final(region)@ == Seq::new(old(region)@.len(), |i: int| value),
{
    region.fill(value);
}

/// Write every byte of the region: the supplied value at each position, or
/// an independently drawn pseudo-random byte when none is supplied.
pub fn write(region: &mut Vec<u8>, value: Option<u8>)
    ensures
        final(region)@.len() == old(region)@.len(),
        value matches Some(v) ==> final(region)@ == Seq::new(old(region)@.len(), |i: int| v),
{
    let n = region.len();
    let mut pos: usize = 0;
    while pos < n
        invariant
            region@.len() == n,
            pos <= n,
            value matches Some(v) ==> forall|j: int| 0 <= j < pos ==> region@[j] == v,
        decreases n - pos,
    {
        let b: u8 = match value {
            Some(v) => v,
            None => rand::random::<u8>(),
        };
        region[pos] = b;
        pos += 1;
    }
    proof {
        if let Some(v) = value {
            assert(region@ =~= Seq::new(region@.len(), |i: int| v));
        }
    }
}

/// Fill the whole region with the supplied value, or with 0 when none is
/// supplied, as one bulk fill.
pub fn clear(region: &mut Vec<u8>, value: Option<u8>)
    ensures
        final(region)@ == Seq::new(old(region)@.len(), |i: int| value.unwrap_or(0u8)),
{
    let v: u8 = match value {
        Some(v) => v,
        None => 0,
    };
    fill_bytes(region, v);
}

} // verus!
