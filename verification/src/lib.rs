//! Inspect and mutate a contiguous byte region by address and size:
//! digest its contents in bounded segments, fill it with fixed or random
//! bytes, render a unit-grouped hex dump, and poke a little-endian scalar.
//!
//! The library works on plain byte sequences; acquiring and releasing the
//! underlying memory mapping is the caller's concern.
pub mod cli;
pub mod digest;
pub mod dump;
pub mod errors;
pub mod hexfmt;
pub mod poke;
pub mod writer;
