//! Hamming and Levenshtein distance acceleration built on a uniform
//! lane-vector abstraction.
//!
//! The core of the crate is the [`jewel::Jewel`] contract: an in-place
//! mutating vector of 8-bit lanes stored in fixed words of 32 lanes each,
//! together with [`jewel::AvxNx32x8`], a portable realization of that word
//! layout. Distance routines drive the contract's factory, load, arithmetic,
//! shift and mismatch-counting operations; this crate states and proves the
//! exact lane-level behaviour of each operation.
//!
//! Strings are sequences of `u8` values; multi-byte codepoints are outside
//! the scope of these routines.

use vstd::prelude::*;

pub mod jewel;
pub mod lanes;

verus! {

/// A single matching location, as returned by searching routines.
#[derive(Debug, PartialEq, Eq, Structural)]
pub struct Match {
    /// The start index of the match (inclusive).
    pub start: usize,
    /// The end index of the match (exclusive).
    pub end: usize,
    /// Number of edits for the match.
    pub k: u32,
}

/// One edit operation, as returned in the traceback of matching routines.
#[derive(Debug, PartialEq, Eq, Structural)]
pub enum Edit {
    Match,
    Mismatch,
    AGap,
    BGap,
}

/// Allocates a byte buffer of `len` zeroed bytes.
///
/// The buffer is meant to be filled in place (for example with [`fill_str`])
/// before it is handed to the distance routines.
pub fn alloc_str(len: usize) -> (r: Vec<u8>)
    ensures
        r@.len() == len,
        forall|i: int| 0 <= i < len ==> r@[i] == 0u8,
{
    let mut v: Vec<u8> = Vec::new();
    let mut i: usize = 0;
    while i < len
        invariant
            i <= len,
            v@.len() == i,
            forall|j: int| 0 <= j < i ==> v@[j] == 0u8,
        decreases len - i,
    {
        v.push(0u8);
        i = i + 1;
    }
    v
}

/// Copies `src` into the prefix of `dest`, leaving the rest of `dest`
/// unchanged. The caller must supply a destination at least as long as the
/// source.
pub fn fill_str(dest: &mut [u8], src: &[u8])
    requires
        src@.len() <= old(dest)@.len(),
    ensures
        final(dest)@.len() == old(dest)@.len(),
        forall|i: int| 0 <= i < src@.len() ==> final(dest)@[i] == src@[i],
        forall|i: int| src@.len() <= i < old(dest)@.len() ==> final(dest)@[i] == old(dest)@[i],
{
    let mut i: usize = 0;
    while i < src.len()
        invariant
            i <= src@.len(),
            src@.len() <= dest@.len(),
            dest@.len() == old(dest)@.len(),
            forall|j: int| 0 <= j < i ==> dest@[j] == src@[j],
            forall|j: int| i <= j < old(dest)@.len() ==> dest@[j] == old(dest)@[j],
        decreases src@.len() - i,
    {
        dest[i] = src[i];
        i = i + 1;
    }
}

} // verus!
