//! The lane-vector contract and its portable word-layout realization.
//!
//! A lane vector is a logical sequence of `len` 8-bit lanes physically
//! stored as `ceil(len / 32)` words of 32 lanes each. Lanes beyond `len`
//! inside the last word are real, hardware-visible storage: the constructing
//! operation defines them (a broadcast fills them with the broadcast value,
//! an unaligned load zero-pads them), in-place mutation may change them, and
//! callers that walk every physically backed lane must use `upper_bound`,
//! not the logical length.

use vstd::prelude::*;

use crate::lanes::blend;
use crate::lanes::blend_exec;
use crate::lanes::eq_mask;
use crate::lanes::eq_mask_exec;
use crate::lanes::gt_mask;
use crate::lanes::gt_mask_exec;
use crate::lanes::lemma_match_mismatch_total;
use crate::lanes::lemma_matches_split;
use crate::lanes::lemma_sum_prefix_update;
use crate::lanes::lemma_sum_prefix_zero;
use crate::lanes::matches_in;
use crate::lanes::mismatches_in;
use crate::lanes::sat_add;
use crate::lanes::sat_add_exec;
use crate::lanes::smax;
use crate::lanes::smax_exec;
use crate::lanes::smin;
use crate::lanes::smin_exec;
use crate::lanes::sum_prefix;
use crate::lanes::triple_min_cost;
use crate::lanes::triple_min_len;
use crate::lanes::wrap_add;
use crate::lanes::wrap_add_exec;
use crate::lanes::wrap_sub;
use crate::lanes::wrap_sub_exec;
use crate::lanes::MAX_LANE;

verus! {

/// The low byte of a broadcast or insert argument: the part of the value
/// that one lane can hold.
pub open spec fn low_byte(val: u32) -> u8 {
    (val % 256) as u8
}

/// The minimum word count covering `len` lanes.
pub open spec fn word_count(len: nat) -> nat {
    (len + 31) / 32
}

/// The hardware-visible lane capacity backing `len` logical lanes: every
/// lane of every word of the minimum covering word count.
pub open spec fn lane_capacity(len: nat) -> nat {
    word_count(len) * 32
}

/// The lane sequence after a one-lane shift of the whole logical sequence
/// towards index zero, across word boundaries; the vacated last lane is
/// zero.
pub open spec fn shifted_left(s: Seq<u8>) -> Seq<u8> {
    s.subrange(1, s.len() as int).push(0u8)
}

/// The lane sequence after a one-lane shift of the whole logical sequence
/// away from index zero, across word boundaries; the vacated first lane is
/// zero.
pub open spec fn shifted_right(s: Seq<u8>) -> Seq<u8> {
    seq![0u8].add(s.subrange(0, s.len() - 1))
}

/// Shifting left by one lane and then right by one lane is not the identity
/// at the boundary: every lane from index one up is reproduced, while lane
/// zero, vacated by the left shift, comes back as zero and is not
/// recoverable.
pub proof fn lemma_shift_left_then_right(s: Seq<u8>)
    requires
        s.len() >= 1,
    ensures
        shifted_right(shifted_left(s)).len() == s.len(),
        shifted_right(shifted_left(s))[0] == 0u8,
        forall|i: int| 1 <= i < s.len() ==> shifted_right(shifted_left(s))[i] == s[i],
{
    let l = shifted_left(s);
    let r = shifted_right(l);
    assert forall|i: int| 1 <= i < s.len() implies r[i] == s[i] by {
        assert(r[i] == l.subrange(0, l.len() - 1)[i - 1]);
        assert(l[i - 1] == s.subrange(1, s.len() as int)[i - 1]);
    }
}

/// The capacity covers the logical length, stays within one word of it, and
/// is a whole number of words.
pub proof fn lemma_lane_capacity(len: nat)
    ensures
        len <= lane_capacity(len) < len + 32,
        lane_capacity(len) % 32 == 0,
{
    let q = (len + 31) / 32nat;
    let r = (len + 31) % 32nat;
    vstd::arithmetic::div_mod::lemma_fundamental_div_mod((len + 31) as int, 32);
    assert(len + 31 == 32 * q + r);
    assert(lane_capacity(len) == 32 * q) by {
        vstd::arithmetic::mul::lemma_mul_is_commutative(q as int, 32);
    }
    vstd::arithmetic::div_mod::lemma_mod_multiples_basic(q as int, 32);
    vstd::arithmetic::div_mod::lemma_mul_mod_noop_left(q as int, 1, 32);
}

/// The uniform capability contract for vectors of 8-bit lanes stored in
/// words of 32 lanes. Most operations mutate in place, so long operation
/// sequences need no reallocation.
pub trait Jewel: Sized {
    /// Every lane the backing words hold, the tail beyond the logical
    /// length included.
    spec fn lanes(&self) -> Seq<u8>;

    /// The logical element count the vector was created for.
    spec fn logical_len(&self) -> nat;

    /// Structural soundness: the backing words are exactly the minimum word
    /// count covering the logical length.
    spec fn wf(&self) -> bool;

    /// Creates a vector of `len` lanes, broadcasting the low byte of `val`
    /// into every lane of every word, the unused tail included.
    fn repeating(val: u32, len: usize) -> (r: Self)
        requires
            len + 31 <= usize::MAX,
        ensures
            r.wf(),
            r.logical_len() == len,
            r.lanes().len() == lane_capacity(len as nat),
            forall|i: int| 0 <= i < r.lanes().len() ==> r.lanes()[i] == low_byte(val),
    ;

    /// Creates a vector of `len` lanes with every lane, the unused tail
    /// included, holding the sentinel maximum byte.
    fn repeating_max(len: usize) -> (r: Self)
        requires
            len + 31 <= usize::MAX,
        ensures
            r.wf(),
            r.logical_len() == len,
            r.lanes().len() == lane_capacity(len as nat),
            forall|i: int| 0 <= i < r.lanes().len() ==> r.lanes()[i] == MAX_LANE,
    ;

    /// Unaligned load: creates a vector of the first `len` bytes of `src`,
    /// reading no byte of `src` past `len`; the tail of the last word is
    /// zero-padded.
    fn loadu(src: &[u8], len: usize) -> (r: Self)
        requires
            len <= src@.len(),
            len + 31 <= usize::MAX,
        ensures
            r.wf(),
            r.logical_len() == len,
            r.lanes().len() == lane_capacity(len as nat),
            forall|i: int| 0 <= i < len ==> r.lanes()[i] == src@[i],
            forall|i: int| len <= i < r.lanes().len() ==> r.lanes()[i] == 0u8,
    ;

    /// The true hardware-visible lane capacity, which may exceed the
    /// logical length; iteration over all physically backed lanes uses
    /// this.
    fn upper_bound(&self) -> (r: usize)
        requires
            self.wf(),
        ensures
            r == self.lanes().len(),
    ;

    /// Reads the lane at `i`.
    fn extract(&self, i: usize) -> (r: u32)
        requires
            self.wf(),
            i < self.lanes().len(),
        ensures
            r == self.lanes()[i as int] as u32,
    ;

    /// Sets the lane at `i` to the low byte of `val`.
    fn insert(&mut self, i: usize, val: u32)
        requires
            old(self).wf(),
            i < old(self).lanes().len(),
        ensures
            final(self).wf(),
            final(self).logical_len() == old(self).logical_len(),
            final(self).lanes() == old(self).lanes().update(i as int, low_byte(val)),
    ;

    /// Byte-granular partial reload: writes the first `len` bytes of `src`
    /// into the lanes starting at logical index `idx`, advancing forward or,
    /// if `reverse`, backward; every other lane keeps its value.
    fn slow_loadu(&mut self, idx: usize, src: &[u8], len: usize, reverse: bool)
        requires
            old(self).wf(),
            len <= src@.len(),
            len > 0 && !reverse ==> idx + len <= old(self).lanes().len(),
            len > 0 && reverse ==> idx < old(self).lanes().len() && len <= idx + 1,
        ensures
            final(self).wf(),
            final(self).logical_len() == old(self).logical_len(),
            final(self).lanes().len() == old(self).lanes().len(),
            forall|i: int|
                0 <= i < len ==> final(self).lanes()[if reverse {
                    idx - i
                } else {
                    idx + i
                }] == src@[i],
            forall|p: int|
                0 <= p < old(self).lanes().len() && (if reverse {
                    p > idx || p <= idx - len
                } else {
                    p < idx || p >= idx + len
                }) ==> final(self).lanes()[p] == old(self).lanes()[p],
    ;

    /// Full-vector unaligned reload, one word at a time; `src` must cover
    /// the whole lane capacity.
    fn fast_loadu(&mut self, src: &[u8])
        requires
            old(self).wf(),
            old(self).lanes().len() <= src@.len(),
        ensures
            final(self).wf(),
            final(self).logical_len() == old(self).logical_len(),
            final(self).lanes().len() == old(self).lanes().len(),
            forall|i: int| 0 <= i < final(self).lanes().len() ==> final(self).lanes()[i] == src@[i],
    ;

    /// Elementwise in-place wrapping addition.
    fn add(&mut self, o: &Self)
        requires
            old(self).wf(),
            o.wf(),
            o.lanes().len() == old(self).lanes().len(),
        ensures
            final(self).wf(),
            final(self).logical_len() == old(self).logical_len(),
            final(self).lanes().len() == old(self).lanes().len(),
            forall|i: int|
                0 <= i < final(self).lanes().len() ==> final(self).lanes()[i] == wrap_add(
                    old(self).lanes()[i],
                    o.lanes()[i],
                ),
    ;

    /// Elementwise in-place signed saturating addition.
    fn adds(&mut self, o: &Self)
        requires
            old(self).wf(),
            o.wf(),
            o.lanes().len() == old(self).lanes().len(),
        ensures
            final(self).wf(),
            final(self).logical_len() == old(self).logical_len(),
            final(self).lanes().len() == old(self).lanes().len(),
            forall|i: int|
                0 <= i < final(self).lanes().len() ==> final(self).lanes()[i] == sat_add(
                    old(self).lanes()[i],
                    o.lanes()[i],
                ),
    ;

    /// Elementwise in-place directional subtraction: each lane becomes the
    /// other operand's lane minus this vector's lane.
    fn neg_add(&mut self, o: &Self)
        requires
            old(self).wf(),
            o.wf(),
            o.lanes().len() == old(self).lanes().len(),
        ensures
            final(self).wf(),
            final(self).logical_len() == old(self).logical_len(),
            final(self).lanes().len() == old(self).lanes().len(),
            forall|i: int|
                0 <= i < final(self).lanes().len() ==> final(self).lanes()[i] == wrap_sub(
                    o.lanes()[i],
                    old(self).lanes()[i],
                ),
    ;

    /// Elementwise in-place bitwise and.
    fn and(&mut self, o: &Self)
        requires
            old(self).wf(),
            o.wf(),
            o.lanes().len() == old(self).lanes().len(),
        ensures
            final(self).wf(),
            final(self).logical_len() == old(self).logical_len(),
            final(self).lanes().len() == old(self).lanes().len(),
            forall|i: int|
                0 <= i < final(self).lanes().len() ==> final(self).lanes()[i] == (old(
                    self,
                ).lanes()[i] & o.lanes()[i]),
    ;

    /// In-place select, with this vector as the mask: for each lane, a mask
    /// byte whose high bit is set selects `b`'s byte, otherwise `a`'s byte
    /// is kept; the result overwrites the mask.
    fn blendv(&mut self, a: &Self, b: &Self)
        requires
            old(self).wf(),
            a.wf(),
            b.wf(),
            a.lanes().len() == old(self).lanes().len(),
            b.lanes().len() == old(self).lanes().len(),
        ensures
            final(self).wf(),
            final(self).logical_len() == old(self).logical_len(),
            final(self).lanes().len() == old(self).lanes().len(),
            forall|i: int|
                0 <= i < final(self).lanes().len() ==> final(self).lanes()[i] == blend(
                    old(self).lanes()[i],
                    a.lanes()[i],
                    b.lanes()[i],
                ),
    ;

    /// Shifts the entire lane sequence one position towards index zero,
    /// across word boundaries; the vacated last lane becomes zero.
    fn shift_left_1(&mut self)
        requires
            old(self).wf(),
            old(self).lanes().len() >= 1,
        ensures
            final(self).wf(),
            final(self).logical_len() == old(self).logical_len(),
            final(self).lanes() == shifted_left(old(self).lanes()),
    ;

    /// Shifts the entire lane sequence one position away from index zero,
    /// across word boundaries; the vacated first lane becomes zero.
    fn shift_right_1(&mut self)
        requires
            old(self).wf(),
            old(self).lanes().len() >= 1,
        ensures
            final(self).wf(),
            final(self).logical_len() == old(self).logical_len(),
            final(self).lanes() == shifted_right(old(self).lanes()),
    ;

    /// Sets the last physically backed lane to the low byte of `val`.
    fn insert_last_0(&mut self, val: u32)
        requires
            old(self).wf(),
            old(self).lanes().len() >= 1,
        ensures
            final(self).wf(),
            final(self).logical_len() == old(self).logical_len(),
            final(self).lanes() == old(self).lanes().update(
                old(self).lanes().len() - 1,
                low_byte(val),
            ),
    ;

    /// Sets the second-to-last physically backed lane to the low byte of
    /// `val`.
    fn insert_last_1(&mut self, val: u32)
        requires
            old(self).wf(),
            old(self).lanes().len() >= 2,
        ensures
            final(self).wf(),
            final(self).logical_len() == old(self).logical_len(),
            final(self).lanes() == old(self).lanes().update(
                old(self).lanes().len() - 2,
                low_byte(val),
            ),
    ;

    /// Sets the third-to-last physically backed lane to the low byte of
    /// `val`.
    fn insert_last_2(&mut self, val: u32)
        requires
            old(self).wf(),
            old(self).lanes().len() >= 3,
        ensures
            final(self).wf(),
            final(self).logical_len() == old(self).logical_len(),
            final(self).lanes() == old(self).lanes().update(
                old(self).lanes().len() - 3,
                low_byte(val),
            ),
    ;

    /// Seeds the last physically backed lane with the sentinel maximum
    /// byte.
    fn insert_last_max(&mut self)
        requires
            old(self).wf(),
            old(self).lanes().len() >= 1,
        ensures
            final(self).wf(),
            final(self).logical_len() == old(self).logical_len(),
            final(self).lanes() == old(self).lanes().update(
                old(self).lanes().len() - 1,
                MAX_LANE,
            ),
    ;

    /// Sets lane zero to the low byte of `val`.
    fn insert_first(&mut self, val: u32)
        requires
            old(self).wf(),
            old(self).lanes().len() >= 1,
        ensures
            final(self).wf(),
            final(self).logical_len() == old(self).logical_len(),
            final(self).lanes() == old(self).lanes().update(0, low_byte(val)),
    ;

    /// Seeds lane zero with the sentinel maximum byte.
    fn insert_first_max(&mut self)
        requires
            old(self).wf(),
            old(self).lanes().len() >= 1,
        ensures
            final(self).wf(),
            final(self).logical_len() == old(self).logical_len(),
            final(self).lanes() == old(self).lanes().update(0, MAX_LANE),
    ;

    /// Direct mismatch count over the first `len` bytes of two buffers: one
    /// pass summing matches straight into a 32-bit accumulator; the caller
    /// keeps `len` within that accumulator's range.
    fn mm_count_mismatches(a: &[u8], b: &[u8], len: usize) -> (r: u32)
        requires
            len <= a@.len(),
            len <= b@.len(),
            len <= u32::MAX,
        ensures
            r == mismatches_in(a@, b@, 0, len as int),
    ;

    /// Batched, overflow-safe mismatch count over the first `len` bytes of
    /// two buffers: per-lane byte counters over at most 255 words at a
    /// time, folded into a wide accumulator between batches, plus a scalar
    /// tail for the leftover bytes.
    fn count_mismatches(a: &[u8], b: &[u8], len: usize) -> (r: u32)
        requires
            len <= a@.len(),
            len <= b@.len(),
            len <= u32::MAX,
        ensures
            r == mismatches_in(a@, b@, 0, len as int),
    ;

    /// Batched mismatch count of an already-constructed vector against a
    /// raw buffer, over the vector's full lane capacity (its `upper_bound`,
    /// not an external length).
    fn vector_count_mismatches(a: &Self, b: &[u8]) -> (r: u32)
        requires
            a.wf(),
            a.lanes().len() <= b@.len(),
            a.lanes().len() <= u32::MAX,
        ensures
            r == mismatches_in(a.lanes(), b@, 0, a.lanes().len() as int),
    ;

    /// Fused clone-and-compare: a fresh vector whose lanes are the equality
    /// masks of the operands' lanes, leaving both operands retained.
    fn cmpeq(a: &Self, b: &Self) -> (r: Self)
        requires
            a.wf(),
            b.wf(),
            b.lanes().len() == a.lanes().len(),
        ensures
            r.wf(),
            r.logical_len() == a.logical_len(),
            r.lanes().len() == a.lanes().len(),
            forall|i: int| 0 <= i < r.lanes().len() ==> r.lanes()[i] == eq_mask(
                a.lanes()[i],
                b.lanes()[i],
            ),
    ;

    /// Fused clone-and-compare: a fresh vector whose lanes are the signed
    /// greater-than masks of the operands' lanes.
    fn cmpgt(a: &Self, b: &Self) -> (r: Self)
        requires
            a.wf(),
            b.wf(),
            b.lanes().len() == a.lanes().len(),
        ensures
            r.wf(),
            r.logical_len() == a.logical_len(),
            r.lanes().len() == a.lanes().len(),
            forall|i: int| 0 <= i < r.lanes().len() ==> r.lanes()[i] == gt_mask(
                a.lanes()[i],
                b.lanes()[i],
            ),
    ;

    /// Fused clone-and-select: a fresh vector of the lane-wise signed
    /// minima of the operands.
    fn min(a: &Self, b: &Self) -> (r: Self)
        requires
            a.wf(),
            b.wf(),
            b.lanes().len() == a.lanes().len(),
        ensures
            r.wf(),
            r.logical_len() == a.logical_len(),
            r.lanes().len() == a.lanes().len(),
            forall|i: int| 0 <= i < r.lanes().len() ==> r.lanes()[i] == smin(
                a.lanes()[i],
                b.lanes()[i],
            ),
    ;

    /// Fused clone-and-select: a fresh vector of the lane-wise signed
    /// maxima of the operands.
    fn max(a: &Self, b: &Self) -> (r: Self)
        requires
            a.wf(),
            b.wf(),
            b.lanes().len() == a.lanes().len(),
        ensures
            r.wf(),
            r.logical_len() == a.logical_len(),
            r.lanes().len() == a.lanes().len(),
            forall|i: int| 0 <= i < r.lanes().len() ==> r.lanes()[i] == smax(
                a.lanes()[i],
                b.lanes()[i],
            ),
    ;

    /// Fused three-way minimum with paired length tie-break, combined per
    /// lane in two left-associated stages: first the minimum of the two gap
    /// costs (on a tie the longer of their lengths wins), then the minimum
    /// of the substitution cost against that result (same tie rule). The
    /// winning cost overwrites `res_min`, the winning length `res_length`.
    fn triple_min_length(
        sub: &Self,
        a_gap: &Self,
        b_gap: &Self,
        sub_length: &Self,
        a_gap_length: &Self,
        b_gap_length: &Self,
        res_min: &mut Self,
        res_length: &mut Self,
    )
        requires
            sub.wf(),
            a_gap.wf(),
            b_gap.wf(),
            sub_length.wf(),
            a_gap_length.wf(),
            b_gap_length.wf(),
            old(res_min).wf(),
            old(res_length).wf(),
            a_gap.lanes().len() == sub.lanes().len(),
            b_gap.lanes().len() == sub.lanes().len(),
            sub_length.lanes().len() == sub.lanes().len(),
            a_gap_length.lanes().len() == sub.lanes().len(),
            b_gap_length.lanes().len() == sub.lanes().len(),
            old(res_min).lanes().len() == sub.lanes().len(),
            old(res_length).lanes().len() == sub.lanes().len(),
        ensures
            final(res_min).wf(),
            final(res_length).wf(),
            final(res_min).logical_len() == old(res_min).logical_len(),
            final(res_length).logical_len() == old(res_length).logical_len(),
            final(res_min).lanes().len() == sub.lanes().len(),
            final(res_length).lanes().len() == sub.lanes().len(),
            forall|i: int| 0 <= i < sub.lanes().len() ==> final(res_min).lanes()[i]
                == triple_min_cost(sub.lanes()[i], a_gap.lanes()[i], b_gap.lanes()[i]),
            forall|i: int| 0 <= i < sub.lanes().len() ==> final(res_length).lanes()[i]
                == triple_min_len(
                sub.lanes()[i],
                a_gap.lanes()[i],
                b_gap.lanes()[i],
                sub_length.lanes()[i],
                a_gap_length.lanes()[i],
                b_gap_length.lanes()[i],
            ),
    ;
}

/// One word's worth of zeroed per-lane match counters, as a batch starts
/// with.
fn zero_word_counters() -> (r: Vec<u8>)
    ensures
        r@.len() == 32,
        forall|i: int| 0 <= i < 32 ==> r@[i] == 0u8,
{
    let mut v: Vec<u8> = Vec::new();
    let mut i: usize = 0;
    while i < 32
        invariant
            i <= 32,
            v@.len() == i,
            forall|j: int| 0 <= j < i ==> v@[j] == 0u8,
        decreases 32 - i,
    {
        v.push(0u8);
        i = i + 1;
    }
    v
}

/// Matching-lane count over `word_len` whole words of two buffers,
/// accumulated the overflow-safe way: within a batch of at most 255 words
/// each lane's matches are tracked in an 8-bit counter (255 is the largest
/// batch before such a counter could wrap), and after every batch the 32
/// counters are folded into a wide accumulator.
#[verifier::loop_isolation(false)]
fn batched_match_count(a: &[u8], b: &[u8], word_len: usize) -> (r: u64)
    requires
        word_len * 32 <= a@.len(),
        word_len * 32 <= b@.len(),
        word_len * 32 <= u32::MAX,
    ensures
        r == matches_in(a@, b@, 0, (word_len * 32) as int),
        r <= word_len * 32,
{
    let num_batches: usize = word_len / 255;
    proof {
        vstd::arithmetic::div_mod::lemma_fundamental_div_mod(word_len as int, 255);
        vstd::arithmetic::div_mod::lemma_mod_division_less_than_divisor(word_len as int, 255);
    }
    let mut total: u64 = 0;
    let mut bi: usize = 0;
    while bi < num_batches
        invariant
            bi <= num_batches,
            total == matches_in(a@, b@, 0, (bi * 8160) as int),
            total <= bi * 8160,
            bi * 8160 <= word_len * 32,
        decreases num_batches - bi,
    {
        let start: usize = bi * 255;
        let end: usize = start + 255;
        proof {
            assert(end <= word_len);
            assert(start * 32 == bi * 8160) by {
                vstd::arithmetic::mul::lemma_mul_is_associative(bi as int, 255, 32);
            }
            assert(end * 32 == (bi + 1) * 8160) by {
                vstd::arithmetic::mul::lemma_mul_is_associative(bi as int + 1, 255, 32);
            }
        }
        let mut counters: Vec<u8> = zero_word_counters();
        proof {
            lemma_sum_prefix_zero(counters@, 32);
        }
        let mut j: usize = start;
        while j < end
            invariant
                start <= j <= end,
                counters@.len() == 32,
                sum_prefix(counters@, 32) == matches_in(a@, b@, (start * 32) as int, (j * 32) as int),
                forall|k: int| 0 <= k < 32 ==> counters@[k] <= j - start,
            decreases end - j,
        {
            let base: usize = j * 32;
            let mut k: usize = 0;
            while k < 32
                invariant
                    k <= 32,
                    counters@.len() == 32,
                    sum_prefix(counters@, 32) == matches_in(
                        a@,
                        b@,
                        (start * 32) as int,
                        base + k,
                    ),
                    forall|t: int| 0 <= t < k ==> counters@[t] <= j - start + 1,
                    forall|t: int| k <= t < 32 ==> counters@[t] <= j - start,
                decreases 32 - k,
            {
                if a[base + k] == b[base + k] {
                    let c: u8 = counters[k];
                    let ghost cpre = counters@;
                    counters.set(k, c + 1);
                    proof {
                        lemma_sum_prefix_update(cpre, 32, k as int, (c + 1) as u8);
                    }
                }
                k = k + 1;
            }
            j = j + 1;
        }
        let ghost total0 = total;
        let mut k: usize = 0;
        while k < 32
            invariant
                k <= 32,
                counters@.len() == 32,
                forall|t: int| 0 <= t < 32 ==> counters@[t] <= 255,
                total == total0 + sum_prefix(counters@, k as int),
                total <= total0 + 255 * k,
            decreases 32 - k,
        {
            total = total + counters[k] as u64;
            k = k + 1;
        }
        proof {
            lemma_matches_split(a@, b@, 0, (bi * 8160) as int, ((bi + 1) * 8160) as int);
        }
        bi = bi + 1;
    }
    // leftover words past the last full batch: fewer than 255 of them, so
    // the same 8-bit counters cannot wrap either
    let start: usize = num_batches * 255;
    proof {
        assert(start * 32 == num_batches * 8160) by {
            vstd::arithmetic::mul::lemma_mul_is_associative(num_batches as int, 255, 32);
        }
        assert(word_len - start < 255);
    }
    let mut counters: Vec<u8> = zero_word_counters();
    proof {
        lemma_sum_prefix_zero(counters@, 32);
    }
    let mut j: usize = start;
    while j < word_len
        invariant
            start <= j <= word_len,
            counters@.len() == 32,
            sum_prefix(counters@, 32) == matches_in(a@, b@, (start * 32) as int, (j * 32) as int),
            forall|k: int| 0 <= k < 32 ==> counters@[k] <= j - start,
        decreases word_len - j,
    {
        let base: usize = j * 32;
        let mut k: usize = 0;
        while k < 32
            invariant
                k <= 32,
                counters@.len() == 32,
                sum_prefix(counters@, 32) == matches_in(a@, b@, (start * 32) as int, base + k),
                forall|t: int| 0 <= t < k ==> counters@[t] <= j - start + 1,
                forall|t: int| k <= t < 32 ==> counters@[t] <= j - start,
            decreases 32 - k,
        {
            if a[base + k] == b[base + k] {
                let c: u8 = counters[k];
                let ghost cpre = counters@;
                counters.set(k, c + 1);
                proof {
                    lemma_sum_prefix_update(cpre, 32, k as int, (c + 1) as u8);
                }
            }
            k = k + 1;
        }
        j = j + 1;
    }
    let ghost total0 = total;
    let mut k: usize = 0;
    while k < 32
        invariant
            k <= 32,
            counters@.len() == 32,
            forall|t: int| 0 <= t < 32 ==> counters@[t] <= 255,
            total == total0 + sum_prefix(counters@, k as int),
            total <= total0 + 255 * k,
        decreases 32 - k,
    {
        total = total + counters[k] as u64;
        k = k + 1;
    }
    proof {
        lemma_matches_split(a@, b@, 0, (num_batches * 8160) as int, (word_len * 32) as int);
        lemma_match_mismatch_total(a@, b@, 0, (word_len * 32) as int);
    }
    total
}

/// N x 32 x 8 vector: the 256-bit word layout (32 byte lanes per word),
/// realized portably with the words laid out as one contiguous byte buffer.
#[derive(Clone)]
pub struct AvxNx32x8 {
    len: usize,
    v: Vec<u8>,
}

impl AvxNx32x8 {
    /// The logical element count, as an executable value.
    pub fn len(&self) -> (r: usize)
        ensures
            r == self.logical_len(),
    {
        self.len
    }

    /// Builds the byte buffer backing `len` lanes, every lane of the
    /// covering words holding `fill`.
    fn alloc_lanes(len: usize, fill: u8) -> (r: Vec<u8>)
        requires
            len + 31 <= usize::MAX,
        ensures
            r@.len() == lane_capacity(len as nat),
            forall|i: int| 0 <= i < r@.len() ==> r@[i] == fill,
    {
        proof {
            lemma_lane_capacity(len as nat);
        }
        let words: usize = (len + 31) / 32;
        let cap: usize = words * 32;
        let mut v: Vec<u8> = Vec::new();
        let mut i: usize = 0;
        while i < cap
            invariant
                i <= cap,
                v@.len() == i,
                forall|j: int| 0 <= j < i ==> v@[j] == fill,
            decreases cap - i,
        {
            v.push(fill);
            i = i + 1;
        }
        v
    }
}

impl Jewel for AvxNx32x8 {
    closed spec fn lanes(&self) -> Seq<u8> {
        self.v@
    }

    closed spec fn logical_len(&self) -> nat {
        self.len as nat
    }

    closed spec fn wf(&self) -> bool {
        self.v@.len() == lane_capacity(self.len as nat)
    }

    fn repeating(val: u32, len: usize) -> (r: Self) {
        let byte: u8 = (val % 256) as u8;
        let v = Self::alloc_lanes(len, byte);
        AvxNx32x8 { len, v }
    }

    fn repeating_max(len: usize) -> (r: Self) {
        let v = Self::alloc_lanes(len, MAX_LANE);
        AvxNx32x8 { len, v }
    }

    fn loadu(src: &[u8], len: usize) -> (r: Self) {
        proof {
            lemma_lane_capacity(len as nat);
        }
        let words: usize = (len + 31) / 32;
        let cap: usize = words * 32;
        let mut v: Vec<u8> = Vec::new();
        let mut i: usize = 0;
        while i < len
            invariant
                i <= len,
                len <= src@.len(),
                v@.len() == i,
                forall|j: int| 0 <= j < i ==> v@[j] == src@[j],
            decreases len - i,
        {
            v.push(src[i]);
            i = i + 1;
        }
        while i < cap
            invariant
                len <= i <= cap,
                v@.len() == i,
                len <= src@.len(),
                forall|j: int| 0 <= j < len ==> v@[j] == src@[j],
                forall|j: int| len <= j < i ==> v@[j] == 0u8,
            decreases cap - i,
        {
            v.push(0u8);
            i = i + 1;
        }
        AvxNx32x8 { len, v }
    }

    fn upper_bound(&self) -> (r: usize) {
        self.v.len()
    }

    fn extract(&self, i: usize) -> (r: u32) {
        self.v[i] as u32
    }

    fn insert(&mut self, i: usize, val: u32) {
        let byte: u8 = (val % 256) as u8;
        self.v.set(i, byte);
    }

    fn slow_loadu(&mut self, idx: usize, src: &[u8], len: usize, reverse: bool) {
        if len == 0 {
            return ;
        }
        let n: usize = self.v.len();
        let mut i: usize = 0;
        while i < len
            invariant
                0 < len <= src@.len(),
                i <= len,
                n == self.v@.len(),
                self.v@.len() == old(self).v@.len(),
                self.len == old(self).len,
                !reverse ==> idx + len <= n,
                reverse ==> idx < n && len <= idx + 1,
                forall|j: int|
                    0 <= j < i ==> self.v@[if reverse {
                        idx - j
                    } else {
                        idx + j
                    }] == src@[j],
                forall|p: int|
                    0 <= p < self.v@.len() && (if reverse {
                        p > idx || p <= idx - i
                    } else {
                        p < idx || p >= idx + i
                    }) ==> self.v@[p] == old(self).v@[p],
            decreases len - i,
        {
            let cur: usize = if reverse {
                idx - i
            } else {
                idx + i
            };
            self.v.set(cur, src[i]);
            i = i + 1;
        }
    }

    fn fast_loadu(&mut self, src: &[u8]) {
        let n: usize = self.v.len();
        let mut i: usize = 0;
        while i < n
            invariant
                i <= n,
                n == self.v@.len(),
                self.len == old(self).len,
                n <= src@.len(),
                forall|j: int| 0 <= j < i ==> self.v@[j] == src@[j],
            decreases n - i,
        {
            self.v.set(i, src[i]);
            i = i + 1;
        }
    }

    fn add(&mut self, o: &Self) {
        let n: usize = self.v.len();
        let mut i: usize = 0;
        while i < n
            invariant
                i <= n,
                n == self.v@.len(),
                o.v@.len() == n,
                n == old(self).v@.len(),
                self.len == old(self).len,
                forall|j: int| 0 <= j < i ==> self.v@[j] == wrap_add(old(self).v@[j], o.v@[j]),
                forall|j: int| i <= j < n ==> self.v@[j] == old(self).v@[j],
            decreases n - i,
        {
            let r = wrap_add_exec(self.v[i], o.v[i]);
            self.v.set(i, r);
            i = i + 1;
        }
    }

    fn adds(&mut self, o: &Self) {
        let n: usize = self.v.len();
        let mut i: usize = 0;
        while i < n
            invariant
                i <= n,
                n == self.v@.len(),
                o.v@.len() == n,
                n == old(self).v@.len(),
                self.len == old(self).len,
                forall|j: int| 0 <= j < i ==> self.v@[j] == sat_add(old(self).v@[j], o.v@[j]),
                forall|j: int| i <= j < n ==> self.v@[j] == old(self).v@[j],
            decreases n - i,
        {
            let r = sat_add_exec(self.v[i], o.v[i]);
            self.v.set(i, r);
            i = i + 1;
        }
    }

    fn neg_add(&mut self, o: &Self) {
        let n: usize = self.v.len();
        let mut i: usize = 0;
        while i < n
            invariant
                i <= n,
                n == self.v@.len(),
                o.v@.len() == n,
                n == old(self).v@.len(),
                self.len == old(self).len,
                forall|j: int| 0 <= j < i ==> self.v@[j] == wrap_sub(o.v@[j], old(self).v@[j]),
                forall|j: int| i <= j < n ==> self.v@[j] == old(self).v@[j],
            decreases n - i,
        {
            let r = wrap_sub_exec(o.v[i], self.v[i]);
            self.v.set(i, r);
            i = i + 1;
        }
    }

    fn and(&mut self, o: &Self) {
        let n: usize = self.v.len();
        let mut i: usize = 0;
        while i < n
            invariant
                i <= n,
                n == self.v@.len(),
                o.v@.len() == n,
                n == old(self).v@.len(),
                self.len == old(self).len,
                forall|j: int| 0 <= j < i ==> self.v@[j] == (old(self).v@[j] & o.v@[j]),
                forall|j: int| i <= j < n ==> self.v@[j] == old(self).v@[j],
            decreases n - i,
        {
            let r: u8 = self.v[i] & o.v[i];
            self.v.set(i, r);
            i = i + 1;
        }
    }

    fn blendv(&mut self, a: &Self, b: &Self) {
        let n: usize = self.v.len();
        let mut i: usize = 0;
        while i < n
            invariant
                i <= n,
                n == self.v@.len(),
                a.v@.len() == n,
                b.v@.len() == n,
                n == old(self).v@.len(),
                self.len == old(self).len,
                forall|j: int|
                    0 <= j < i ==> self.v@[j] == blend(old(self).v@[j], a.v@[j], b.v@[j]),
                forall|j: int| i <= j < n ==> self.v@[j] == old(self).v@[j],
            decreases n - i,
        {
            let r = blend_exec(self.v[i], a.v[i], b.v[i]);
            self.v.set(i, r);
            i = i + 1;
        }
    }

    fn shift_left_1(&mut self) {
        let n: usize = self.v.len();
        let mut i: usize = 0;
        while i < n - 1
            invariant
                n >= 1,
                i <= n - 1,
                n == self.v@.len(),
                n == old(self).v@.len(),
                self.len == old(self).len,
                forall|j: int| 0 <= j < i ==> self.v@[j] == old(self).v@[j + 1],
                forall|j: int| i <= j < n ==> self.v@[j] == old(self).v@[j],
            decreases n - 1 - i,
        {
            let x = self.v[i + 1];
            self.v.set(i, x);
            i = i + 1;
        }
        self.v.set(n - 1, 0u8);
        proof {
            assert(self.v@ =~= shifted_left(old(self).v@));
        }
    }

    fn shift_right_1(&mut self) {
        let n: usize = self.v.len();
        let mut i: usize = n - 1;
        while i > 0
            invariant
                n >= 1,
                i <= n - 1,
                n == self.v@.len(),
                n == old(self).v@.len(),
                self.len == old(self).len,
                forall|j: int| i < j < n ==> self.v@[j] == old(self).v@[j - 1],
                forall|j: int| 0 <= j <= i ==> self.v@[j] == old(self).v@[j],
            decreases i,
        {
            let x = self.v[i - 1];
            self.v.set(i, x);
            i = i - 1;
        }
        self.v.set(0, 0u8);
        proof {
            assert(self.v@ =~= shifted_right(old(self).v@));
        }
    }

    fn insert_last_0(&mut self, val: u32) {
        let byte: u8 = (val % 256) as u8;
        let n: usize = self.v.len();
        self.v.set(n - 1, byte);
    }

    fn insert_last_1(&mut self, val: u32) {
        let byte: u8 = (val % 256) as u8;
        let n: usize = self.v.len();
        self.v.set(n - 2, byte);
    }

    fn insert_last_2(&mut self, val: u32) {
        let byte: u8 = (val % 256) as u8;
        let n: usize = self.v.len();
        self.v.set(n - 3, byte);
    }

    fn insert_last_max(&mut self) {
        let n: usize = self.v.len();
        self.v.set(n - 1, MAX_LANE);
    }

    fn insert_first(&mut self, val: u32) {
        let byte: u8 = (val % 256) as u8;
        self.v.set(0, byte);
    }

    fn insert_first_max(&mut self) {
        self.v.set(0, MAX_LANE);
    }

    #[verifier::loop_isolation(false)]
    fn mm_count_mismatches(a: &[u8], b: &[u8], len: usize) -> (r: u32) {
        let mut matched: u32 = 0;
        let mut i: usize = 0;
        while i < len
            invariant
                i <= len,
                matched == matches_in(a@, b@, 0, i as int),
                matched <= i,
            decreases len - i,
        {
            if a[i] == b[i] {
                matched = matched + 1;
            }
            i = i + 1;
        }
        proof {
            lemma_match_mismatch_total(a@, b@, 0, len as int);
        }
        (len as u32) - matched
    }

    #[verifier::loop_isolation(false)]
    fn count_mismatches(a: &[u8], b: &[u8], len: usize) -> (r: u32) {
        let word_len: usize = len / 32;
        proof {
            vstd::arithmetic::div_mod::lemma_fundamental_div_mod(len as int, 32);
            vstd::arithmetic::div_mod::lemma_mod_division_less_than_divisor(len as int, 32);
        }
        let total: u64 = batched_match_count(a, b, word_len);
        let mut matched: u64 = total;
        let mut i: usize = word_len * 32;
        while i < len
            invariant
                word_len * 32 <= i <= len,
                matched == matches_in(a@, b@, 0, i as int),
                matched <= i,
            decreases len - i,
        {
            if a[i] == b[i] {
                matched = matched + 1;
            }
            i = i + 1;
        }
        proof {
            lemma_match_mismatch_total(a@, b@, 0, len as int);
        }
        (len as u32) - (matched as u32)
    }

    fn vector_count_mismatches(a: &Self, b: &[u8]) -> (r: u32) {
        let n: usize = a.v.len();
        let word_len: usize = n / 32;
        proof {
            lemma_lane_capacity(a.len as nat);
            vstd::arithmetic::div_mod::lemma_fundamental_div_mod(n as int, 32);
            assert(n % 32 == 0);
            assert(word_len * 32 == n);
        }
        let total: u64 = batched_match_count(a.v.as_slice(), b, word_len);
        proof {
            lemma_match_mismatch_total(a.v@, b@, 0, n as int);
        }
        (n as u32) - (total as u32)
    }

    fn cmpeq(a: &Self, b: &Self) -> (r: Self) {
        let n: usize = a.v.len();
        let mut v: Vec<u8> = Vec::new();
        let mut i: usize = 0;
        while i < n
            invariant
                i <= n,
                n == a.v@.len(),
                n == b.v@.len(),
                v@.len() == i,
                forall|j: int| 0 <= j < i ==> v@[j] == eq_mask(a.v@[j], b.v@[j]),
            decreases n - i,
        {
            v.push(eq_mask_exec(a.v[i], b.v[i]));
            i = i + 1;
        }
        AvxNx32x8 { len: a.len, v }
    }

    fn cmpgt(a: &Self, b: &Self) -> (r: Self) {
        let n: usize = a.v.len();
        let mut v: Vec<u8> = Vec::new();
        let mut i: usize = 0;
        while i < n
            invariant
                i <= n,
                n == a.v@.len(),
                n == b.v@.len(),
                v@.len() == i,
                forall|j: int| 0 <= j < i ==> v@[j] == gt_mask(a.v@[j], b.v@[j]),
            decreases n - i,
        {
            v.push(gt_mask_exec(a.v[i], b.v[i]));
            i = i + 1;
        }
        AvxNx32x8 { len: a.len, v }
    }

    fn min(a: &Self, b: &Self) -> (r: Self) {
        let n: usize = a.v.len();
        let mut v: Vec<u8> = Vec::new();
        let mut i: usize = 0;
        while i < n
            invariant
                i <= n,
                n == a.v@.len(),
                n == b.v@.len(),
                v@.len() == i,
                forall|j: int| 0 <= j < i ==> v@[j] == smin(a.v@[j], b.v@[j]),
            decreases n - i,
        {
            v.push(smin_exec(a.v[i], b.v[i]));
            i = i + 1;
        }
        AvxNx32x8 { len: a.len, v }
    }

    fn max(a: &Self, b: &Self) -> (r: Self) {
        let n: usize = a.v.len();
        let mut v: Vec<u8> = Vec::new();
        let mut i: usize = 0;
        while i < n
            invariant
                i <= n,
                n == a.v@.len(),
                n == b.v@.len(),
                v@.len() == i,
                forall|j: int| 0 <= j < i ==> v@[j] == smax(a.v@[j], b.v@[j]),
            decreases n - i,
        {
            v.push(smax_exec(a.v[i], b.v[i]));
            i = i + 1;
        }
        AvxNx32x8 { len: a.len, v }
    }

    fn triple_min_length(
        sub: &Self,
        a_gap: &Self,
        b_gap: &Self,
        sub_length: &Self,
        a_gap_length: &Self,
        b_gap_length: &Self,
        res_min: &mut Self,
        res_length: &mut Self,
    ) {
        let n: usize = sub.v.len();
        let mut i: usize = 0;
        while i < n
            invariant
                i <= n,
                n == sub.v@.len(),
                a_gap.v@.len() == n,
                b_gap.v@.len() == n,
                sub_length.v@.len() == n,
                a_gap_length.v@.len() == n,
                b_gap_length.v@.len() == n,
                res_min.v@.len() == n,
                res_length.v@.len() == n,
                res_min.len == old(res_min).len,
                res_length.len == old(res_length).len,
                forall|j: int|
                    0 <= j < i ==> res_min.v@[j] == triple_min_cost(
                        sub.v@[j],
                        a_gap.v@[j],
                        b_gap.v@[j],
                    ),
                forall|j: int|
                    0 <= j < i ==> res_length.v@[j] == triple_min_len(
                        sub.v@[j],
                        a_gap.v@[j],
                        b_gap.v@[j],
                        sub_length.v@[j],
                        a_gap_length.v@[j],
                        b_gap_length.v@[j],
                    ),
            decreases n - i,
        {
            let s = sub.v[i];
            let ag = a_gap.v[i];
            let bg = b_gap.v[i];
            let sl = sub_length.v[i];
            let agl = a_gap_length.v[i];
            let bgl = b_gap_length.v[i];
            // choose each length by which edit the minimum takes, preferring
            // the longer alignment when the edit costs tie
            let min1 = smin_exec(ag, bg);
            let len1 = blend_exec(gt_mask_exec(ag, bg), agl, bgl);
            let len1 = blend_exec(eq_mask_exec(ag, bg), len1, smax_exec(agl, bgl));
            let min2 = smin_exec(s, min1);
            let len2 = blend_exec(gt_mask_exec(s, min1), sl, len1);
            let len2 = blend_exec(eq_mask_exec(s, min1), len2, smax_exec(sl, len1));
            res_min.v.set(i, min2);
            res_length.v.set(i, len2);
            i = i + 1;
        }
    }
}

} // verus!
