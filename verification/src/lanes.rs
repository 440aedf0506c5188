//! Per-lane byte arithmetic shared by the lane-vector backends.
//!
//! A lane is one 8-bit element. The arithmetic comparisons of the vector
//! contract read lanes as signed (two's complement) quantities, while loads
//! and stores treat them as plain bytes; this module defines both readings,
//! the wrapping, saturating and masking operations on single lanes, the
//! two-stage minimum-with-length rule of the fused alignment primitive, and
//! the byte-by-byte reference counts that the mismatch kernels are proved
//! against.

use vstd::prelude::*;

verus! {

/// The comparison-mask byte for a lane that satisfies a comparison: all bits
/// set, so the high bit selects it in a blend.
pub const MASK_SET: u8 = 255;

/// The sentinel maximum byte: the largest lane value in the signed order.
pub const MAX_LANE: u8 = 127;

/// The value of a lane when its byte is read as a signed (two's complement)
/// quantity, as the arithmetic comparisons read it.
pub open spec fn sval(x: u8) -> int {
    if x < 128 {
        x as int
    } else {
        x as int - 256
    }
}

/// The byte whose signed reading is `v`, for `v` in `[-128, 127]`.
pub open spec fn byte_of_sval(v: int) -> u8 {
    if v >= 0 {
        v as u8
    } else {
        (v + 256) as u8
    }
}

/// Lane addition modulo 256.
pub open spec fn wrap_add(x: u8, y: u8) -> u8 {
    if x + y < 256 {
        (x + y) as u8
    } else {
        (x + y - 256) as u8
    }
}

/// Lane subtraction modulo 256.
pub open spec fn wrap_sub(x: u8, y: u8) -> u8 {
    if x >= y {
        (x - y) as u8
    } else {
        (x - y + 256) as u8
    }
}

/// Signed saturating lane addition: the sum of the signed readings, clamped
/// to `[-128, 127]`.
pub open spec fn sat_add(x: u8, y: u8) -> u8 {
    let s = sval(x) + sval(y);
    if s < -128 {
        byte_of_sval(-128)
    } else if s > 127 {
        byte_of_sval(127)
    } else {
        byte_of_sval(s)
    }
}

/// The smaller lane in the signed order (either one when they are equal).
pub open spec fn smin(x: u8, y: u8) -> u8 {
    if sval(x) <= sval(y) {
        x
    } else {
        y
    }
}

/// The larger lane in the signed order (either one when they are equal).
pub open spec fn smax(x: u8, y: u8) -> u8 {
    if sval(x) >= sval(y) {
        x
    } else {
        y
    }
}

/// The equality mask of two lanes: all bits set when equal, clear otherwise.
pub open spec fn eq_mask(x: u8, y: u8) -> u8 {
    if x == y {
        MASK_SET
    } else {
        0u8
    }
}

/// The greater-than mask of two lanes in the signed order.
pub open spec fn gt_mask(x: u8, y: u8) -> u8 {
    if sval(x) > sval(y) {
        MASK_SET
    } else {
        0u8
    }
}

/// Blending one lane: a mask byte whose high bit is set selects `b`,
/// otherwise `a` is kept.
pub open spec fn blend(mask: u8, a: u8, b: u8) -> u8 {
    if mask >= 128 {
        b
    } else {
        a
    }
}

/// The signed reading of a lane, as an executable value.
pub(crate) fn sval_exec(x: u8) -> (r: i16)
    ensures
        r == sval(x),
{
    if x < 128 {
        x as i16
    } else {
        (x as i16) - 256
    }
}

pub(crate) fn wrap_add_exec(x: u8, y: u8) -> (r: u8)
    ensures
        r == wrap_add(x, y),
{
    let s: u16 = x as u16 + y as u16;
    if s < 256 {
        s as u8
    } else {
        (s - 256) as u8
    }
}

pub(crate) fn wrap_sub_exec(x: u8, y: u8) -> (r: u8)
    ensures
        r == wrap_sub(x, y),
{
    if x >= y {
        x - y
    } else {
        let s: u16 = x as u16 + 256 - y as u16;
        s as u8
    }
}

pub(crate) fn sat_add_exec(x: u8, y: u8) -> (r: u8)
    ensures
        r == sat_add(x, y),
{
    let s: i16 = sval_exec(x) + sval_exec(y);
    let c: i16 = if s < -128 {
        -128
    } else if s > 127 {
        127
    } else {
        s
    };
    if c >= 0 {
        c as u8
    } else {
        (c + 256) as u8
    }
}

pub(crate) fn smin_exec(x: u8, y: u8) -> (r: u8)
    ensures
        r == smin(x, y),
{
    if sval_exec(x) <= sval_exec(y) {
        x
    } else {
        y
    }
}

pub(crate) fn smax_exec(x: u8, y: u8) -> (r: u8)
    ensures
        r == smax(x, y),
{
    if sval_exec(x) >= sval_exec(y) {
        x
    } else {
        y
    }
}

pub(crate) fn eq_mask_exec(x: u8, y: u8) -> (r: u8)
    ensures
        r == eq_mask(x, y),
{
    if x == y {
        MASK_SET
    } else {
        0u8
    }
}

pub(crate) fn gt_mask_exec(x: u8, y: u8) -> (r: u8)
    ensures
        r == gt_mask(x, y),
{
    if sval_exec(x) > sval_exec(y) {
        MASK_SET
    } else {
        0u8
    }
}

pub(crate) fn blend_exec(mask: u8, a: u8, b: u8) -> (r: u8)
    ensures
        r == blend(mask, a, b),
{
    if mask >= 128 {
        b
    } else {
        a
    }
}

/// The length chosen when the smaller of two costs is taken: on a cost tie
/// the longer alignment wins, otherwise the length follows the smaller cost.
pub open spec fn pair_min_len(cx: u8, cy: u8, lx: u8, ly: u8) -> u8 {
    if cx == cy {
        smax(lx, ly)
    } else if sval(cx) > sval(cy) {
        ly
    } else {
        lx
    }
}

/// The cost of the fused three-way minimum, combined in two left-associated
/// stages: the gap costs first, then the substitution cost against their
/// minimum.
pub open spec fn triple_min_cost(sub: u8, a_gap: u8, b_gap: u8) -> u8 {
    smin(sub, smin(a_gap, b_gap))
}

/// The length paired with [`triple_min_cost`], applying the tie-break of
/// [`pair_min_len`] at each of the two stages in the same order.
pub open spec fn triple_min_len(
    sub: u8,
    a_gap: u8,
    b_gap: u8,
    sub_len: u8,
    a_gap_len: u8,
    b_gap_len: u8,
) -> u8 {
    pair_min_len(sub, smin(a_gap, b_gap), sub_len, pair_min_len(a_gap, b_gap, a_gap_len, b_gap_len))
}

/// Count of positions `p` in `[lo, hi)` where `a[p] == b[p]`: the
/// byte-by-byte reference that the mismatch kernels track internally.
pub open spec fn matches_in(a: Seq<u8>, b: Seq<u8>, lo: int, hi: int) -> int
    decreases hi - lo,
{
    if hi <= lo {
        0
    } else {
        matches_in(a, b, lo, hi - 1) + (if a[hi - 1] == b[hi - 1] {
            1int
        } else {
            0int
        })
    }
}

/// Count of positions `p` in `[lo, hi)` where `a[p] != b[p]`: the
/// byte-by-byte reference count that every mismatch kernel must equal.
pub open spec fn mismatches_in(a: Seq<u8>, b: Seq<u8>, lo: int, hi: int) -> int
    decreases hi - lo,
{
    if hi <= lo {
        0
    } else {
        mismatches_in(a, b, lo, hi - 1) + (if a[hi - 1] != b[hi - 1] {
            1int
        } else {
            0int
        })
    }
}

/// Matches and mismatches partition a range: together they count every
/// position once, and each count is non-negative.
pub proof fn lemma_match_mismatch_total(a: Seq<u8>, b: Seq<u8>, lo: int, hi: int)
    requires
        lo <= hi,
    ensures
        matches_in(a, b, lo, hi) + mismatches_in(a, b, lo, hi) == hi - lo,
        0 <= matches_in(a, b, lo, hi) <= hi - lo,
        0 <= mismatches_in(a, b, lo, hi) <= hi - lo,
    decreases hi - lo,
{
    if lo < hi {
        lemma_match_mismatch_total(a, b, lo, hi - 1);
    }
}

/// The match count over a range is the sum of the counts over its two parts.
pub proof fn lemma_matches_split(a: Seq<u8>, b: Seq<u8>, lo: int, mid: int, hi: int)
    requires
        lo <= mid <= hi,
    ensures
        matches_in(a, b, lo, hi) == matches_in(a, b, lo, mid) + matches_in(a, b, mid, hi),
    decreases hi - mid,
{
    if mid < hi {
        lemma_matches_split(a, b, lo, mid, hi - 1);
    }
}

/// Sum of the first `n` entries of a byte sequence, as the wide fold of a
/// batch of per-lane counters computes it.
pub open spec fn sum_prefix(s: Seq<u8>, n: int) -> int
    decreases n,
{
    if n <= 0 {
        0
    } else {
        sum_prefix(s, n - 1) + s[n - 1]
    }
}

/// A prefix of zeroed counters sums to zero.
pub proof fn lemma_sum_prefix_zero(s: Seq<u8>, n: int)
    requires
        forall|i: int| 0 <= i < n ==> s[i] == 0u8,
    ensures
        sum_prefix(s, n) == 0,
    decreases n,
{
    if n > 0 {
        lemma_sum_prefix_zero(s, n - 1);
    }
}

/// A prefix sum reads only the entries of the prefix.
pub proof fn lemma_sum_prefix_agree(s: Seq<u8>, t: Seq<u8>, n: int)
    requires
        forall|i: int| 0 <= i < n ==> s[i] == t[i],
    ensures
        sum_prefix(s, n) == sum_prefix(t, n),
    decreases n,
{
    if n > 0 {
        lemma_sum_prefix_agree(s, t, n - 1);
    }
}

/// Updating one entry inside the prefix moves the sum by the difference at
/// that entry.
pub proof fn lemma_sum_prefix_update(s: Seq<u8>, n: int, k: int, v: u8)
    requires
        0 <= k < n <= s.len(),
    ensures
        sum_prefix(s.update(k, v), n) == sum_prefix(s, n) - s[k] + v,
    decreases n,
{
    if k == n - 1 {
        lemma_sum_prefix_agree(s.update(k, v), s, n - 1);
    } else {
        lemma_sum_prefix_update(s, n - 1, k, v);
    }
}

} // verus!
