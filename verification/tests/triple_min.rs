// The fused three-way minimum with paired length tie-break: the two-stage,
// left-associated order decides which length survives a cost tie.

use triple_accel::jewel::AvxNx32x8;
use triple_accel::jewel::Jewel;

fn run_one_lane(
    costs: (u32, u32, u32),
    lens: (u32, u32, u32),
) -> (u32, u32) {
    let (sub_c, a_gap_c, b_gap_c) = costs;
    let (sub_l, a_gap_l, b_gap_l) = lens;
    let sub = AvxNx32x8::repeating(sub_c, 32);
    let a_gap = AvxNx32x8::repeating(a_gap_c, 32);
    let b_gap = AvxNx32x8::repeating(b_gap_c, 32);
    let sub_len = AvxNx32x8::repeating(sub_l, 32);
    let a_gap_len = AvxNx32x8::repeating(a_gap_l, 32);
    let b_gap_len = AvxNx32x8::repeating(b_gap_l, 32);
    let mut res_min = AvxNx32x8::repeating(0, 32);
    let mut res_length = AvxNx32x8::repeating(0, 32);
    AvxNx32x8::triple_min_length(
        &sub,
        &a_gap,
        &b_gap,
        &sub_len,
        &a_gap_len,
        &b_gap_len,
        &mut res_min,
        &mut res_length,
    );
    // every lane carries the same inputs, so every lane agrees
    let c = res_min.extract(0);
    let l = res_length.extract(0);
    for i in 1..32 {
        assert_eq!(res_min.extract(i), c);
        assert_eq!(res_length.extract(i), l);
    }
    (c, l)
}

#[test]
fn three_way_tie_takes_stagewise_maximum_length() {
    // all three costs tie at 5: stage one takes max(7, 4) = 7, stage two
    // takes max(3, 7) = 7
    assert_eq!(run_one_lane((5, 5, 5), (3, 7, 4)), (5, 7));
}

#[test]
fn gap_tie_then_sub_tie_prefers_longest_seen() {
    assert_eq!(run_one_lane((5, 5, 5), (9, 7, 4)), (5, 9));
}

#[test]
fn smaller_gap_cost_carries_its_length() {
    // b_gap is strictly cheaper: its length survives stage one; sub then
    // loses on cost, so stage two keeps it
    assert_eq!(run_one_lane((5, 6, 2), (3, 7, 40)), (2, 40));
}

#[test]
fn pairwise_tiebreak_is_not_global() {
    // b_gap loses stage one on cost, so its very long length never
    // competes, although a global tie-break would have seen it
    assert_eq!(run_one_lane((5, 5, 6), (3, 7, 100)), (5, 7));
}

#[test]
fn sub_strictly_cheapest_wins() {
    assert_eq!(run_one_lane((1, 5, 6), (13, 7, 100)), (1, 13));
}

#[test]
fn signed_order_on_costs() {
    // byte 200 reads as -56, cheaper than 5 in the signed order
    assert_eq!(run_one_lane((5, 200, 6), (3, 77, 100)), (200, 77));
}

#[test]
fn lanes_are_independent() {
    let mut sub_b = vec![5u8; 32];
    sub_b[10] = 1;
    let sub = AvxNx32x8::loadu(&sub_b, 32);
    let a_gap = AvxNx32x8::repeating(5, 32);
    let b_gap = AvxNx32x8::repeating(5, 32);
    let sub_len = AvxNx32x8::repeating(3, 32);
    let a_gap_len = AvxNx32x8::repeating(7, 32);
    let b_gap_len = AvxNx32x8::repeating(4, 32);
    let mut res_min = AvxNx32x8::repeating(0, 32);
    let mut res_length = AvxNx32x8::repeating(0, 32);
    AvxNx32x8::triple_min_length(
        &sub,
        &a_gap,
        &b_gap,
        &sub_len,
        &a_gap_len,
        &b_gap_len,
        &mut res_min,
        &mut res_length,
    );
    for i in 0..32 {
        if i == 10 {
            // sub is strictly cheapest there: its cost and length win
            assert_eq!(res_min.extract(i), 1);
            assert_eq!(res_length.extract(i), 3);
        } else {
            assert_eq!(res_min.extract(i), 5);
            assert_eq!(res_length.extract(i), 7);
        }
    }
}
