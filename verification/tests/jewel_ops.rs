// Construction, loads, scalar access, shifts and elementwise operations of
// the portable lane-vector backend.

use triple_accel::jewel::AvxNx32x8;
use triple_accel::jewel::Jewel;

fn pattern(len: usize) -> Vec<u8> {
    let mut v: Vec<u8> = Vec::with_capacity(len);
    for i in 0..len {
        v.push(((i * 7 + 3) % 256) as u8);
    }
    v
}

#[test]
fn round_trip_load_many_lengths() {
    for &len in &[0usize, 1, 31, 32, 33, 63, 1000] {
        let src = pattern(len);
        let v = AvxNx32x8::loadu(&src, len);
        for i in 0..len {
            assert_eq!(v.extract(i), src[i] as u32, "len {} lane {}", len, i);
        }
        // the trailing partial word is zero-padded
        for i in len..v.upper_bound() {
            assert_eq!(v.extract(i), 0, "len {} tail lane {}", len, i);
        }
    }
}

#[test]
fn loadu_reads_only_len_bytes() {
    // a longer source: bytes past len must not appear in the vector
    let src = pattern(100);
    let v = AvxNx32x8::loadu(&src, 40);
    assert_eq!(v.upper_bound(), 64);
    for i in 0..40 {
        assert_eq!(v.extract(i), src[i] as u32);
    }
    for i in 40..64 {
        assert_eq!(v.extract(i), 0);
    }
}

#[test]
fn broadcast_fills_every_lane_of_every_word() {
    for &len in &[0usize, 1, 31, 32, 33, 63, 1000] {
        let v = AvxNx32x8::repeating(180, len);
        for i in 0..v.upper_bound() {
            assert_eq!(v.extract(i), 180, "len {} lane {}", len, i);
        }
    }
}

#[test]
fn broadcast_takes_low_byte() {
    let v = AvxNx32x8::repeating(0x0123, 5);
    for i in 0..v.upper_bound() {
        assert_eq!(v.extract(i), 0x23);
    }
}

#[test]
fn repeating_max_fills_sentinel() {
    let v = AvxNx32x8::repeating_max(33);
    assert_eq!(v.upper_bound(), 64);
    for i in 0..64 {
        assert_eq!(v.extract(i), 127);
    }
}

#[test]
fn upper_bound_is_word_granular() {
    assert_eq!(AvxNx32x8::repeating(0, 0).upper_bound(), 0);
    assert_eq!(AvxNx32x8::repeating(0, 1).upper_bound(), 32);
    assert_eq!(AvxNx32x8::repeating(0, 32).upper_bound(), 32);
    assert_eq!(AvxNx32x8::repeating(0, 33).upper_bound(), 64);
    assert_eq!(AvxNx32x8::repeating(0, 1000).upper_bound(), 1024);
}

#[test]
fn insert_and_extract() {
    let mut v = AvxNx32x8::repeating(1, 70);
    v.insert(0, 9);
    v.insert(35, 0x1ff); // low byte only
    v.insert(95, 250);
    assert_eq!(v.extract(0), 9);
    assert_eq!(v.extract(35), 0xff);
    assert_eq!(v.extract(95), 250);
    assert_eq!(v.extract(1), 1);
    assert_eq!(v.extract(34), 1);
}

#[test]
fn insert_last_and_first_family() {
    let mut v = AvxNx32x8::repeating(0, 33);
    let ub = v.upper_bound();
    assert_eq!(ub, 64);
    v.insert_last_0(11);
    v.insert_last_1(22);
    v.insert_last_2(33);
    v.insert_first(44);
    assert_eq!(v.extract(ub - 1), 11);
    assert_eq!(v.extract(ub - 2), 22);
    assert_eq!(v.extract(ub - 3), 33);
    assert_eq!(v.extract(0), 44);
    v.insert_last_max();
    v.insert_first_max();
    assert_eq!(v.extract(ub - 1), 127);
    assert_eq!(v.extract(0), 127);
}

#[test]
fn slow_loadu_forward() {
    let mut v = AvxNx32x8::repeating(9, 64);
    let src = vec![1u8, 2, 3, 4, 5];
    v.slow_loadu(30, &src, 5, false);
    for i in 0..64 {
        let expected: u32 = match i {
            30 => 1,
            31 => 2,
            32 => 3,
            33 => 4,
            34 => 5,
            _ => 9,
        };
        assert_eq!(v.extract(i), expected, "lane {}", i);
    }
}

#[test]
fn slow_loadu_reverse() {
    let mut v = AvxNx32x8::repeating(9, 64);
    let src = vec![1u8, 2, 3, 4, 5];
    v.slow_loadu(33, &src, 5, true);
    for i in 0..64 {
        let expected: u32 = match i {
            33 => 1,
            32 => 2,
            31 => 3,
            30 => 4,
            29 => 5,
            _ => 9,
        };
        assert_eq!(v.extract(i), expected, "lane {}", i);
    }
}

#[test]
fn slow_loadu_empty_is_noop() {
    let mut v = AvxNx32x8::repeating(7, 40);
    let src: Vec<u8> = Vec::new();
    v.slow_loadu(0, &src, 0, false);
    for i in 0..v.upper_bound() {
        assert_eq!(v.extract(i), 7);
    }
}

#[test]
fn fast_loadu_reloads_whole_vector() {
    let mut v = AvxNx32x8::repeating(0, 40);
    let src = pattern(v.upper_bound());
    v.fast_loadu(&src);
    for i in 0..v.upper_bound() {
        assert_eq!(v.extract(i), src[i] as u32);
    }
}

#[test]
fn shift_left_then_right_zeroes_lane_zero() {
    let len = 100usize;
    let src = pattern(len);
    let mut v = AvxNx32x8::loadu(&src, len);
    v.shift_left_1();
    v.shift_right_1();
    assert_eq!(v.extract(0), 0);
    for i in 1..len {
        assert_eq!(v.extract(i), src[i] as u32, "lane {}", i);
    }
}

#[test]
fn shift_left_crosses_word_boundary() {
    let src = pattern(64);
    let mut v = AvxNx32x8::loadu(&src, 64);
    v.shift_left_1();
    for i in 0..63 {
        assert_eq!(v.extract(i), src[i + 1] as u32, "lane {}", i);
    }
    assert_eq!(v.extract(63), 0);
}

#[test]
fn shift_right_crosses_word_boundary() {
    let src = pattern(64);
    let mut v = AvxNx32x8::loadu(&src, 64);
    v.shift_right_1();
    assert_eq!(v.extract(0), 0);
    for i in 1..64 {
        assert_eq!(v.extract(i), src[i - 1] as u32, "lane {}", i);
    }
}

#[test]
fn add_wraps_per_lane() {
    let mut a = AvxNx32x8::repeating(200, 32);
    let b = AvxNx32x8::repeating(200, 32);
    a.add(&b);
    for i in 0..32 {
        assert_eq!(a.extract(i), 144); // 400 mod 256
    }
}

#[test]
fn adds_saturates_signed() {
    // 100 + 100 saturates at the signed maximum 127
    let mut a = AvxNx32x8::repeating(100, 32);
    let b = AvxNx32x8::repeating(100, 32);
    a.adds(&b);
    for i in 0..32 {
        assert_eq!(a.extract(i), 127);
    }
    // -56 + -56 = -112 stays exact: byte 144
    let mut c = AvxNx32x8::repeating(200, 32);
    let d = AvxNx32x8::repeating(200, 32);
    c.adds(&d);
    for i in 0..32 {
        assert_eq!(c.extract(i), 144);
    }
    // -128 + -1 saturates at the signed minimum -128: byte 128
    let mut e = AvxNx32x8::repeating(128, 32);
    let f = AvxNx32x8::repeating(255, 32);
    e.adds(&f);
    for i in 0..32 {
        assert_eq!(e.extract(i), 128);
    }
}

#[test]
fn neg_add_subtracts_self_from_other() {
    let mut a = AvxNx32x8::repeating(10, 32);
    let b = AvxNx32x8::repeating(3, 32);
    a.neg_add(&b); // 3 - 10 = -7, byte 249
    for i in 0..32 {
        assert_eq!(a.extract(i), 249);
    }
}

#[test]
fn and_is_bitwise() {
    let mut a = AvxNx32x8::repeating(0b1100_1010, 32);
    let b = AvxNx32x8::repeating(0b1010_1100, 32);
    a.and(&b);
    for i in 0..32 {
        assert_eq!(a.extract(i), 0b1000_1000);
    }
}

#[test]
fn blendv_selects_by_mask_high_bit() {
    let len = 64usize;
    let mut mask_bytes = vec![0u8; len];
    for i in 0..len {
        // alternate all-high-bit-set and all-clear mask bytes
        if i % 2 == 0 {
            mask_bytes[i] = 0x80;
        }
    }
    let mut mask = AvxNx32x8::loadu(&mask_bytes, len);
    let a = AvxNx32x8::repeating(5, len);
    let b = AvxNx32x8::repeating(200, len);
    mask.blendv(&a, &b);
    for i in 0..len {
        let expected: u32 = if i % 2 == 0 { 200 } else { 5 };
        assert_eq!(mask.extract(i), expected, "lane {}", i);
    }
}

#[test]
fn cmpeq_masks_equal_lanes() {
    let mut xs = vec![7u8; 32];
    xs[4] = 9;
    let a = AvxNx32x8::loadu(&xs, 32);
    let b = AvxNx32x8::repeating(7, 32);
    let r = AvxNx32x8::cmpeq(&a, &b);
    for i in 0..32 {
        let expected: u32 = if i == 4 { 0 } else { 255 };
        assert_eq!(r.extract(i), expected, "lane {}", i);
    }
}

#[test]
fn cmpgt_is_signed() {
    // 127 > -128 in the signed order, although 127 < 128 as plain bytes
    let a = AvxNx32x8::repeating(127, 32);
    let b = AvxNx32x8::repeating(128, 32);
    let r = AvxNx32x8::cmpgt(&a, &b);
    let s = AvxNx32x8::cmpgt(&b, &a);
    for i in 0..32 {
        assert_eq!(r.extract(i), 255);
        assert_eq!(s.extract(i), 0);
    }
}

#[test]
fn min_max_are_signed() {
    // byte 128 reads as -128, the signed minimum
    let a = AvxNx32x8::repeating(128, 32);
    let b = AvxNx32x8::repeating(0, 32);
    let lo = AvxNx32x8::min(&a, &b);
    let hi = AvxNx32x8::max(&a, &b);
    for i in 0..32 {
        assert_eq!(lo.extract(i), 128);
        assert_eq!(hi.extract(i), 0);
    }
}

#[test]
fn fused_factories_keep_operands() {
    let a = AvxNx32x8::repeating(3, 32);
    let b = AvxNx32x8::repeating(8, 32);
    let _ = AvxNx32x8::min(&a, &b);
    assert_eq!(a.extract(0), 3);
    assert_eq!(b.extract(0), 8);
}

#[test]
fn clone_duplicates_lanes() {
    let src = pattern(50);
    let v = AvxNx32x8::loadu(&src, 50);
    let w = v.clone();
    assert_eq!(w.len(), 50);
    assert_eq!(w.upper_bound(), v.upper_bound());
    for i in 0..v.upper_bound() {
        assert_eq!(w.extract(i), v.extract(i));
    }
}

#[test]
fn logical_len_is_kept() {
    let v = AvxNx32x8::repeating(0, 33);
    assert_eq!(v.len(), 33);
    let w = AvxNx32x8::loadu(&pattern(20), 20);
    assert_eq!(w.len(), 20);
}
