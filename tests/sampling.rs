use ibl_baker::sampling::{hammersley, radical_inverse_vdc, HammersleyPoint};

#[test]
fn radical_inverse_of_zero_is_zero() {
    assert_eq!(radical_inverse_vdc(0), 0);
}

#[test]
fn radical_inverse_of_one_is_one_half() {
    // 0x8000_0000 / 2^32 == 0.5
    assert_eq!(radical_inverse_vdc(1), 0x8000_0000);
    assert_eq!((radical_inverse_vdc(1) as f64) * 2.3283064365386963e-10, 0.5);
}

#[test]
fn radical_inverse_of_top_bit_is_smallest_step() {
    assert_eq!(radical_inverse_vdc(0x8000_0000), 1);
}

#[test]
fn radical_inverse_first_terms_of_van_der_corput() {
    // 1/2, 1/4, 3/4, 1/8, 5/8 scaled by 2^32
    assert_eq!(radical_inverse_vdc(2), 0x4000_0000);
    assert_eq!(radical_inverse_vdc(3), 0xC000_0000);
    assert_eq!(radical_inverse_vdc(4), 0x2000_0000);
    assert_eq!(radical_inverse_vdc(5), 0xA000_0000);
}

#[test]
fn radical_inverse_matches_bit_reversal_and_is_an_involution() {
    let samples = [0u32, 1, 2, 0xFFFF_FFFF, 0x1234_5678, 0xDEAD_BEEF, 0x0F0F_0F0F, 7, 1 << 31];
    for &x in samples.iter() {
        assert_eq!(radical_inverse_vdc(x), x.reverse_bits());
        assert_eq!(radical_inverse_vdc(radical_inverse_vdc(x)), x);
    }
}

#[test]
fn hammersley_point_is_exact() {
    let p = hammersley(3, 8);
    assert_eq!(p, HammersleyPoint { x_num: 3, x_den: 8, y_num: 0xC000_0000 });
}

#[test]
fn hammersley_is_deterministic() {
    for i in 0..16u32 {
        assert_eq!(hammersley(i, 16), hammersley(i, 16));
    }
}

#[test]
fn hammersley_points_lie_in_unit_square() {
    let n = 64u32;
    for i in 0..n {
        let p = hammersley(i, n);
        assert!(p.x_num < p.x_den);
        let y = p.y_num as f64 / 4294967296.0;
        assert!((0.0..1.0).contains(&y));
    }
}
