use ibl_baker::mip::{mip_count, plan_mip_chain, BakeError, MipLevel};

#[test]
fn mip_count_of_powers_of_two() {
    assert_eq!(mip_count(1), Ok(1));
    assert_eq!(mip_count(2), Ok(2));
    assert_eq!(mip_count(4), Ok(3));
    assert_eq!(mip_count(256), Ok(9));
    assert_eq!(mip_count(1 << 31), Ok(32));
}

#[test]
fn mip_count_rejects_other_sizes() {
    for f in [0u32, 3, 6, 12, 255, 257, u32::MAX] {
        assert_eq!(mip_count(f), Err(BakeError::FaceSizeNotPowerOfTwo));
    }
}

#[test]
fn mip_chain_for_face_size_four() {
    let levels = plan_mip_chain(4).unwrap();
    assert_eq!(
        levels,
        vec![
            MipLevel { face_size: 4, roughness_num: 0, roughness_den: 4 },
            MipLevel { face_size: 2, roughness_num: 1, roughness_den: 4 },
            MipLevel { face_size: 1, roughness_num: 2, roughness_den: 4 },
        ]
    );
}

#[test]
fn mip_chain_halves_and_never_reaches_full_roughness() {
    for k in 0..12u32 {
        let f = 1u32 << k;
        let levels = plan_mip_chain(f).unwrap();
        assert_eq!(levels.len() as u32, k + 1);
        for (i, l) in levels.iter().enumerate() {
            assert_eq!(l.face_size, f >> i);
            assert_eq!(l.roughness_num, i as u32);
            assert!(l.roughness_num < l.roughness_den);
        }
        assert_eq!(levels.last().unwrap().face_size, 1);
    }
}

#[test]
fn mip_chain_rejects_non_power_of_two() {
    assert_eq!(plan_mip_chain(100), Err(BakeError::FaceSizeNotPowerOfTwo));
    assert_eq!(plan_mip_chain(0), Err(BakeError::FaceSizeNotPowerOfTwo));
}
