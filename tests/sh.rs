use ibl_baker::sh::{
    factorial_division, normalization_ratio, sh_index, validate_face_set, FaceSetError, Fraction,
};

#[test]
fn sh_index_of_first_bands() {
    assert_eq!(sh_index(0, 0), 0);
    assert_eq!(sh_index(-1, 1), 1);
    assert_eq!(sh_index(0, 1), 2);
    assert_eq!(sh_index(1, 1), 3);
    assert_eq!(sh_index(-2, 2), 4);
    assert_eq!(sh_index(2, 2), 8);
}

#[test]
fn sh_index_covers_each_slot_once() {
    let bands = 5usize;
    let mut hits = vec![0u32; bands * bands];
    for l in 0..bands {
        for m in -(l as isize)..=(l as isize) {
            hits[sh_index(m, l)] += 1;
        }
    }
    assert!(hits.iter().all(|&h| h == 1));
}

#[test]
fn factorial_division_exact_values() {
    assert_eq!(factorial_division(5, 2), Some(Fraction { num: 60, den: 1 }));
    assert_eq!(factorial_division(2, 5), Some(Fraction { num: 1, den: 60 }));
    assert_eq!(factorial_division(4, 4), Some(Fraction { num: 1, den: 1 }));
    assert_eq!(factorial_division(0, 0), Some(Fraction { num: 1, den: 1 }));
    assert_eq!(factorial_division(3, 0), Some(Fraction { num: 6, den: 1 }));
    assert_eq!(factorial_division(1, 0), Some(Fraction { num: 1, den: 1 }));
}

#[test]
fn factorial_division_overflow_boundary() {
    assert_eq!(factorial_division(20, 0), Some(Fraction { num: 2432902008176640000, den: 1 }));
    assert_eq!(factorial_division(21, 0), None);
    assert_eq!(factorial_division(0, 21), None);
    assert_eq!(factorial_division(21, 1), None);
    assert_eq!(factorial_division(21, 2), None);
    assert_eq!(factorial_division(21, 3), Some(Fraction { num: 8515157028618240000, den: 1 }));
}

#[test]
fn normalization_ratios_of_low_bands() {
    // K(l, m)^2 = num / (4 pi den)
    assert_eq!(normalization_ratio(0, 0), Some(Fraction { num: 1, den: 1 }));
    assert_eq!(normalization_ratio(0, 1), Some(Fraction { num: 3, den: 1 }));
    assert_eq!(normalization_ratio(1, 1), Some(Fraction { num: 3, den: 2 }));
    assert_eq!(normalization_ratio(-1, 1), Some(Fraction { num: 3, den: 2 }));
    assert_eq!(normalization_ratio(2, 2), Some(Fraction { num: 5, den: 24 }));
    assert_eq!(normalization_ratio(-1, 2), Some(Fraction { num: 5, den: 6 }));
    assert_eq!(normalization_ratio(15, 15), None);
}

#[test]
fn face_set_accepted() {
    assert_eq!(validate_face_set(&vec![(16, 16); 6]), Ok(16));
}

#[test]
fn face_set_wrong_count() {
    assert_eq!(validate_face_set(&vec![(16, 16); 5]), Err(FaceSetError::WrongFaceCount));
    assert_eq!(validate_face_set(&vec![]), Err(FaceSetError::WrongFaceCount));
}

#[test]
fn face_set_non_square() {
    let mut dims = vec![(16, 16); 6];
    dims[3] = (16, 8);
    assert_eq!(validate_face_set(&dims), Err(FaceSetError::NonSquareFace));
}

#[test]
fn face_set_mismatched_sizes() {
    let mut dims = vec![(16, 16); 6];
    dims[5] = (8, 8);
    assert_eq!(validate_face_set(&dims), Err(FaceSetError::MismatchedFaceSizes));
}
