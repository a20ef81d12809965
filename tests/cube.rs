use ibl_baker::cube::{texel_center, texel_corners, texel_direction, CubeFace, IVec3};
use std::collections::HashSet;

const FACES: [CubeFace; 6] = [
    CubeFace::PositiveX,
    CubeFace::NegativeX,
    CubeFace::PositiveY,
    CubeFace::NegativeY,
    CubeFace::PositiveZ,
    CubeFace::NegativeZ,
];

#[test]
fn face_index_round_trip() {
    for (i, f) in FACES.iter().enumerate() {
        assert_eq!(CubeFace::from_index(i), Some(*f));
        assert_eq!(f.index(), i);
    }
    assert_eq!(CubeFace::from_index(6), None);
}

#[test]
fn texel_centers_of_a_four_texel_face() {
    // u = (2x + 1 - 4) / 4: -3/4, -1/4, 1/4, 3/4
    let centers: Vec<i64> = (0..4).map(|x| texel_center(x, 4)).collect();
    assert_eq!(centers, vec![-3, -1, 1, 3]);
}

#[test]
fn texel_directions_follow_the_face_table() {
    assert_eq!(texel_direction(CubeFace::PositiveX, 0, 0, 4), IVec3 { x: 4, y: 3, z: 3 });
    assert_eq!(texel_direction(CubeFace::NegativeX, 0, 0, 4), IVec3 { x: -4, y: 3, z: -3 });
    assert_eq!(texel_direction(CubeFace::PositiveY, 3, 0, 4), IVec3 { x: 3, y: 4, z: -3 });
    assert_eq!(texel_direction(CubeFace::NegativeY, 3, 0, 4), IVec3 { x: 3, y: -4, z: 3 });
    assert_eq!(texel_direction(CubeFace::PositiveZ, 1, 2, 4), IVec3 { x: -1, y: -1, z: 4 });
    assert_eq!(texel_direction(CubeFace::NegativeZ, 1, 2, 4), IVec3 { x: 1, y: -1, z: -4 });
}

#[test]
fn face_axes_reproduce_texel_directions() {
    for f in FACES.iter() {
        let a = f.axes();
        for y in 0..3u32 {
            for x in 0..3u32 {
                let u = texel_center(x, 3);
                let v = texel_center(y, 3);
                let expected = IVec3 {
                    x: u * a.u_axis.x + v * a.v_axis.x + 3 * a.normal.x,
                    y: u * a.u_axis.y + v * a.v_axis.y + 3 * a.normal.y,
                    z: u * a.u_axis.z + v * a.v_axis.z + 3 * a.normal.z,
                };
                assert_eq!(texel_direction(*f, x, y, 3), expected);
            }
        }
    }
}

#[test]
fn all_texel_directions_are_distinct() {
    for size in [1u32, 2, 5, 8] {
        let mut seen = HashSet::new();
        for f in FACES.iter() {
            for y in 0..size {
                for x in 0..size {
                    let d = texel_direction(*f, x, y, size);
                    assert!(seen.insert((d.x, d.y, d.z)));
                }
            }
        }
        assert_eq!(seen.len() as u32, 6 * size * size);
    }
}

#[test]
fn texel_corners_tile_the_face() {
    let size = 4u32;
    let corners: Vec<(i64, i64)> = (0..size).map(|x| texel_corners(x, size)).collect();
    assert_eq!(corners, vec![(-4, -2), (-2, 0), (0, 2), (2, 4)]);
    for w in corners.windows(2) {
        assert_eq!(w[0].1, w[1].0);
    }
}

#[test]
fn texel_solid_angles_add_up_to_the_sphere() {
    fn area(x: f64, y: f64) -> f64 {
        (x * y).atan2((x * x + y * y + 1.0).sqrt())
    }
    for size in [1u32, 2, 7, 32] {
        let s = size as f64;
        let mut total = 0.0;
        for y in 0..size {
            for x in 0..size {
                let (x0, x1) = texel_corners(x, size);
                let (y0, y1) = texel_corners(y, size);
                let (x0, x1, y0, y1) = (x0 as f64 / s, x1 as f64 / s, y0 as f64 / s, y1 as f64 / s);
                total += area(x0, y0) - area(x0, y1) - area(x1, y0) + area(x1, y1);
            }
        }
        assert!((6.0 * total - 4.0 * std::f64::consts::PI).abs() < 1e-9);
    }
}
