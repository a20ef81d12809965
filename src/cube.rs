//! Cubemap face layout. Each face maps normalized face coordinates
//! `(u, v)` in `[-1, 1]` to the direction `u * U + v * V + N`, where `U`, `V`
//! and `N` are signed unit axes fixed per face. Texel directions are computed
//! exactly, scaled by the face size, so that every consumer of the layout
//! sees the same directions.
use vstd::prelude::*;

verus! {

/// The six faces of a cubemap, in storage order.
#[derive(Clone, Copy, Debug, PartialEq, Eq, Structural)]
pub enum CubeFace {
    PositiveX,
    NegativeX,
    PositiveY,
    NegativeY,
    PositiveZ,
    NegativeZ,
}

/// Position of a face in the storage order `+x, -x, +y, -y, +z, -z`.
pub open spec fn face_index(face: CubeFace) -> nat {
    match face {
        CubeFace::PositiveX => 0,
        CubeFace::NegativeX => 1,
        CubeFace::PositiveY => 2,
        CubeFace::NegativeY => 3,
        CubeFace::PositiveZ => 4,
        CubeFace::NegativeZ => 5,
    }
}

/// An integer 3-vector.
#[derive(Clone, Copy, Debug, PartialEq, Eq, Structural)]
pub struct IVec3 {
    pub x: i64,
    pub y: i64,
    pub z: i64,
}

/// The direction of face coordinates `(a / s, b / s)` on `face`, scaled by `s`.
pub open spec fn face_direction(face: CubeFace, a: int, b: int, s: int) -> (int, int, int) {
    match face {
        CubeFace::PositiveX => (s, -b, -a),
        CubeFace::NegativeX => (-s, -b, a),
        CubeFace::PositiveY => (a, s, b),
        CubeFace::NegativeY => (a, -s, -b),
        CubeFace::PositiveZ => (a, -b, s),
        CubeFace::NegativeZ => (-a, -b, -s),
    }
}

/// The numerator over `size` of the normalized coordinate of texel centre
/// `x`: `u = 2 * (x + 0.5) / size - 1 = (2x + 1 - size) / size`.
pub open spec fn texel_center_num(x: int, size: int) -> int {
    2 * x + 1 - size
}

/// The exact direction of texel `(x, y)` of a face `size` texels wide, scaled
/// by `size`.
pub open spec fn texel_direction_spec(face: CubeFace, x: int, y: int, size: int) -> (int, int, int) {
    face_direction(face, texel_center_num(x, size), texel_center_num(y, size), size)
}

pub open spec fn ivec_of(v: IVec3) -> (int, int, int) {
    (v.x as int, v.y as int, v.z as int)
}

/// The signed unit axes `U`, `V` and `N` of a face.
#[derive(Clone, Copy, Debug, PartialEq, Eq, Structural)]
pub struct FaceAxes {
    pub u_axis: IVec3,
    pub v_axis: IVec3,
    pub normal: IVec3,
}

pub open spec fn unit_axes(v: IVec3) -> bool {
    -1 <= v.x <= 1 && -1 <= v.y <= 1 && -1 <= v.z <= 1
}

/// The table of face axes.
pub open spec fn face_axes(face: CubeFace) -> FaceAxes {
    match face {
        CubeFace::PositiveX => FaceAxes {
            u_axis: IVec3 { x: 0i64, y: 0i64, z: -1i64 },
            v_axis: IVec3 { x: 0i64, y: -1i64, z: 0i64 },
            normal: IVec3 { x: 1i64, y: 0i64, z: 0i64 },
        },
        CubeFace::NegativeX => FaceAxes {
            u_axis: IVec3 { x: 0i64, y: 0i64, z: 1i64 },
            v_axis: IVec3 { x: 0i64, y: -1i64, z: 0i64 },
            normal: IVec3 { x: -1i64, y: 0i64, z: 0i64 },
        },
        CubeFace::PositiveY => FaceAxes {
            u_axis: IVec3 { x: 1i64, y: 0i64, z: 0i64 },
            v_axis: IVec3 { x: 0i64, y: 0i64, z: 1i64 },
            normal: IVec3 { x: 0i64, y: 1i64, z: 0i64 },
        },
        CubeFace::NegativeY => FaceAxes {
            u_axis: IVec3 { x: 1i64, y: 0i64, z: 0i64 },
            v_axis: IVec3 { x: 0i64, y: 0i64, z: -1i64 },
            normal: IVec3 { x: 0i64, y: -1i64, z: 0i64 },
        },
        CubeFace::PositiveZ => FaceAxes {
            u_axis: IVec3 { x: 1i64, y: 0i64, z: 0i64 },
            v_axis: IVec3 { x: 0i64, y: -1i64, z: 0i64 },
            normal: IVec3 { x: 0i64, y: 0i64, z: 1i64 },
        },
        CubeFace::NegativeZ => FaceAxes {
            u_axis: IVec3 { x: -1i64, y: 0i64, z: 0i64 },
            v_axis: IVec3 { x: 0i64, y: -1i64, z: 0i64 },
            normal: IVec3 { x: 0i64, y: 0i64, z: -1i64 },
        },
    }
}

/// `a * U + b * V + s * N` for the axes of a face.
pub open spec fn axes_combination(axes: FaceAxes, a: int, b: int, s: int) -> (int, int, int) {
    (
        a * axes.u_axis.x + b * axes.v_axis.x + s * axes.normal.x,
        a * axes.u_axis.y + b * axes.v_axis.y + s * axes.normal.y,
        a * axes.u_axis.z + b * axes.v_axis.z + s * axes.normal.z,
    )
}

/// The explicit direction of each face is the one its row of the axis table
/// gives, so the table and the per-face formulas describe one layout.
pub proof fn lemma_face_direction_from_axes(face: CubeFace, a: int, b: int, s: int)
    ensures
        face_direction(face, a, b, s) == axes_combination(face_axes(face), a, b, s),
{
    assert(a * 0 == 0 && b * 0 == 0 && s * 0 == 0);
    assert(a * 1 == a && b * 1 == b && s * 1 == s);
    assert(a * -1 == -a && b * -1 == -b && s * -1 == -s);
    match face {
        CubeFace::PositiveX => {},
        CubeFace::NegativeX => {},
        CubeFace::PositiveY => {},
        CubeFace::NegativeY => {},
        CubeFace::PositiveZ => {},
        CubeFace::NegativeZ => {},
    }
}

impl CubeFace {
    /// The face at position `index` of the storage order.
    pub fn from_index(index: usize) -> (r: Option<CubeFace>)
        ensures
            r is Some <==> index < 6,
            r matches Some(f) ==> face_index(f) == index,
    {
        match index {
            0 => Some(CubeFace::PositiveX),
            1 => Some(CubeFace::NegativeX),
            2 => Some(CubeFace::PositiveY),
            3 => Some(CubeFace::NegativeY),
            4 => Some(CubeFace::PositiveZ),
            5 => Some(CubeFace::NegativeZ),
            _ => None,
        }
    }

    /// Position of this face in the storage order.
    pub fn index(&self) -> (r: usize)
        ensures
            r == face_index(*self),
    {
        match self {
            CubeFace::PositiveX => 0,
            CubeFace::NegativeX => 1,
            CubeFace::PositiveY => 2,
            CubeFace::NegativeY => 3,
            CubeFace::PositiveZ => 4,
            CubeFace::NegativeZ => 5,
        }
    }

    /// The axes of this face: its direction at `(u, v)` is
    /// `u * u_axis + v * v_axis + normal`.
    pub fn axes(&self) -> (r: FaceAxes)
        ensures
            r == face_axes(*self),
    {
        let (u_axis, v_axis, normal) = match self {
            CubeFace::PositiveX => (
                IVec3 { x: 0, y: 0, z: -1 },
                IVec3 { x: 0, y: -1, z: 0 },
                IVec3 { x: 1, y: 0, z: 0 },
            ),
            CubeFace::NegativeX => (
                IVec3 { x: 0, y: 0, z: 1 },
                IVec3 { x: 0, y: -1, z: 0 },
                IVec3 { x: -1, y: 0, z: 0 },
            ),
            CubeFace::PositiveY => (
                IVec3 { x: 1, y: 0, z: 0 },
                IVec3 { x: 0, y: 0, z: 1 },
                IVec3 { x: 0, y: 1, z: 0 },
            ),
            CubeFace::NegativeY => (
                IVec3 { x: 1, y: 0, z: 0 },
                IVec3 { x: 0, y: 0, z: -1 },
                IVec3 { x: 0, y: -1, z: 0 },
            ),
            CubeFace::PositiveZ => (
                IVec3 { x: 1, y: 0, z: 0 },
                IVec3 { x: 0, y: -1, z: 0 },
                IVec3 { x: 0, y: 0, z: 1 },
            ),
            CubeFace::NegativeZ => (
                IVec3 { x: -1, y: 0, z: 0 },
                IVec3 { x: 0, y: -1, z: 0 },
                IVec3 { x: 0, y: 0, z: -1 },
            ),
        };
        FaceAxes { u_axis, v_axis, normal }
    }
}

/// Numerator over `size` of the normalized coordinate of texel centre `x`;
/// it lies strictly between `-size` and `size`.
pub fn texel_center(x: u32, size: u32) -> (r: i64)
    requires
        x < size,
    ensures
        r == texel_center_num(x as int, size as int),
        -(size as int) < r < size as int,
{
    2 * (x as i64) + 1 - (size as i64)
}

/// Numerators over `size` of the normalized coordinates of the two edges of
/// texel column (or row) `x`: `(2x - size, 2x + 2 - size)`, half a texel on
/// either side of its centre.
pub fn texel_corners(x: u32, size: u32) -> (r: (i64, i64))
    requires
        x < size,
    ensures
        r.0 == texel_center_num(x as int, size as int) - 1,
        r.1 == texel_center_num(x as int, size as int) + 1,
        -(size as int) <= r.0 < r.1 <= size as int,
{
    let c = texel_center(x, size);
    (c - 1, c + 1)
}

/// The signed corner sum that weights texel `(x, y)` of a face `s` texels
/// wide, for a function `area` of the corner numerators: `++ - +- - -+ + --`.
pub open spec fn corner_term(area: spec_fn(int, int) -> int, x: int, y: int, s: int) -> int {
    area(2 * x - s, 2 * y - s) - area(2 * x - s, 2 * y + 2 - s) - area(2 * x + 2 - s, 2 * y - s)
        + area(2 * x + 2 - s, 2 * y + 2 - s)
}

/// Sum of the corner terms of the first `n` texels of row `y`.
pub open spec fn row_corner_sum(area: spec_fn(int, int) -> int, y: int, s: int, n: nat) -> int
    decreases n,
{
    if n == 0 {
        0
    } else {
        row_corner_sum(area, y, s, (n - 1) as nat) + corner_term(area, n - 1, y, s)
    }
}

/// Sum of the corner terms of the first `m` rows of a face `s` texels wide.
pub open spec fn face_corner_sum(area: spec_fn(int, int) -> int, s: nat, m: nat) -> int
    decreases m,
{
    if m == 0 {
        0
    } else {
        face_corner_sum(area, s, (m - 1) as nat) + row_corner_sum(area, m - 1, s as int, s)
    }
}

proof fn lemma_row_corner_sum(area: spec_fn(int, int) -> int, y: int, s: int, n: nat)
    ensures
        row_corner_sum(area, y, s, n) == (area(2 * n - s, 2 * y + 2 - s) - area(-s, 2 * y + 2 - s)) - (
        area(2 * n - s, 2 * y - s) - area(-s, 2 * y - s)),
    decreases n,
{
    if n > 0 {
        lemma_row_corner_sum(area, y, s, (n - 1) as nat);
    }
}

proof fn lemma_face_corner_sum(area: spec_fn(int, int) -> int, s: nat, m: nat)
    ensures
        face_corner_sum(area, s, m) == (area(s as int, 2 * m - s) - area(-s, 2 * m - s)) - (area(
            s as int,
            -s,
        ) - area(-s, -s)),
    decreases m,
{
    if m > 0 {
        lemma_face_corner_sum(area, s, (m - 1) as nat);
        lemma_row_corner_sum(area, m - 1, s as int, s);
    }
}

/// The texel weights of a face add up to the weight of the whole face,
/// whatever its resolution: for any function `area` of the corners, the
/// corner terms of all texels telescope to the terms of the face's own four
/// corners `(+-1, +-1)`. This is the exact part of the fact that the solid
/// angles of a face's texels add up to that of the face, `2 * pi / 3`; the
/// area element itself is floating point and not stated here.
pub proof fn lemma_face_weights_telescope(area: spec_fn(int, int) -> int, s: nat)
    ensures
        face_corner_sum(area, s, s) == area(-s, -s) - area(-s, s as int) - area(s as int, -s) + area(
            s as int,
            s as int,
        ),
{
    lemma_face_corner_sum(area, s, s);
}

/// `a * u + b * v + s * n` for signed unit axes.
fn combine(axes: FaceAxes, a: i64, b: i64, s: i64) -> (r: IVec3)
    requires
        -0x1_0000_0000 <= a <= 0x1_0000_0000,
        -0x1_0000_0000 <= b <= 0x1_0000_0000,
        -0x1_0000_0000 <= s <= 0x1_0000_0000,
        unit_axes(axes.u_axis),
        unit_axes(axes.v_axis),
        unit_axes(axes.normal),
    ensures
        ivec_of(r) == axes_combination(axes, a as int, b as int, s as int),
{
    let u = axes.u_axis;
    let v = axes.v_axis;
    let n = axes.normal;
    assert(-0x1_0000_0000 <= a * u.x <= 0x1_0000_0000) by (nonlinear_arith)
        requires -0x1_0000_0000 <= a <= 0x1_0000_0000, -1 <= u.x <= 1;
    assert(-0x1_0000_0000 <= a * u.y <= 0x1_0000_0000) by (nonlinear_arith)
        requires -0x1_0000_0000 <= a <= 0x1_0000_0000, -1 <= u.y <= 1;
    assert(-0x1_0000_0000 <= a * u.z <= 0x1_0000_0000) by (nonlinear_arith)
        requires -0x1_0000_0000 <= a <= 0x1_0000_0000, -1 <= u.z <= 1;
    assert(-0x1_0000_0000 <= b * v.x <= 0x1_0000_0000) by (nonlinear_arith)
        requires -0x1_0000_0000 <= b <= 0x1_0000_0000, -1 <= v.x <= 1;
    assert(-0x1_0000_0000 <= b * v.y <= 0x1_0000_0000) by (nonlinear_arith)
        requires -0x1_0000_0000 <= b <= 0x1_0000_0000, -1 <= v.y <= 1;
    assert(-0x1_0000_0000 <= b * v.z <= 0x1_0000_0000) by (nonlinear_arith)
        requires -0x1_0000_0000 <= b <= 0x1_0000_0000, -1 <= v.z <= 1;
    assert(-0x1_0000_0000 <= s * n.x <= 0x1_0000_0000) by (nonlinear_arith)
        requires -0x1_0000_0000 <= s <= 0x1_0000_0000, -1 <= n.x <= 1;
    assert(-0x1_0000_0000 <= s * n.y <= 0x1_0000_0000) by (nonlinear_arith)
        requires -0x1_0000_0000 <= s <= 0x1_0000_0000, -1 <= n.y <= 1;
    assert(-0x1_0000_0000 <= s * n.z <= 0x1_0000_0000) by (nonlinear_arith)
        requires -0x1_0000_0000 <= s <= 0x1_0000_0000, -1 <= n.z <= 1;
    IVec3 {
        x: a * u.x + b * v.x + s * n.x,
        y: a * u.y + b * v.y + s * n.y,
        z: a * u.z + b * v.z + s * n.z,
    }
}

/// Direction through the centre of texel `(x, y)` of `face`, for faces `size`
/// texels wide, scaled by `size` so that it is exact. Normalizing it gives the
/// unit direction of the texel.
pub fn texel_direction(face: CubeFace, x: u32, y: u32, size: u32) -> (r: IVec3)
    requires
        x < size,
        y < size,
    ensures
        ivec_of(r) == texel_direction_spec(face, x as int, y as int, size as int),
{
    let axes = face.axes();
    let a = texel_center(x, size);
    let b = texel_center(y, size);
    let r = combine(axes, a, b, size as i64);
    proof {
        lemma_face_direction_from_axes(face, a as int, b as int, size as int);
    }
    r
}

/// The face layout is one to one: distinct texels of a cube with faces `size`
/// texels wide look in distinct directions, and the face of a texel is the
/// one whose axis dominates its direction.
pub proof fn lemma_texel_directions_distinct(
    f1: CubeFace,
    x1: int,
    y1: int,
    f2: CubeFace,
    x2: int,
    y2: int,
    size: int,
)
    requires
        0 <= x1 < size,
        0 <= y1 < size,
        0 <= x2 < size,
        0 <= y2 < size,
        texel_direction_spec(f1, x1, y1, size) == texel_direction_spec(f2, x2, y2, size),
    ensures
        f1 == f2,
        x1 == x2,
        y1 == y2,
{
    match f1 {
        CubeFace::PositiveX => {},
        CubeFace::NegativeX => {},
        CubeFace::PositiveY => {},
        CubeFace::NegativeY => {},
        CubeFace::PositiveZ => {},
        CubeFace::NegativeZ => {},
    }
}

} // verus!
