//! Integer side of spherical-harmonic projection: the flat layout of the
//! coefficients, the factorial ratios inside the normalization constants, and
//! the checks a set of cubemap faces must pass before it is projected.
use vstd::prelude::*;

verus! {

/// Flat position of the coefficient of band `l` and order `m`.
pub open spec fn sh_index_spec(m: int, l: int) -> int {
    l * (l + 1) + m
}

/// Position of the coefficient of band `l`, order `m` (`-l <= m <= l`) in
/// the flat coefficient array: `l * (l + 1) + m`.
pub fn sh_index(m: isize, l: usize) -> (r: usize)
    requires
        -(l as int) <= m <= l as int,
        (l + 1) * (l + 1) <= isize::MAX,
    ensures
        r == sh_index_spec(m as int, l as int),
{
    assert(l * (l + 1) + l < (l + 1) * (l + 1)) by (nonlinear_arith);
    assert(0 <= l * (l + 1) - l) by (nonlinear_arith);
    let li = l as isize;
    (li * (li + 1) + m) as usize
}

/// Position `k` holds the coefficient of some band below `num_bands`.
pub open spec fn is_band_order_index(k: int, num_bands: int) -> bool {
    exists|m: int, l: int| 0 <= l < num_bands && -l <= m <= l && #[trigger] sh_index_spec(m, l) == k
}

/// The coefficients of band `l` occupy positions `l^2` to `(l + 1)^2 - 1`.
proof fn lemma_band_range(m: int, l: int)
    requires
        0 <= l,
        -l <= m <= l,
    ensures
        l * l <= sh_index_spec(m, l) < (l + 1) * (l + 1),
{
    assert(l * (l + 1) - l == l * l) by (nonlinear_arith);
    assert(l * (l + 1) + l + 1 == (l + 1) * (l + 1)) by (nonlinear_arith);
}

proof fn lemma_square_monotone(a: int, b: int)
    requires
        0 <= a < b,
    ensures
        (a + 1) * (a + 1) <= b * b,
{
    assert((a + 1) * (a + 1) <= b * b) by (nonlinear_arith)
        requires
            0 <= a,
            a + 1 <= b,
    ;
}

/// With `num_bands` bands the flat layout is a bijection from the pairs
/// `(l, m)`, `0 <= l < num_bands`, `-l <= m <= l`, onto `0 .. num_bands^2`.
pub proof fn lemma_sh_index_bijective(num_bands: int)
    requires
        num_bands >= 0,
    ensures
        forall|m: int, l: int|
            0 <= l < num_bands && -l <= m <= l ==> 0 <= #[trigger] sh_index_spec(m, l) < num_bands
                * num_bands,
        forall|m1: int, l1: int, m2: int, l2: int|
            0 <= l1 && -l1 <= m1 <= l1 && 0 <= l2 && -l2 <= m2 <= l2 && #[trigger] sh_index_spec(m1, l1)
                == #[trigger] sh_index_spec(m2, l2) ==> l1 == l2 && m1 == m2,
        forall|k: int| 0 <= k < num_bands * num_bands ==> #[trigger] is_band_order_index(k, num_bands),
    decreases num_bands,
{
    assert forall|m: int, l: int|
        0 <= l < num_bands && -l <= m <= l implies 0 <= #[trigger] sh_index_spec(m, l) < num_bands
            * num_bands by {
        lemma_band_range(m, l);
        assert(0 <= l * l) by (nonlinear_arith);
        lemma_square_monotone(l, num_bands);
    }
    assert forall|m1: int, l1: int, m2: int, l2: int|
        0 <= l1 && -l1 <= m1 <= l1 && 0 <= l2 && -l2 <= m2 <= l2 && #[trigger] sh_index_spec(m1, l1)
            == #[trigger] sh_index_spec(m2, l2) implies l1 == l2 && m1 == m2 by {
        lemma_band_range(m1, l1);
        lemma_band_range(m2, l2);
        if l1 < l2 {
            lemma_square_monotone(l1, l2);
        } else if l2 < l1 {
            lemma_square_monotone(l2, l1);
        }
    }
    if num_bands > 0 {
        let n1 = num_bands - 1;
        lemma_sh_index_bijective(n1);
        assert forall|k: int| 0 <= k < num_bands * num_bands implies #[trigger] is_band_order_index(k, num_bands) by {
            if k >= n1 * n1 {
                let m = k - n1 * (n1 + 1);
                assert(n1 * (n1 + 1) - n1 == n1 * n1) by (nonlinear_arith);
                assert(n1 * (n1 + 1) + n1 + 1 == num_bands * num_bands) by (nonlinear_arith)
                    requires
                        n1 + 1 == num_bands,
                ;
                assert(sh_index_spec(m, n1) == k);
            } else {
                assert(is_band_order_index(k, n1));
                let (m, l) = choose|m: int, l: int|
                    0 <= l < n1 && -l <= m <= l && #[trigger] sh_index_spec(m, l) == k;
                assert(sh_index_spec(m, l) == k);
            }
            assert(is_band_order_index(k, num_bands));
        }
    } else {
        assert(num_bands * num_bands == 0) by (nonlinear_arith)
            requires
                num_bands == 0,
        ;
    }
}

/// `n!`.
pub open spec fn factorial(n: nat) -> nat
    decreases n,
{
    if n == 0 {
        1
    } else {
        n * factorial((n - 1) as nat)
    }
}

/// The product of the integers in `(lo, hi]`, which is `hi! / lo!` when
/// `lo <= hi` and one otherwise.
pub open spec fn factorial_ratio(hi: nat, lo: nat) -> nat
    decreases hi,
{
    if hi <= lo {
        1
    } else {
        hi * factorial_ratio((hi - 1) as nat, lo)
    }
}

proof fn lemma_factorial_ratio_positive(hi: nat, lo: nat)
    ensures
        factorial_ratio(hi, lo) >= 1,
    decreases hi,
{
    if hi > lo {
        lemma_factorial_ratio_positive((hi - 1) as nat, lo);
        assert(hi * factorial_ratio((hi - 1) as nat, lo) >= 1) by (nonlinear_arith)
            requires
                hi >= 1,
                factorial_ratio((hi - 1) as nat, lo) >= 1,
        ;
    }
}

/// The product over `(lo, hi]` splits at any `mid` between the bounds.
proof fn lemma_factorial_ratio_split(hi: nat, mid: nat, lo: nat)
    requires
        lo <= mid <= hi,
    ensures
        factorial_ratio(hi, lo) == factorial_ratio(hi, mid) * factorial_ratio(mid, lo),
    decreases hi,
{
    if hi == mid {
        assert(factorial_ratio(hi, mid) == 1);
    } else {
        lemma_factorial_ratio_split((hi - 1) as nat, mid, lo);
        let a = factorial_ratio((hi - 1) as nat, mid);
        let b = factorial_ratio(mid, lo);
        assert(hi * (a * b) == (hi * a) * b) by (nonlinear_arith);
    }
}

/// `hi! == factorial_ratio(hi, lo) * lo!` for `lo <= hi`.
proof fn lemma_factorial_ratio_is_quotient(hi: nat, lo: nat)
    requires
        lo <= hi,
    ensures
        factorial(hi) == factorial_ratio(hi, lo) * factorial(lo),
    decreases hi,
{
    if hi > lo {
        lemma_factorial_ratio_is_quotient((hi - 1) as nat, lo);
        let a = factorial_ratio((hi - 1) as nat, lo);
        assert(hi * (a * factorial(lo)) == (hi * a) * factorial(lo)) by (nonlinear_arith);
    } else {
        assert(factorial_ratio(hi, lo) * factorial(lo) == factorial(lo)) by (nonlinear_arith)
            requires
                factorial_ratio(hi, lo) == 1,
        ;
    }
}

/// An exact non-negative fraction `num / den`.
#[derive(Clone, Copy, Debug, PartialEq, Eq, Structural)]
pub struct Fraction {
    pub num: u64,
    pub den: u64,
}

/// The product of the integers in `(lo, hi]` when it fits in 64 bits.
fn checked_factorial_ratio(hi: usize, lo: usize) -> (r: Option<u64>)
    ensures
        r is Some <==> factorial_ratio(hi as nat, lo as nat) <= u64::MAX,
        r matches Some(p) ==> p == factorial_ratio(hi as nat, lo as nat),
{
    let mut product: u64 = 1;
    let mut k: usize = hi;
    while k > lo
        invariant
            lo <= hi ==> lo <= k <= hi,
            lo > hi ==> k == hi,
            product == factorial_ratio(hi as nat, k as nat),
        decreases k,
    {
        proof {
            lemma_factorial_ratio_split(hi as nat, k as nat, (k - 1) as nat);
            assert(factorial_ratio((k - 1) as nat, (k - 1) as nat) == 1);
            assert(factorial_ratio(k as nat, (k - 1) as nat) == k * factorial_ratio((k - 1) as nat, (k - 1) as nat));
            assert(factorial_ratio(k as nat, (k - 1) as nat) == k);
            assert(factorial_ratio(hi as nat, (k - 1) as nat) == product * k);
            assert(product * k < 0x1_0000_0000_0000_0000_0000_0000_0000_0000) by (nonlinear_arith)
                requires
                    product <= u64::MAX,
                    k <= u64::MAX,
            ;
        }
        let wide = (product as u128) * (k as u128);
        if wide > u64::MAX as u128 {
            proof {
                lemma_factorial_ratio_split(hi as nat, (k - 1) as nat, lo as nat);
                lemma_factorial_ratio_positive((k - 1) as nat, lo as nat);
                let rest = factorial_ratio((k - 1) as nat, lo as nat);
                assert(wide * rest >= wide) by (nonlinear_arith)
                    requires
                        rest >= 1,
                        wide >= 0,
                ;
                assert(factorial_ratio(hi as nat, lo as nat) == wide * rest);
            }
            return None;
        }
        product = wide as u64;
        k = k - 1;
    }
    proof {
        if lo <= hi {
            lemma_factorial_ratio_split(hi as nat, k as nat, lo as nat);
        }
    }
    Some(product)
}

/// `n! / d!` as an exact fraction in lowest terms of the form `p / 1` or
/// `1 / p`, when `p` fits in 64 bits.
pub fn factorial_division(n: usize, d: usize) -> (r: Option<Fraction>)
    ensures
        n >= d ==> (r is Some <==> factorial_ratio(n as nat, d as nat) <= u64::MAX),
        n < d ==> (r is Some <==> factorial_ratio(d as nat, n as nat) <= u64::MAX),
        r matches Some(q) ==> n >= d ==> q.num == factorial_ratio(n as nat, d as nat) && q.den == 1,
        r matches Some(q) ==> n < d ==> q.num == 1 && q.den == factorial_ratio(d as nat, n as nat),
        r matches Some(q) ==> q.num * factorial(d as nat) == q.den * factorial(n as nat),
{
    if n >= d {
        proof {
            lemma_factorial_ratio_is_quotient(n as nat, d as nat);
        }
        match checked_factorial_ratio(n, d) {
            Some(p) => {
                assert(p * factorial(d as nat) == 1 * factorial(n as nat));
                Some(Fraction { num: p, den: 1 })
            },
            None => None,
        }
    } else {
        proof {
            lemma_factorial_ratio_is_quotient(d as nat, n as nat);
        }
        match checked_factorial_ratio(d, n) {
            Some(p) => {
                assert(1 * factorial(d as nat) == p * factorial(n as nat));
                Some(Fraction { num: 1, den: p })
            },
            None => None,
        }
    }
}

/// `|m|`.
pub open spec fn abs(m: int) -> int {
    if m < 0 {
        -m
    } else {
        m
    }
}

/// The rational part of the squared normalization constant of band `l`,
/// order `m`: `K(l, m)^2 = num / (4 * pi * den)` with `num = 2l + 1` and
/// `den = (l + |m|)! / (l - |m|)!`, when `den` fits in 64 bits.
pub fn normalization_ratio(m: isize, l: usize) -> (r: Option<Fraction>)
    requires
        -(l as int) <= m <= l as int,
        2 * l + 1 <= isize::MAX,
    ensures
        r is Some <==> factorial_ratio((l + abs(m as int)) as nat, (l - abs(m as int)) as nat)
            <= u64::MAX,
        r matches Some(q) ==> q.num == 2 * l + 1 && q.den == factorial_ratio(
            (l + abs(m as int)) as nat,
            (l - abs(m as int)) as nat,
        ),
{
    let a: usize = if m < 0 {
        (-m) as usize
    } else {
        m as usize
    };
    match checked_factorial_ratio(l + a, l - a) {
        Some(p) => Some(Fraction { num: (2 * l + 1) as u64, den: p }),
        None => None,
    }
}

/// Why a set of cubemap faces cannot be projected.
#[derive(Clone, Copy, Debug, PartialEq, Eq, Structural)]
pub enum FaceSetError {
    /// A cubemap has exactly six faces.
    WrongFaceCount,
    /// A face is not square.
    NonSquareFace,
    /// The faces do not all have the same size.
    MismatchedFaceSizes,
}

/// Every face, given as `(width, height)`, is square.
pub open spec fn all_square(dims: Seq<(u32, u32)>) -> bool {
    forall|i: int| 0 <= i < dims.len() ==> (#[trigger] dims[i]).0 == dims[i].1
}

/// Every face is as wide as the first.
pub open spec fn all_same_width(dims: Seq<(u32, u32)>) -> bool {
    forall|i: int| 0 <= i < dims.len() ==> (#[trigger] dims[i]).0 == dims[0].0
}

/// Checks the `(width, height)` of each face of a cubemap before projection
/// and returns the common edge length: there must be six faces, each square,
/// all of one size. The first failing rule, in that order, gives the error.
pub fn validate_face_set(dims: &Vec<(u32, u32)>) -> (r: Result<u32, FaceSetError>)
    ensures
        dims.len() != 6 ==> r == Err::<u32, FaceSetError>(FaceSetError::WrongFaceCount),
        dims.len() == 6 && !all_square(dims@) ==> r == Err::<u32, FaceSetError>(
            FaceSetError::NonSquareFace,
        ),
        dims.len() == 6 && all_square(dims@) && !all_same_width(dims@) ==> r == Err::<
            u32,
            FaceSetError,
        >(FaceSetError::MismatchedFaceSizes),
        dims.len() == 6 && all_square(dims@) && all_same_width(dims@) ==> r == Ok::<
            u32,
            FaceSetError,
        >(dims@[0].0),
{
    if dims.len() != 6 {
        return Err(FaceSetError::WrongFaceCount);
    }
    let mut i: usize = 0;
    while i < dims.len()
        invariant
            dims.len() == 6,
            i <= dims.len(),
            forall|j: int| 0 <= j < i ==> (#[trigger] dims@[j]).0 == dims@[j].1,
        decreases dims.len() - i,
    {
        if dims[i].0 != dims[i].1 {
            return Err(FaceSetError::NonSquareFace);
        }
        i = i + 1;
    }
    let size = dims[0].0;
    let mut k: usize = 0;
    while k < dims.len()
        invariant
            dims.len() == 6,
            all_square(dims@),
            size == dims@[0].0,
            k <= dims.len(),
            forall|j: int| 0 <= j < k ==> (#[trigger] dims@[j]).0 == size,
        decreases dims.len() - k,
    {
        if dims[k].0 != size {
            return Err(FaceSetError::MismatchedFaceSizes);
        }
        k = k + 1;
    }
    Ok(size)
}

} // verus!
