//! Planning of the prefiltered specular mip chain: how many levels a face size
//! gives, the edge length of each level, and the roughness each level is
//! convolved with.
use vstd::prelude::*;

verus! {

/// Two to the power `e`.
pub open spec fn exp2(e: nat) -> nat
    decreases e,
{
    if e == 0 {
        1
    } else {
        2 * exp2((e - 1) as nat)
    }
}

/// `f` is a power of two.
pub open spec fn is_power_of_two(f: int) -> bool {
    exists|k: nat| exp2(k) == f
}

/// Why a mip chain cannot be planned.
#[derive(Clone, Copy, Debug, PartialEq, Eq, Structural)]
pub enum BakeError {
    /// The requested face edge length is not a power of two.
    FaceSizeNotPowerOfTwo,
}

proof fn lemma_exp2_positive(e: nat)
    ensures
        exp2(e) >= 1,
    decreases e,
{
    if e > 0 {
        lemma_exp2_positive((e - 1) as nat);
    }
}

proof fn lemma_exp2_strictly_increases(a: nat, b: nat)
    requires
        a < b,
    ensures
        exp2(a) < exp2(b),
    decreases b,
{
    lemma_exp2_positive((b - 1) as nat);
    if a < b - 1 {
        lemma_exp2_strictly_increases(a, (b - 1) as nat);
    }
}

proof fn lemma_exp2_injective(a: nat, b: nat)
    requires
        exp2(a) == exp2(b),
    ensures
        a == b,
{
    if a < b {
        lemma_exp2_strictly_increases(a, b);
    } else if b < a {
        lemma_exp2_strictly_increases(b, a);
    }
}

/// `exp2(a + b) == exp2(a) * exp2(b)`.
proof fn lemma_exp2_adds(a: nat, b: nat)
    ensures
        exp2(a + b) == exp2(a) * exp2(b),
    decreases a,
{
    if a > 0 {
        lemma_exp2_adds((a - 1) as nat, b);
        assert(exp2(a + b) == 2 * exp2((a - 1 + b) as nat));
        assert(2 * (exp2((a - 1) as nat) * exp2(b)) == (2 * exp2((a - 1) as nat)) * exp2(b))
            by (nonlinear_arith);
    } else {
        assert(exp2(a) * exp2(b) == exp2(b)) by (nonlinear_arith)
            requires
                exp2(a) == 1,
        ;
    }
}

/// An odd number times a power of two is a power of two only when the odd
/// number is one.
proof fn lemma_odd_times_exp2(v: int, k: nat, j: nat)
    requires
        v >= 1,
        v % 2 == 1,
        v * exp2(k) == exp2(j),
    ensures
        v == 1,
        k == j,
    decreases k,
{
    if k == 0 {
        assert(v * exp2(k) == v) by (nonlinear_arith)
            requires
                exp2(k) == 1,
        ;
        if j > 0 {
            assert(v == 2 * exp2((j - 1) as nat));
            assert(false);
        }
    } else {
        lemma_exp2_positive((k - 1) as nat);
        assert(v * exp2(k) == 2 * (v * exp2((k - 1) as nat))) by (nonlinear_arith)
            requires
                exp2(k) == 2 * exp2((k - 1) as nat),
        ;
        if j == 0 {
            assert(v * exp2((k - 1) as nat) >= 1) by (nonlinear_arith)
                requires
                    v >= 1,
                    exp2((k - 1) as nat) >= 1,
            ;
        } else {
            lemma_odd_times_exp2(v, (k - 1) as nat, (j - 1) as nat);
        }
    }
}

proof fn lemma_exp2_32()
    ensures
        exp2(32) == 0x1_0000_0000,
{
    reveal_with_fuel(exp2, 33);
}

/// Number of levels in the mip chain of a cube whose faces are `face_size`
/// texels wide: `log2(face_size) + 1`, down to a face of one texel. Only a
/// power of two is accepted.
pub fn mip_count(face_size: u32) -> (r: Result<u32, BakeError>)
    ensures
        r is Ok <==> is_power_of_two(face_size as int),
        r matches Ok(c) ==> 1 <= c <= 32 && exp2((c - 1) as nat) == face_size,
        r matches Err(e) ==> e == BakeError::FaceSizeNotPowerOfTwo,
{
    if face_size == 0 {
        proof {
            assert forall|k: nat| exp2(k) != 0 by {
                lemma_exp2_positive(k);
            }
        }
        return Err(BakeError::FaceSizeNotPowerOfTwo);
    }
    let mut v: u32 = face_size;
    let mut k: u32 = 0;
    assert(v * exp2(0) == v) by (nonlinear_arith)
        requires
            exp2(0) == 1,
    ;
    while v % 2 == 0
        invariant
            v >= 1,
            v * exp2(k as nat) == face_size,
            k <= 31,
        decreases v,
    {
        proof {
            let h = v / 2;
            assert(h >= 1);
            assert(v * exp2(k as nat) == h * exp2((k + 1) as nat)) by (nonlinear_arith)
                requires
                    v == 2 * h,
                    exp2((k + 1) as nat) == 2 * exp2(k as nat),
            ;
            assert(exp2((k + 1) as nat) <= h * exp2((k + 1) as nat)) by (nonlinear_arith)
                requires
                    h >= 1,
            ;
            if k + 1 > 31 {
                lemma_exp2_32();
                if k + 1 > 32 {
                    lemma_exp2_strictly_increases(32, (k + 1) as nat);
                }
            }
        }
        v = v / 2;
        k = k + 1;
    }
    if v == 1 {
        assert(v * exp2(k as nat) == exp2(k as nat)) by (nonlinear_arith)
            requires
                v == 1,
        ;
        Ok(k + 1)
    } else {
        proof {
            if is_power_of_two(face_size as int) {
                let j = choose|j: nat| exp2(j) == face_size;
                lemma_odd_times_exp2(v as int, k as nat, j);
            }
        }
        Err(BakeError::FaceSizeNotPowerOfTwo)
    }
}

/// One level of the mip chain: faces `face_size` texels wide, convolved with
/// roughness `roughness_num / roughness_den`.
#[derive(Clone, Copy, Debug, PartialEq, Eq, Structural)]
pub struct MipLevel {
    pub face_size: u32,
    pub roughness_num: u32,
    pub roughness_den: u32,
}

/// `l` is level `i` of the `count`-level chain for faces `face_size` wide:
/// its edge is `face_size / 2^i` and its roughness is `i / (count + 1)`.
pub open spec fn is_planned_level(face_size: u32, count: nat, i: int, l: MipLevel) -> bool {
    &&& l.face_size * exp2(i as nat) == face_size
    &&& l.roughness_num == i
    &&& l.roughness_den == count + 1
}

/// The levels of the prefiltered mip chain for faces `face_size` texels wide,
/// highest resolution first; each level halves the edge of the one before and
/// raises the roughness by `1 / (count + 1)`.
pub fn plan_mip_chain(face_size: u32) -> (r: Result<Vec<MipLevel>, BakeError>)
    ensures
        r is Ok <==> is_power_of_two(face_size as int),
        r matches Ok(levels) ==> {
            &&& levels.len() >= 1
            &&& exp2((levels.len() - 1) as nat) == face_size
            &&& forall|i: int|
                0 <= i < levels.len() ==> is_planned_level(face_size, levels.len() as nat, i, #[trigger] levels[i])
        },
        r matches Err(e) ==> e == BakeError::FaceSizeNotPowerOfTwo,
{
    let count = match mip_count(face_size) {
        Ok(c) => c,
        Err(e) => {
            return Err(e);
        },
    };
    let mut levels: Vec<MipLevel> = Vec::new();
    let mut size: u32 = face_size;
    let mut i: u32 = 0;
    while i < count
        invariant
            1 <= count <= 32,
            exp2((count - 1) as nat) == face_size,
            i <= count,
            i < count ==> size == exp2((count - 1 - i) as nat),
            levels.len() == i,
            forall|j: int| 0 <= j < i ==> is_planned_level(face_size, count as nat, j, #[trigger] levels[j]),
        decreases count - i,
    {
        proof {
            lemma_exp2_adds((count - 1 - i) as nat, i as nat);
            assert((count - 1 - i) as nat + i as nat == (count - 1) as nat);
        }
        levels.push(MipLevel { face_size: size, roughness_num: i, roughness_den: count + 1 });
        proof {
            if i + 1 < count {
                assert(exp2((count - 1 - i) as nat) == 2 * exp2((count - 1 - (i + 1)) as nat));
            }
        }
        size = size / 2;
        i = i + 1;
    }
    Ok(levels)
}

/// For a face size `f = 2^k`, a planned chain has `k + 1` levels, level `i`
/// is `f / 2^i` texels wide and the last is one texel wide; the roughness of
/// the levels never decreases and stays below one.
pub proof fn lemma_mip_chain_shape(face_size: u32, k: nat, levels: Seq<MipLevel>)
    requires
        exp2(k) == face_size,
        levels.len() >= 1,
        exp2((levels.len() - 1) as nat) == face_size,
        forall|i: int|
            0 <= i < levels.len() ==> is_planned_level(face_size, levels.len(), i, #[trigger] levels[i]),
    ensures
        levels.len() == k + 1,
        forall|i: int| 0 <= i < levels.len() ==> #[trigger] levels[i].face_size == face_size as int / exp2(i as nat) as int,
        levels[levels.len() - 1].face_size == 1,
        forall|i: int, j: int|
            0 <= i <= j < levels.len() ==> levels[i].roughness_den == levels[j].roughness_den
                && #[trigger] levels[i].roughness_num <= #[trigger] levels[j].roughness_num,
        forall|i: int| 0 <= i < levels.len() ==> #[trigger] levels[i].roughness_num < levels[i].roughness_den,
{
    lemma_exp2_injective(k, (levels.len() - 1) as nat);
    assert forall|i: int| 0 <= i < levels.len() implies #[trigger] levels[i].face_size == face_size as int / exp2(i as nat) as int by {
        let l = levels[i];
        lemma_exp2_positive(i as nat);
        assert(l.face_size * exp2(i as nat) == face_size);
        vstd::arithmetic::div_mod::lemma_div_by_multiple(l.face_size as int, exp2(i as nat) as int);
    }
    let last = levels[levels.len() - 1];
    assert(last.face_size * exp2(k) == exp2(k));
    lemma_exp2_positive(k);
    assert(last.face_size == 1) by (nonlinear_arith)
        requires
            last.face_size * exp2(k) == exp2(k),
            exp2(k) >= 1,
    ;
}

} // verus!
