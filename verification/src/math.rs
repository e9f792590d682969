//! Fixed-point scalar arithmetic.
//!
//! Every scalar of the engine is a `Fixed`: the integer `x` stands for the
//! real number `x / SCALE`.  Multiplication and division rescale and round
//! toward zero; square roots round down.  All operations state their result
//! exactly, so the geometry built on them is deterministic on every machine.

use vstd::prelude::*;

verus! {

/// The engine's scalar: a fixed-point number with denominator `SCALE`.
pub type Fixed = i128;

/// Fixed-point denominator: `SCALE` stands for the real number one.
pub const SCALE: i128 = 65536;

/// Magnitude bound under which all fixed-point products stay well inside
/// `i128`; scene coordinates are required to stay within it.
pub const FX_MAX: i128 = 17592186044416;

/// Looser bound admitted as a multiplication operand: intermediate values
/// (dot products, discriminants) may exceed `FX_MAX` yet still multiply
/// safely as long as they stay within `MUL_MAX`.
pub const MUL_MAX: i128 = 1125899906842624;

/// A product of two `MUL_MAX`-bounded operands, after rescaling, stays
/// within this bound: `MUL_MAX * MUL_MAX / SCALE`.
pub const PROD_MAX: i128 = 19342813113834066795298816;

/// Dividend magnitude bound for fixed-point division.
pub const DIV_MAX: i128 = 1152921504606846976;

/// Conservative cap under which products of magnitudes fit in `i128`.
pub const WIDE_MAX: i128 = 85070591730234615865843651857942052864;

/// A scalar small enough to take part in products without overflow.
pub open spec fn fx_ok(x: int) -> bool {
    -FX_MAX <= x <= FX_MAX
}

/// The absolute value of an integer.
pub open spec fn iabs(x: int) -> int {
    if x >= 0 {
        x
    } else {
        -x
    }
}

/// Signed division rounding toward zero, the rounding rule of all
/// fixed-point operations here (`/` in specifications is Euclidean).
pub open spec fn div_tz(a: int, b: int) -> int {
    if (a >= 0) == (b >= 0) {
        iabs(a) / iabs(b)
    } else {
        -(iabs(a) / iabs(b))
    }
}

/// The product of two scalars, rescaled: stands for the real product.
pub open spec fn fx_mul(a: int, b: int) -> int {
    div_tz(a * b, SCALE as int)
}

/// The quotient of two scalars, rescaled: stands for the real quotient.
pub open spec fn fx_div(a: int, b: int) -> int {
    div_tz(a * SCALE, b)
}

/// The integer square root, rounded down.
pub open spec fn sqrt_floor(n: nat) -> nat
    decreases n,
{
    if n == 0 {
        0
    } else {
        let r = sqrt_floor((n - 1) as nat);
        if (r + 1) * (r + 1) <= n {
            r + 1
        } else {
            r
        }
    }
}

/// The square root of a scalar, rounded down in fixed-point units:
/// `fx_sqrt(x)/SCALE` is the largest representable value whose square is at
/// most `x/SCALE`.
pub open spec fn fx_sqrt(x: int) -> int
    recommends
        x >= 0,
{
    sqrt_floor((x * SCALE) as nat) as int
}

/// `sqrt_floor` is the floor of the real square root.
pub proof fn lemma_sqrt_floor_bounds(n: nat)
    ensures
        sqrt_floor(n) * sqrt_floor(n) <= n,
        n < (sqrt_floor(n) + 1) * (sqrt_floor(n) + 1),
    decreases n,
{
    if n > 0 {
        let m = (n - 1) as nat;
        lemma_sqrt_floor_bounds(m);
        let r = sqrt_floor(m);
        let s = sqrt_floor(n);
        if (r + 1) * (r + 1) <= n {
            assert(s == r + 1);
            assert(n < (s + 1) * (s + 1)) by (nonlinear_arith)
                requires
                    n >= 1,
                    m == n - 1,
                    m < (r + 1) * (r + 1),
                    (r + 1) * (r + 1) <= n,
                    s == r + 1,
            ;
        } else {
            assert(s == r);
            assert(s * s <= m);
            assert(n < (r + 1) * (r + 1));
            assert(n < (s + 1) * (s + 1));
        }
    } else {
        assert(n == 0);
        assert(sqrt_floor(0) == 0);
        assert((sqrt_floor(0) + 1) * (sqrt_floor(0) + 1) == 1) by (nonlinear_arith);
    }
}

/// Any value sandwiched like the floor square root is the floor square root.
pub proof fn lemma_sqrt_floor_unique(r: nat, n: nat)
    requires
        r * r <= n,
        n < (r + 1) * (r + 1),
    ensures
        r == sqrt_floor(n),
{
    lemma_sqrt_floor_bounds(n);
    let s = sqrt_floor(n);
    assert(r == s) by (nonlinear_arith)
        requires
            r * r <= n,
            n < (r + 1) * (r + 1),
            s * s <= n,
            n < (s + 1) * (s + 1),
    ;
}

/// Truncating signed division on machine integers.
pub fn div_trunc(a: i128, b: i128) -> (r: i128)
    requires
        b != 0,
        iabs(a as int) < WIDE_MAX,
        iabs(b as int) < WIDE_MAX,
    ensures
        r == div_tz(a as int, b as int),
{
    let neg: bool = (a < 0) != (b < 0);
    let ua: u128 = if a < 0 {
        (-a) as u128
    } else {
        a as u128
    };
    let ub: u128 = if b < 0 {
        (-b) as u128
    } else {
        b as u128
    };
    let uq: u128 = ua / ub;
    assert(ua == iabs(a as int) && ub == iabs(b as int));
    assert(uq <= ua) by (nonlinear_arith)
        requires
            ub >= 1,
            uq == ua / ub,
    ;
    if neg {
        -(uq as i128)
    } else {
        uq as i128
    }
}

/// Fixed-point multiplication: exact product, rescaled, rounded toward zero.
pub fn fmul(a: Fixed, b: Fixed) -> (r: Fixed)
    requires
        iabs(a as int) <= MUL_MAX,
        iabs(b as int) <= MUL_MAX,
    ensures
        r == fx_mul(a as int, b as int),
        iabs(r as int) <= PROD_MAX,
        iabs(r as int) * SCALE <= iabs(a as int) * iabs(b as int),
{
    proof {
        assert(iabs((a as int) * (b as int)) <= MUL_MAX * MUL_MAX
            && iabs((a as int) * (b as int)) == iabs(a as int) * iabs(b as int)
            && MUL_MAX * MUL_MAX < WIDE_MAX) by (nonlinear_arith)
            requires
                -MUL_MAX <= a <= MUL_MAX,
                -MUL_MAX <= b <= MUL_MAX,
        ;
    }
    let p: i128 = a * b;
    let r = div_trunc(p, SCALE);
    proof {
        lemma_div_tz_magnitude(p as int, SCALE as int);
        assert((MUL_MAX * MUL_MAX) / (SCALE as int) == PROD_MAX) by (nonlinear_arith);
        vstd::arithmetic::div_mod::lemma_div_is_ordered(
            iabs(p as int),
            MUL_MAX * MUL_MAX,
            SCALE as int,
        );
    }
    r
}

/// Fixed-point division: exact quotient, rescaled, rounded toward zero.
pub fn fdiv(a: Fixed, b: Fixed) -> (r: Fixed)
    requires
        b != 0,
        iabs(a as int) <= DIV_MAX,
        iabs(b as int) < WIDE_MAX,
    ensures
        r == fx_div(a as int, b as int),
{
    proof {
        assert(DIV_MAX * SCALE < WIDE_MAX && iabs((a as int) * (SCALE as int)) <= DIV_MAX * SCALE)
            by (nonlinear_arith)
            requires
                -DIV_MAX <= a <= DIV_MAX,
        ;
    }
    let p: i128 = a * SCALE;
    div_trunc(p, b)
}

/// The magnitude of a truncating quotient is the quotient of magnitudes.
pub proof fn lemma_div_tz_magnitude(a: int, b: int)
    requires
        b > 0,
    ensures
        iabs(div_tz(a, b)) == iabs(a) / b,
{
    assert(iabs(a) / b >= 0) by (nonlinear_arith)
        requires
            b > 0,
            iabs(a) >= 0,
    ;
}

/// Dividing by a nonzero integer never grows the magnitude.
pub proof fn lemma_div_tz_abs_shrinks(a: int, b: int)
    requires
        b != 0,
    ensures
        iabs(div_tz(a, b)) <= iabs(a),
        a >= 0 && b > 0 ==> div_tz(a, b) == a / b,
{
    assert(iabs(a) / iabs(b) <= iabs(a)) by (nonlinear_arith)
        requires
            iabs(b) >= 1,
            iabs(a) >= 0,
    ;
}

/// Integer square root of a machine word, rounded down.
pub fn isqrt(x: u128) -> (r: u128)
    ensures
        r == sqrt_floor(x as nat),
        r < TWO_POW_64,
{
    let mut lo: u128 = 0;
    let mut hi: u128 = TWO_POW_64;
    proof {
        assert((TWO_POW_64 as int) * (TWO_POW_64 as int) > u128::MAX as int) by (nonlinear_arith);
    }
    while lo + 1 < hi
        invariant
            lo < hi,
            hi <= TWO_POW_64,
            (lo as int) * (lo as int) <= x as int,
            (x as int) < (hi as int) * (hi as int),
        decreases hi - lo,
    {
        let mid: u128 = lo + (hi - lo) / 2;
        assert(mid < TWO_POW_64);
        assert((mid as int) * (mid as int) <= u128::MAX as int) by (nonlinear_arith)
            requires
                mid < TWO_POW_64,
        ;
        let sq: u128 = mid * mid;
        if sq <= x {
            lo = mid;
        } else {
            hi = mid;
        }
    }
    proof {
        lemma_sqrt_floor_unique(lo as nat, x as nat);
    }
    lo
}

/// Two to the sixty-fourth power: one more than the largest possible
/// integer square root of a `u128`.
pub const TWO_POW_64: u128 = 18446744073709551616;

/// Square root of a nonnegative scalar, rounded down in fixed-point units.
pub fn fsqrt(x: Fixed) -> (r: Fixed)
    requires
        0 <= x,
        (x as int) * (SCALE as int) <= u128::MAX as int,
    ensures
        r == fx_sqrt(x as int),
        0 <= r,
        r < WIDE_MAX,
{
    let wide: u128 = (x as u128) * (SCALE as u128);
    let root: u128 = isqrt(wide);
    root as i128
}

} // verus!

use crate::vec::Vec3;

verus! {

/// Relies on `rand::thread_rng` and `rand::Rng::gen_range`: a sample drawn
/// from a non-empty half-open integer range lies in that range (rand panics
/// only on an empty range, which the precondition rules out).
#[verifier::external_body]
fn rand_in_range(lo: i128, hi: i128) -> (r: i128)
    requires
        lo < hi,
    ensures
        lo <= r < hi,
{
    rand::Rng::gen_range(&mut rand::thread_rng(), lo..hi)
}

/// A uniform scalar sample in `[0, 1)`, in fixed-point units.
pub fn random_float() -> (r: Fixed)
    ensures
        0 <= r < SCALE,
{
    rand_in_range(0, SCALE)
}

/// A direction of roughly unit length: rejection-sampled from the cube,
/// normalized; falls back to the `z` axis if every draw lands outside the
/// ball or degenerates.
pub fn random_unit_vector() -> (v: Vec3)
    ensures
        iabs(v.x as int) <= SCALE,
        iabs(v.y as int) <= SCALE,
        iabs(v.z as int) <= SCALE,
{
    let mut tries: u32 = 0;
    while tries < 64
        invariant
            tries <= 64,
        decreases 64 - tries,
    {
        let x: i128 = rand_in_range(-SCALE, SCALE);
        let y: i128 = rand_in_range(-SCALE, SCALE);
        let z: i128 = rand_in_range(-SCALE, SCALE);
        proof {
            assert(0 <= x * x <= SCALE * SCALE && 0 <= y * y <= SCALE * SCALE && 0 <= z * z
                <= SCALE * SCALE) by (nonlinear_arith)
                requires
                    -SCALE <= x <= SCALE,
                    -SCALE <= y <= SCALE,
                    -SCALE <= z <= SCALE,
            ;
        }
        let m2: i128 = x * x + y * y + z * z;
        if 0 < m2 && m2 <= SCALE * SCALE {
            let mag: i128 = isqrt(m2 as u128) as i128;
            proof {
                lemma_sqrt_floor_bounds(m2 as nat);
            }
            if 0 < mag && mag <= SCALE {
                let nx: i128 = fdiv(x, mag);
                let ny: i128 = fdiv(y, mag);
                let nz: i128 = fdiv(z, mag);
                if -SCALE <= nx && nx <= SCALE && -SCALE <= ny && ny <= SCALE && -SCALE <= nz && nz
                    <= SCALE {
                    return Vec3 { x: nx, y: ny, z: nz };
                }
            }
        }
        tries = tries + 1;
    }
    Vec3 { x: 0, y: 0, z: SCALE }
}

/// A point in the lens disk: rejection-sampled from the square; falls back
/// to the center if every draw lands outside.
pub fn random_in_unit_disk() -> (v: Vec3)
    ensures
        iabs(v.x as int) <= SCALE,
        iabs(v.y as int) <= SCALE,
        v.z == 0,
{
    let mut tries: u32 = 0;
    while tries < 64
        invariant
            tries <= 64,
        decreases 64 - tries,
    {
        let x: i128 = rand_in_range(-SCALE, SCALE);
        let y: i128 = rand_in_range(-SCALE, SCALE);
        proof {
            assert(0 <= x * x <= SCALE * SCALE && 0 <= y * y <= SCALE * SCALE) by (nonlinear_arith)
                requires
                    -SCALE <= x <= SCALE,
                    -SCALE <= y <= SCALE,
            ;
        }
        if x * x + y * y < SCALE * SCALE {
            return Vec3 { x, y, z: 0 };
        }
        tries = tries + 1;
    }
    Vec3 { x: 0, y: 0, z: 0 }
}

} // verus!

verus! {

/// Multiplying by a factor of at most one (in fixed-point units) never
/// grows the magnitude.
pub proof fn lemma_fx_mul_mag_le(a: int, b: int)
    requires
        iabs(b) <= SCALE,
    ensures
        iabs(fx_mul(a, b)) <= iabs(a),
{
    lemma_div_tz_magnitude(a * b, SCALE as int);
    assert(iabs(a * b) == iabs(a) * iabs(b) && iabs(a) * iabs(b) <= iabs(a) * SCALE)
        by (nonlinear_arith)
        requires
            iabs(b) <= SCALE,
    ;
    vstd::arithmetic::div_mod::lemma_div_is_ordered(iabs(a * b), iabs(a) * SCALE, SCALE as int);
    vstd::arithmetic::div_mod::lemma_div_by_multiple(iabs(a), SCALE as int);
}

/// A product of two unit-interval scalars stays in the unit interval.
pub proof fn lemma_fx_mul_unit(a: int, b: int)
    requires
        0 <= a <= SCALE,
        0 <= b <= SCALE,
    ensures
        0 <= fx_mul(a, b) <= SCALE,
{
    lemma_fx_mul_mag_le(a, b);
    assert(a * b >= 0) by (nonlinear_arith)
        requires
            a >= 0,
            b >= 0,
    ;
}

/// A truncating quotient by a positive divisor lies between zero and the
/// dividend.
pub proof fn lemma_div_tz_between(a: int, n: int)
    requires
        n >= 1,
    ensures
        a >= 0 ==> 0 <= div_tz(a, n) <= a,
        a <= 0 ==> a <= div_tz(a, n) <= 0,
{
    lemma_div_tz_abs_shrinks(a, n);
}

/// The floor square root is monotone.
pub proof fn lemma_sqrt_floor_monotone(m: nat, n: nat)
    requires
        m <= n,
    ensures
        sqrt_floor(m) <= sqrt_floor(n),
    decreases n,
{
    if m < n {
        lemma_sqrt_floor_monotone(m, (n - 1) as nat);
    }
}

} // verus!

verus! {

/// Relies on std's slice `swap`: the two positions exchange their
/// elements and nothing else moves (std panics only out of bounds, which
/// the precondition rules out).
#[verifier::external_body]
fn vec_swap<T>(v: &mut Vec<T>, a: usize, b: usize)
    requires
        a < old(v)@.len(),
        b < old(v)@.len(),
    ensures
        final(v)@ == old(v)@.update(a as int, old(v)@[b as int]).update(
            b as int,
            old(v)@[a as int],
        ),
{
    v.swap(a, b);
}

/// Reorder `vec` so that position `k` receives the element that sat at
/// position `indices[k]`, following each displacement cycle in place.
/// `indices` must be a permutation of the positions.
/// Value `v` occurs somewhere in `s`.
pub open spec fn appears(s: Seq<usize>, v: int) -> bool {
    exists|k: int| 0 <= k < s.len() && s[k] == v
}

/// The positions of `s` whose entry has not yet settled.
pub open spec fn unsettled(s: Seq<usize>) -> Set<int> {
    Set::new(|k: int| 0 <= k < s.len() && s[k] != k)
}

/// The unsettled set is finite and no larger than the sequence.
proof fn lemma_unsettled_finite(s: Seq<usize>)
    ensures
        unsettled(s).finite(),
        unsettled(s).len() <= s.len(),
{
    let range = vstd::set_lib::set_int_range(0, s.len() as int);
    vstd::set_lib::lemma_int_range(0, s.len() as int);
    assert(unsettled(s).subset_of(range));
    vstd::set_lib::lemma_len_subset(unsettled(s), range);
}

/// Reorder `vec` so that position `k` receives the element that sat at
/// position `indices[k]`.  `indices` must cover every position (with
/// equal lengths that makes it a permutation).  The walk settles one
/// displacement at a time, swapping each element together with the index
/// that records where it belongs.
pub fn sort_by_indices<T>(vec: &mut Vec<T>, indices: Vec<usize>)
    requires
        old(vec)@.len() == indices@.len(),
        forall|k: int| 0 <= k < indices@.len() ==> (#[trigger] indices@[k]) < indices@.len(),
        forall|v: int| 0 <= v < indices@.len() ==> #[trigger] appears(indices@, v),
    ensures
        final(vec)@.len() == old(vec)@.len(),
        forall|k: int|
            0 <= k < old(vec)@.len() ==> #[trigger] final(vec)@[k] == old(vec)@[indices@[k] as int],
{
    let ghost pp = indices@;
    let ghost v0 = old(vec)@;
    let n: usize = vec.len();
    let mut inv: Vec<usize> = Vec::new();
    let mut k: usize = 0;
    while k < n
        invariant
            0 <= k <= n,
            inv@.len() == k,
            forall|p: int| 0 <= p < k ==> (#[trigger] inv@[p]) == 0,
        decreases n - k,
    {
        inv.push(0);
        k = k + 1;
    }
    let mut k: usize = 0;
    while k < n
        invariant
            0 <= k <= n,
            n == pp.len(),
            indices@ == pp,
            inv@.len() == n,
            forall|j: int| 0 <= j < n ==> (#[trigger] pp[j]) < n,
            forall|p: int| 0 <= p < n ==> (#[trigger] inv@[p]) < n,
            forall|j: int|
                0 <= j < k && (forall|j2: int| j < j2 < k ==> pp[j2] != pp[j])
                    ==> inv@[pp[j] as int] == j,
        decreases n - k,
    {
        let target: usize = indices[k];
        inv[target] = k;
        k = k + 1;
    }
    proof {
        lemma_inverse_props(pp, inv@);
    }
    let mut ind: Vec<usize> = inv;
    let mut i: usize = 0;
    while i < n
        invariant
            0 <= i <= n,
            n == pp.len(),
            n == v0.len(),
            ind@.len() == n,
            vec@.len() == n,
            forall|j: int| 0 <= j < n ==> (#[trigger] pp[j]) < n,
            forall|p: int| 0 <= p < n ==> (#[trigger] ind@[p]) < n,
            forall|p1: int, p2: int| 0 <= p1 < p2 < n ==> ind@[p1] != ind@[p2],
            forall|p: int|
                0 <= p < n ==> #[trigger] vec@[p] == v0[pp[ind@[p] as int] as int],
            forall|p: int| 0 <= p < i ==> #[trigger] ind@[p] == p,
        decreases n - i,
    {
        while ind[i] != i
            invariant
                0 <= i < n,
                n == pp.len(),
                n == v0.len(),
                ind@.len() == n,
                vec@.len() == n,
                forall|j: int| 0 <= j < n ==> (#[trigger] pp[j]) < n,
                forall|p: int| 0 <= p < n ==> (#[trigger] ind@[p]) < n,
                forall|p1: int, p2: int| 0 <= p1 < p2 < n ==> ind@[p1] != ind@[p2],
                forall|p: int|
                    0 <= p < n ==> #[trigger] vec@[p] == v0[pp[ind@[p] as int] as int],
                forall|p: int| 0 <= p < i ==> #[trigger] ind@[p] == p,
            decreases unsettled(ind@).len(),
        {
            let ghost before = ind@;
            let j: usize = ind[i];
            vec_swap(vec, i, j);
            vec_swap(&mut ind, i, j);
            proof {
                lemma_unsettled_finite(before);
                lemma_unsettled_finite(ind@);
                assert(before[j as int] != j);
                assert(ind@[j as int] == j);
                assert(unsettled(ind@).subset_of(unsettled(before).remove(j as int)));
                vstd::set_lib::lemma_len_subset(
                    unsettled(ind@),
                    unsettled(before).remove(j as int),
                );
                assert(unsettled(before).remove(j as int).len() < unsettled(before).len());
            }
        }
        i = i + 1;
    }
}

/// A table built by writing `inv[pp[j]] = j` in increasing `j` is a
/// right inverse of a covering `pp`, and therefore injective.
proof fn lemma_inverse_props(pp: Seq<usize>, inv: Seq<usize>)
    requires
        inv.len() == pp.len(),
        forall|j: int| 0 <= j < pp.len() ==> (#[trigger] pp[j]) < pp.len(),
        forall|v: int| 0 <= v < pp.len() ==> #[trigger] appears(pp, v),
        forall|j: int|
            0 <= j < pp.len() && (forall|j2: int| j < j2 < pp.len() ==> pp[j2] != pp[j])
                ==> inv[pp[j] as int] == j,
    ensures
        forall|p: int| 0 <= p < pp.len() ==> pp[#[trigger] inv[p] as int] == p,
        forall|p1: int, p2: int| 0 <= p1 < p2 < pp.len() ==> inv[p1] != inv[p2],
{
    let n = pp.len() as int;
    assert forall|p: int| 0 <= p < n implies pp[#[trigger] inv[p] as int] == p by {
        assert(appears(pp, p));
        let j0 = choose|j: int| 0 <= j < n && pp[j] == p;
        lemma_last_occurrence(pp, p, j0);
        let jl = choose|j: int|
            0 <= j < n && pp[j] == p && (forall|j2: int| j < j2 < n ==> pp[j2] != p);
        assert(forall|j2: int| jl < j2 < n ==> pp[j2] != pp[jl]);
        assert(inv[pp[jl] as int] == jl);
    }
    assert forall|p1: int, p2: int| 0 <= p1 < p2 < n implies inv[p1] != inv[p2] by {
        assert(pp[inv[p1] as int] == p1);
        assert(pp[inv[p2] as int] == p2);
    }
}

/// Every value that occurs in a sequence has a last occurrence.
proof fn lemma_last_occurrence(pp: Seq<usize>, p: int, j0: int)
    requires
        0 <= j0 < pp.len(),
        pp[j0] == p,
    ensures
        exists|j: int|
            0 <= j < pp.len() && pp[j] == p && (forall|j2: int| j < j2 < pp.len() ==> pp[j2] != p),
    decreases pp.len() - j0,
{
    if exists|j2: int| j0 < j2 < pp.len() && pp[j2] == p {
        let j1 = choose|j2: int| j0 < j2 < pp.len() && pp[j2] == p;
        lemma_last_occurrence(pp, p, j1);
    } else {
        assert(0 <= j0 < pp.len() && pp[j0] == p && (forall|j2: int|
            j0 < j2 < pp.len() ==> pp[j2] != p));
    }
}

} // verus!
