//! Shamir secret sharing over GF(256).
//!
//! A secret is split byte by byte: each byte becomes the constant term of
//! a random polynomial of degree `threshold - 1`, and shard `k` carries
//! the polynomial's value at the point `k + 1`. Any `threshold` distinct
//! shards reconstruct the secret by Lagrange interpolation at zero. The
//! field arithmetic itself is the gf256 crate's.

use vstd::prelude::*;

use rand::Rng;

verus! {

/// The product of two elements of GF(256), as the gf256 crate computes
/// it (polynomial multiplication modulo the field's irreducible
/// polynomial).
pub uninterp spec fn gf_mul_of(a: u8, b: u8) -> u8;

/// The quotient of two elements of GF(256), as the gf256 crate computes
/// it; defined only for a non-zero divisor.
pub uninterp spec fn gf_div_of(a: u8, b: u8) -> u8;

/// Relies on gf256's field addition, which its source defines as XOR.
#[verifier::external_body]
fn gf_add(a: u8, b: u8) -> (r: u8)
    ensures
        r == a ^ b,
{
    (gf256::gf256(a) + gf256::gf256(b)).0
}

/// Relies on gf256's field subtraction, which its source defines as XOR.
#[verifier::external_body]
fn gf_sub(a: u8, b: u8) -> (r: u8)
    ensures
        r == a ^ b,
{
    (gf256::gf256(a) - gf256::gf256(b)).0
}

/// Relies on gf256's field multiplication: a deterministic function of
/// its two arguments.
#[verifier::external_body]
fn gf_mul(a: u8, b: u8) -> (r: u8)
    ensures
        r == gf_mul_of(a, b),
{
    (gf256::gf256(a) * gf256::gf256(b)).0
}

/// Relies on gf256's field division: a deterministic function of its two
/// arguments, which panics on a zero divisor — so a zero divisor is ruled
/// out here.
#[verifier::external_body]
fn gf_div(a: u8, b: u8) -> (r: u8)
    requires
        b != 0,
    ensures
        r == gf_div_of(a, b),
{
    (gf256::gf256(a) / gf256::gf256(b)).0
}

/// Relies on rand's `Rng::gen` through `thread_rng`; nothing can be
/// promised of a random byte.
#[verifier::external_body]
fn random_byte() -> u8 {
    rand::thread_rng().gen()
}

/// Two bytes XOR to zero exactly when they are equal.
proof fn lemma_xor_zero(a: u8, b: u8)
    ensures
        (a ^ b == 0) == (a == b),
{
    assert((a ^ b == 0) == (a == b)) by (bit_vector);
}

/// `x` raised to the `n`-th power in GF(256).
pub open spec fn gf_pow(x: u8, n: nat) -> u8
    decreases n,
{
    if n == 0 {
        1u8
    } else {
        gf_mul_of(gf_pow(x, (n - 1) as nat), x)
    }
}

/// The value at `x` of the polynomial formed by the first `j`
/// coefficients of `coeffs` (low degree first), over GF(256).
pub open spec fn poly_eval_prefix(coeffs: Seq<u8>, x: u8, j: int) -> u8
    decreases j,
{
    if j <= 0 {
        0u8
    } else {
        poly_eval_prefix(coeffs, x, j - 1) ^ gf_mul_of(coeffs[j - 1], gf_pow(x, (j - 1) as nat))
    }
}

/// The value at `x` of the polynomial with coefficients `coeffs`.
pub open spec fn poly_eval(coeffs: Seq<u8>, x: u8) -> u8 {
    poly_eval_prefix(coeffs, x, coeffs.len() as int)
}

/// The coefficient rows of a byte matrix.
pub open spec fn byte_rows(s: Seq<Vec<u8>>) -> Seq<Seq<u8>> {
    s.map_values(|row: Vec<u8>| row@)
}

/// A single shard: the evaluation point `x` and one polynomial value per
/// secret byte.
#[derive(Debug, Clone, PartialEq, Eq)]
pub struct Shard {
    pub x: u8,
    pub y: Vec<u8>,
}

/// The plain values of a sequence of shards.
pub open spec fn shard_views(s: Seq<Shard>) -> Seq<(u8, Seq<u8>)> {
    s.map_values(|sh: Shard| (sh.x, sh.y@))
}

/// The Lagrange basis factor of shard `j`, accumulated over the first
/// `m` shards: for each other shard with a distinct point, the factor
/// `x_m / (x_j + x_m)` (interpolation at zero; addition is XOR). Shards
/// sharing shard `j`'s point are skipped.
pub open spec fn basis_prefix(s: Seq<(u8, Seq<u8>)>, j: int, m: int) -> u8
    decreases m,
{
    if m <= 0 {
        1u8
    } else {
        let b = basis_prefix(s, j, m - 1);
        if s[m - 1].0 == s[j].0 {
            b
        } else {
            gf_mul_of(b, gf_div_of(s[m - 1].0, s[j].0 ^ s[m - 1].0))
        }
    }
}

/// Byte `i` of the reconstruction, accumulated over the first `m`
/// shards: the XOR of every shard's byte weighted by its full Lagrange
/// basis factor.
pub open spec fn recon_byte_prefix(s: Seq<(u8, Seq<u8>)>, i: int, m: int) -> u8
    decreases m,
{
    if m <= 0 {
        0u8
    } else {
        recon_byte_prefix(s, i, m - 1) ^ gf_mul_of(s[m - 1].1[i], basis_prefix(s, m - 1, s.len() as int))
    }
}

/// Byte `i` of the secret reconstructed from the shards `s`.
pub open spec fn recon_byte(s: Seq<(u8, Seq<u8>)>, i: int) -> u8 {
    recon_byte_prefix(s, i, s.len() as int)
}

/// Splits and reconstructs secrets; all state lives in the shards.
pub struct ShardingManager;

impl ShardingManager {
    /// Splits `secret` into `total` shards of which any `threshold`
    /// reconstruct it. Shard `k` carries the point `k + 1` and, for each
    /// secret byte, the value at that point of a random polynomial of
    /// `threshold` coefficients whose constant term is the secret byte.
    pub fn split(secret: &[u8], threshold: usize, total: usize) -> (shards: Vec<Shard>)
        requires
            0 < threshold <= total,
        ensures
            shards@.len() == total,
            forall|k: int|
                0 <= k < total ==> (#[trigger] shards@[k]).x == ((k + 1) as u8)
                    && shards@[k].y@.len() == secret@.len(),
            exists|coeffs: Seq<Seq<u8>>|
                #![trigger coeffs.len()]
                {
                    &&& coeffs.len() == secret@.len()
                    &&& (forall|i: int|
                        0 <= i < coeffs.len() ==> (#[trigger] coeffs[i]).len() == threshold
                            && coeffs[i][0] == secret@[i])
                    &&& (forall|i: int, k: int|
                        0 <= i < secret@.len() && 0 <= k < total
                            ==> (#[trigger] shards@[k].y@[i]) == poly_eval(
                            coeffs[i],
                            ((k + 1) as u8),
                        ))
                },
    {
        let n = secret.len();
        let mut polys: Vec<Vec<u8>> = Vec::new();
        let mut i: usize = 0;
        while i < n
            invariant
                0 < threshold,
                i <= n,
                n == secret@.len(),
                polys@.len() == i,
                forall|t: int|
                    0 <= t < i ==> (#[trigger] polys@[t])@.len() == threshold && polys@[t]@[0]
                        == secret@[t],
            decreases n - i,
        {
            let mut poly: Vec<u8> = Vec::new();
            poly.push(secret[i]);
            while poly.len() < threshold
                invariant
                    1 <= poly@.len() <= threshold,
                    poly@[0] == secret@[i as int],
                    i < n,
                    n == secret@.len(),
                decreases threshold - poly@.len(),
            {
                poly.push(random_byte());
            }
            polys.push(poly);
            i = i + 1;
        }

        let mut shards: Vec<Shard> = Vec::new();
        let mut k: usize = 0;
        while k < total
            invariant
                k <= total,
                n == secret@.len(),
                polys@.len() == n,
                threshold <= total,
                forall|t: int|
                    0 <= t < n ==> (#[trigger] polys@[t])@.len() == threshold && polys@[t]@[0]
                        == secret@[t],
                shards@.len() == k,
                forall|t: int|
                    0 <= t < k ==> (#[trigger] shards@[t]).x == ((t + 1) as u8)
                        && shards@[t].y@.len() == n,
                forall|t: int, u: int|
                    0 <= t < n && 0 <= u < k ==> (#[trigger] shards@[u].y@[t]) == poly_eval(
                        polys@[t]@,
                        ((u + 1) as u8),
                    ),
            decreases total - k,
        {
            let xv: u8 = ((k + 1) as u8);
            let mut y: Vec<u8> = Vec::new();
            let mut t: usize = 0;
            while t < n
                invariant
                    t <= n,
                    n == secret@.len(),
                    polys@.len() == n,
                    forall|u: int|
                        0 <= u < n ==> (#[trigger] polys@[u])@.len() == threshold && polys@[u]@[0]
                            == secret@[u],
                    y@.len() == t,
                    forall|u: int|
                        0 <= u < t ==> (#[trigger] y@[u]) == poly_eval(polys@[u]@, xv),
                decreases n - t,
            {
                let poly = &polys[t];
                let m = poly.len();
                let mut val: u8 = 0;
                let mut x_pow: u8 = 1;
                let mut j: usize = 0;
                while j < m
                    invariant
                        j <= m,
                        m == poly@.len(),
                        val == poly_eval_prefix(poly@, xv, j as int),
                        x_pow == gf_pow(xv, j as nat),
                    decreases m - j,
                {
                    let term = gf_mul(poly[j], x_pow);
                    val = gf_add(val, term);
                    x_pow = gf_mul(x_pow, xv);
                    j = j + 1;
                }
                proof {
                    assert(val == poly_eval(poly@, xv));
                }
                y.push(val);
                t = t + 1;
            }
            shards.push(Shard { x: xv, y });
            k = k + 1;
        }
        proof {
            let coeffs = byte_rows(polys@);
            assert(coeffs.len() == secret@.len());
            assert forall|i2: int|
                0 <= i2 < coeffs.len() implies (#[trigger] coeffs[i2]).len() == threshold
                && coeffs[i2][0] == secret@[i2] by {
                assert(coeffs[i2] == polys@[i2]@);
            }
            assert forall|i2: int, k2: int|
                0 <= i2 < secret@.len() && 0 <= k2 < total implies (#[trigger]
            shards@[k2].y@[i2]) == poly_eval(coeffs[i2], ((k2 + 1) as u8)) by {
                assert(coeffs[i2] == polys@[i2]@);
            }
        }
        shards
    }

    /// Reconstructs the secret from the shards by Lagrange interpolation
    /// at zero, byte by byte. Pairs of shards carrying the same point are
    /// skipped within each other's basis factor, as duplicates cannot be
    /// interpolated.
    pub fn reconstruct(shards: &[Shard]) -> (secret: Vec<u8>)
        requires
            shards@.len() > 0,
            forall|j: int|
                0 <= j < shards@.len() ==> (#[trigger] shards@[j]).y@.len()
                    == shards@[0].y@.len(),
        ensures
            secret@.len() == shards@[0].y@.len(),
            forall|i: int|
                0 <= i < secret@.len() ==> (#[trigger] secret@[i]) == recon_byte(
                    shard_views(shards@),
                    i,
                ),
    {
        let ghost sv = shard_views(shards@);
        let len = shards[0].y.len();
        let count = shards.len();
        proof {
            assert(sv.len() == shards@.len());
            assert forall|j: int| 0 <= j < sv.len() implies (#[trigger] sv[j]) == (
            shards@[j].x,
            shards@[j].y@,
            ) by {}
        }
        let mut secret: Vec<u8> = Vec::new();
        let mut i: usize = 0;
        while i < len
            invariant
                i <= len,
                count == shards@.len(),
                sv == shard_views(shards@),
                sv.len() == count,
                len == shards@[0].y@.len(),
                forall|j: int|
                    0 <= j < shards@.len() ==> (#[trigger] shards@[j]).y@.len() == len,
                forall|j: int| 0 <= j < sv.len() ==> (#[trigger] sv[j]).1.len() == len,
                secret@.len() == i,
                forall|t: int| 0 <= t < i ==> (#[trigger] secret@[t]) == recon_byte(sv, t),
            decreases len - i,
        {
            let mut val: u8 = 0;
            let mut j: usize = 0;
            while j < count
                invariant
                    j <= count,
                    i < len,
                    count == shards@.len(),
                    sv == shard_views(shards@),
                    sv.len() == count,
                    forall|u: int| 0 <= u < sv.len() ==> (#[trigger] sv[u]).1.len() == len,
                    val == recon_byte_prefix(sv, i as int, j as int),
                decreases count - j,
            {
                proof {
                    assert(sv[j as int] == (shards@[j as int].x, shards@[j as int].y@));
                    assert(shards@[j as int].y@.len() == sv[j as int].1.len());
                }
                let xj = shards[j].x;
                let yj = shards[j].y[i];
                let mut li: u8 = 1;
                let mut m: usize = 0;
                while m < count
                    invariant
                        m <= count,
                        j < count,
                        count == shards@.len(),
                        sv == shard_views(shards@),
                        sv.len() == count,
                        xj == sv[j as int].0,
                        li == basis_prefix(sv, j as int, m as int),
                    decreases count - m,
                {
                    let xm = shards[m].x;
                    proof {
                        assert(sv[m as int] == (shards@[m as int].x, shards@[m as int].y@));
                    }
                    if xj != xm {
                        proof {
                            lemma_xor_zero(xj, xm);
                            assert(0u8 ^ xm == xm) by (bit_vector);
                        }
                        let num = gf_sub(0, xm);
                        let den = gf_sub(xj, xm);
                        let term = gf_div(num, den);
                        li = gf_mul(li, term);
                    }
                    m = m + 1;
                }
                let weighted = gf_mul(yj, li);
                val = gf_add(val, weighted);
                proof {
                    assert(yj == sv[j as int].1[i as int]);
                }
                j = j + 1;
            }
            secret.push(val);
            i = i + 1;
        }
        secret
    }
}

} // verus!
