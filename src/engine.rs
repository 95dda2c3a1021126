//! The pairing engine that the verification of a contribution relies on.
use vstd::prelude::*;
use vstd::arithmetic::div_mod::{lemma_mod_twice, lemma_mul_mod_noop_general, lemma_small_mod};
use crate::group::{
    all_one_g1, all_one_g2, g1_generator, g1_identity, g2_generator, g2_identity, same_bytes, Powers, G1,
    G2,
};
use crate::transcript::{verify_result, CeremonyError, Contribution};

verus! {

/// Point validation and pairing-equality checks over the two source groups.
///
/// The verification of a contribution depends on these checks only, never on
/// a particular curve.
pub trait Engine {
    /// The point is well encoded and lies in the prime-order subgroup.
    spec fn g1_valid(p: G1) -> bool;

    /// The point is well encoded and lies in the prime-order subgroup.
    spec fn g2_valid(p: G2) -> bool;

    /// `new_g1` is `prev_g1` scaled by the secret that `pubkey` commits to.
    spec fn pubkey_holds(new_g1: G1, prev_g1: G1, pubkey: G2) -> bool;

    /// Each point of `g1` is the one before it scaled by the secret of `tau`.
    spec fn g1_chain_holds(g1: Seq<G1>, tau: G2) -> bool;

    /// `g1` and `g2` are powers of one and the same secret.
    spec fn cross_holds(g1: Seq<G1>, g2: Seq<G2>) -> bool;

    /// The identity is a valid point, so that a zero public key is told
    /// apart from a malformed one.
    proof fn lemma_identity_valid(p: G2)
        requires
            p.bytes@ == g2_identity(),
        ensures
            Self::g2_valid(p),
    ;

    fn validate_g1(points: &Vec<G1>) -> (r: bool)
        ensures
            r == (forall|i: int| 0 <= i < points@.len() ==> Self::g1_valid(#[trigger] points@[i])),
    ;

    fn validate_g2(points: &Vec<G2>) -> (r: bool)
        ensures
            r == (forall|i: int| 0 <= i < points@.len() ==> Self::g2_valid(#[trigger] points@[i])),
    ;

    fn validate_pubkey(p: G2) -> (r: bool)
        ensures
            r == Self::g2_valid(p),
    ;

    fn verify_pubkey(new_g1: G1, prev_g1: G1, pubkey: G2) -> (r: bool)
        ensures
            r == Self::pubkey_holds(new_g1, prev_g1, pubkey),
    ;

    fn verify_g1(g1: &Vec<G1>, tau: G2) -> (r: bool)
        ensures
            r == Self::g1_chain_holds(g1@, tau),
    ;

    fn verify_g2(g1: &Vec<G1>, g2: &Vec<G2>) -> (r: bool)
        requires
            g1@.len() == g2@.len(),
        ensures
            r == Self::cross_holds(g1@, g2@),
    ;
}

/// Order of the group in which [`ExponentEngine`] works, the prime 2^61 - 1.
pub const ORDER: u64 = 2305843009213693951;

/// The product of two exponents in the group of order [`ORDER`].
pub open spec fn exp_mul(a: int, b: int) -> int {
    (a * b) % (ORDER as int)
}

/// `a * b` reduced modulo [`ORDER`].
pub fn mul_mod(a: u64, b: u64) -> (r: u64)
    ensures
        r as int == exp_mul(a as int, b as int),
        r < ORDER,
{
    let x: u128 = a as u128;
    let y: u128 = b as u128;
    assert(x * y <= 0xffff_ffff_ffff_ffffu128 * 0xffff_ffff_ffff_ffffu128) by (nonlinear_arith)
        requires
            x <= 0xffff_ffff_ffff_ffffu128,
            y <= 0xffff_ffff_ffff_ffffu128,
    ;
    let m: u128 = (x * y) % (ORDER as u128);
    m as u64
}

/// A transparent engine that reads each point as its discrete logarithm:
/// the generator is 1, the identity is 0, and any other exponent `k` is
/// written as [`EXP_TAG`], zeros, and the eight big-endian bytes of `k`. The
/// pairing of exponents `a` and `b` is `a * b` modulo [`ORDER`].
///
/// It keeps every algebraic relation the checks test and no secret at all:
/// it serves to exercise the protocol, never to run a ceremony.
pub struct ExponentEngine;

/// Leading byte of a point that [`ExponentEngine`] writes by its exponent.
pub const EXP_TAG: u8 = 0xa0;

/// The big-endian value of the eight bytes of `s` from `off`.
pub open spec fn be8(s: Seq<u8>, off: int) -> int {
    s[off] * 72057594037927936 + s[off + 1] * 281474976710656 + s[off + 2] * 1099511627776 + s[off
        + 3] * 4294967296 + s[off + 4] * 16777216 + s[off + 5] * 65536 + s[off + 6] * 256 + s[off + 7]
}

/// The exponent that the bytes `s` stand for, where `gen` and `id` are the
/// group's generator and identity, or -1 where they stand for none.
pub open spec fn exp_of(s: Seq<u8>, gen: Seq<u8>, id: Seq<u8>) -> int {
    if s == gen {
        1
    } else if s == id {
        0
    } else if s.len() >= 9 && s[0] == EXP_TAG && 2 <= be8(s, s.len() - 8) < ORDER {
        be8(s, s.len() - 8)
    } else {
        -1
    }
}

/// The exponent of a point of the first group, or -1.
pub open spec fn g1_exp(p: G1) -> int {
    exp_of(p.bytes@, g1_generator(), g1_identity())
}

/// The exponent of a point of the second group, or -1.
pub open spec fn g2_exp(p: G2) -> int {
    exp_of(p.bytes@, g2_generator(), g2_identity())
}

fn exponent_of<const N: usize>(b: &[u8; N], gen: &[u8; N], id: &[u8; N]) -> (r: Option<u64>)
    requires
        N >= 9,
    ensures
        r is None <==> exp_of(b@, gen@, id@) < 0,
        r matches Some(e) ==> e as int == exp_of(b@, gen@, id@) && e < ORDER,
{
    if same_bytes(b, gen) {
        return Some(1);
    }
    if same_bytes(b, id) {
        return Some(0);
    }
    if b[0] != EXP_TAG {
        return None;
    }
    let o: usize = N - 8;
    let t: u128 = (b[o] as u128) * 72057594037927936 + (b[o + 1] as u128) * 281474976710656
        + (b[o + 2] as u128) * 1099511627776 + (b[o + 3] as u128) * 4294967296 + (b[o + 4] as u128)
        * 16777216 + (b[o + 5] as u128) * 65536 + (b[o + 6] as u128) * 256 + (b[o + 7] as u128);
    assert(t as int == be8(b@, N - 8));
    if 2 <= t && t < ORDER as u128 {
        Some(t as u64)
    } else {
        None
    }
}

/// The eight big-endian bytes of `e`.
fn be_bytes(e: u64) -> (r: [u8; 8])
    ensures
        be8(r@, 0) == e,
{
    let d7 = (e % 256) as u8;
    let q1 = e / 256;
    let d6 = (q1 % 256) as u8;
    let q2 = q1 / 256;
    let d5 = (q2 % 256) as u8;
    let q3 = q2 / 256;
    let d4 = (q3 % 256) as u8;
    let q4 = q3 / 256;
    let d3 = (q4 % 256) as u8;
    let q5 = q4 / 256;
    let d2 = (q5 % 256) as u8;
    let q6 = q5 / 256;
    let d1 = (q6 % 256) as u8;
    let q7 = q6 / 256;
    let d0 = (q7 % 256) as u8;
    assert(q7 < 256);
    let r = [d0, d1, d2, d3, d4, d5, d6, d7];
    assert(r@[0] == d0 && r@[1] == d1 && r@[2] == d2 && r@[3] == d3 && r@[4] == d4 && r@[5] == d5
        && r@[6] == d6 && r@[7] == d7);
    r
}

proof fn lemma_distinct_encodings()
    ensures
        g1_generator() != g1_identity(),
        g2_generator() != g2_identity(),
        g1_generator()[0] != EXP_TAG,
        g1_identity()[0] != EXP_TAG,
        g2_generator()[0] != EXP_TAG,
        g2_identity()[0] != EXP_TAG,
        g1_generator().len() == 48,
        g1_identity().len() == 48,
        g2_generator().len() == 96,
        g2_identity().len() == 96,
{
    assert(g1_generator()[0] != g1_identity()[0]);
    assert(g2_generator()[0] != g2_identity()[0]);
}

/// The point of the first group with exponent `e`.
pub fn g1_of_exp(e: u64) -> (r: G1)
    requires
        e < ORDER,
    ensures
        g1_exp(r) == e,
{
    proof {
        lemma_distinct_encodings();
    }
    if e == 0 {
        return G1::zero();
    }
    if e == 1 {
        return G1::one();
    }
    let d = be_bytes(e);
    let r = G1 {
        bytes: [EXP_TAG, 0u8, 0u8, 0u8, 0u8, 0u8, 0u8, 0u8, 0u8, 0u8, 0u8, 0u8, 0u8, 0u8, 0u8, 0u8, 0u8, 0u8, 0u8, 0u8, 0u8, 0u8, 0u8, 0u8, 0u8, 0u8, 0u8, 0u8, 0u8, 0u8, 0u8, 0u8, 0u8, 0u8, 0u8, 0u8, 0u8, 0u8, 0u8, 0u8, d[0], d[1], d[2], d[3], d[4], d[5], d[6], d[7]],
    };
    assert(r.bytes@[0] == EXP_TAG);
    assert(r.bytes@[0] != g1_generator()[0]);
    assert(r.bytes@[0] != g1_identity()[0]);
    assert(r.bytes@[40] == d@[0] && r.bytes@[41] == d@[1] && r.bytes@[42] == d@[2] && r.bytes@[43]
        == d@[3] && r.bytes@[44] == d@[4] && r.bytes@[45] == d@[5] && r.bytes@[46] == d@[6]
        && r.bytes@[47] == d@[7]);
    assert(be8(r.bytes@, 40) == be8(d@, 0));
    r
}

/// The point of the second group with exponent `e`.
pub fn g2_of_exp(e: u64) -> (r: G2)
    requires
        e < ORDER,
    ensures
        g2_exp(r) == e,
{
    proof {
        lemma_distinct_encodings();
    }
    if e == 0 {
        return G2::zero();
    }
    if e == 1 {
        return G2::one();
    }
    let d = be_bytes(e);
    let r = G2 {
        bytes: [EXP_TAG, 0u8, 0u8, 0u8, 0u8, 0u8, 0u8, 0u8, 0u8, 0u8, 0u8, 0u8, 0u8, 0u8, 0u8, 0u8, 0u8, 0u8, 0u8, 0u8, 0u8, 0u8, 0u8, 0u8, 0u8, 0u8, 0u8, 0u8, 0u8, 0u8, 0u8, 0u8, 0u8, 0u8, 0u8, 0u8, 0u8, 0u8, 0u8, 0u8, 0u8, 0u8, 0u8, 0u8, 0u8, 0u8, 0u8, 0u8, 0u8, 0u8, 0u8, 0u8, 0u8, 0u8, 0u8, 0u8, 0u8, 0u8, 0u8, 0u8, 0u8, 0u8, 0u8, 0u8, 0u8, 0u8, 0u8, 0u8, 0u8, 0u8, 0u8, 0u8, 0u8, 0u8, 0u8, 0u8, 0u8, 0u8, 0u8, 0u8, 0u8, 0u8, 0u8, 0u8, 0u8, 0u8, 0u8, 0u8, d[0], d[1], d[2], d[3], d[4], d[5], d[6], d[7]],
    };
    assert(r.bytes@[0] == EXP_TAG);
    assert(r.bytes@[0] != g2_generator()[0]);
    assert(r.bytes@[0] != g2_identity()[0]);
    assert(r.bytes@[88] == d@[0] && r.bytes@[89] == d@[1] && r.bytes@[90] == d@[2] && r.bytes@[91]
        == d@[3] && r.bytes@[92] == d@[4] && r.bytes@[93] == d@[5] && r.bytes@[94] == d@[6]
        && r.bytes@[95] == d@[7]);
    assert(be8(r.bytes@, 88) == be8(d@, 0));
    r
}

/// The exponent of a point of the first group, if it stands for one.
pub fn g1_exponent(p: &G1) -> (r: Option<u64>)
    ensures
        r is None <==> g1_exp(*p) < 0,
        r matches Some(e) ==> e as int == g1_exp(*p) && e < ORDER,
{
    let gen = G1::one();
    let id = G1::zero();
    proof {
        assert(gen.bytes@ == g1_generator());
    }
    exponent_of(&p.bytes, &gen.bytes, &id.bytes)
}

/// The exponent of a point of the second group, if it stands for one.
pub fn g2_exponent(p: &G2) -> (r: Option<u64>)
    ensures
        r is None <==> g2_exp(*p) < 0,
        r matches Some(e) ==> e as int == g2_exp(*p) && e < ORDER,
{
    let gen = G2::one();
    let id = G2::zero();
    exponent_of(&p.bytes, &gen.bytes, &id.bytes)
}

/// Every point of `s` stands for an exponent.
pub open spec fn all_valid_g1(s: Seq<G1>) -> bool {
    forall|i: int| 0 <= i < s.len() ==> g1_exp(#[trigger] s[i]) >= 0
}

/// Every point of `s` stands for an exponent.
pub open spec fn all_valid_g2(s: Seq<G2>) -> bool {
    forall|i: int| 0 <= i < s.len() ==> g2_exp(#[trigger] s[i]) >= 0
}

/// The points are valid, and each g1 exponent is the one before it times
/// the exponent of `tau`.
pub open spec fn exp_g1_chain(g1: Seq<G1>, tau: G2) -> bool {
    &&& g2_exp(tau) >= 0
    &&& all_valid_g1(g1)
    &&& forall|i: int|
        0 < i < g1.len() ==> exp_mul(g1_exp(#[trigger] g1[i]), 1) == exp_mul(
            g1_exp(g1[i - 1]),
            g2_exp(tau),
        )
}

/// The points are valid, and where both exist the g1 and g2 points have the
/// same exponent.
pub open spec fn exp_cross(g1: Seq<G1>, g2: Seq<G2>) -> bool {
    &&& all_valid_g1(g1)
    &&& all_valid_g2(g2)
    &&& forall|i: int|
        0 <= i < g1.len() && i < g2.len() ==> exp_mul(g1_exp(#[trigger] g1[i]), 1) == exp_mul(
            1,
            g2_exp(g2[i]),
        )
}

impl Engine for ExponentEngine {
    open spec fn g1_valid(p: G1) -> bool {
        g1_exp(p) >= 0
    }

    open spec fn g2_valid(p: G2) -> bool {
        g2_exp(p) >= 0
    }

    open spec fn pubkey_holds(new_g1: G1, prev_g1: G1, pubkey: G2) -> bool {
        &&& g1_exp(new_g1) >= 0
        &&& g1_exp(prev_g1) >= 0
        &&& g2_exp(pubkey) >= 0
        &&& exp_mul(g1_exp(new_g1), 1) == exp_mul(g1_exp(prev_g1), g2_exp(pubkey))
    }

    open spec fn g1_chain_holds(g1: Seq<G1>, tau: G2) -> bool {
        exp_g1_chain(g1, tau)
    }

    open spec fn cross_holds(g1: Seq<G1>, g2: Seq<G2>) -> bool {
        exp_cross(g1, g2)
    }

    proof fn lemma_identity_valid(p: G2) {
        lemma_distinct_encodings();
    }

    fn validate_g1(points: &Vec<G1>) -> (r: bool) {
        let mut i: usize = 0;
        while i < points.len()
            invariant
                i <= points@.len(),
                forall|j: int| 0 <= j < i ==> g1_exp(#[trigger] points@[j]) >= 0,
            decreases points@.len() - i,
        {
            if g1_exponent(&points[i]).is_none() {
                return false;
            }
            i = i + 1;
        }
        true
    }

    fn validate_g2(points: &Vec<G2>) -> (r: bool) {
        let mut i: usize = 0;
        while i < points.len()
            invariant
                i <= points@.len(),
                forall|j: int| 0 <= j < i ==> g2_exp(#[trigger] points@[j]) >= 0,
            decreases points@.len() - i,
        {
            if g2_exponent(&points[i]).is_none() {
                return false;
            }
            i = i + 1;
        }
        true
    }

    fn validate_pubkey(p: G2) -> (r: bool) {
        g2_exponent(&p).is_some()
    }

    fn verify_pubkey(new_g1: G1, prev_g1: G1, pubkey: G2) -> (r: bool) {
        match (g1_exponent(&new_g1), g1_exponent(&prev_g1), g2_exponent(&pubkey)) {
            (Some(a), Some(b), Some(k)) => mul_mod(a, 1) == mul_mod(b, k),
            _ => false,
        }
    }

    fn verify_g1(g1: &Vec<G1>, tau: G2) -> (r: bool) {
        let t = match g2_exponent(&tau) {
            Some(t) => t,
            None => return false,
        };
        if !Self::validate_g1(g1) {
            return false;
        }
        let mut i: usize = 1;
        while i < g1.len()
            invariant
                1 <= i,
                i <= g1@.len() || g1@.len() == 0,
                t as int == g2_exp(tau),
                all_valid_g1(g1@),
                forall|j: int|
                    0 < j < i && j < g1@.len() ==> exp_mul(g1_exp(#[trigger] g1@[j]), 1) == exp_mul(
                        g1_exp(g1@[j - 1]),
                        g2_exp(tau),
                    ),
            decreases g1@.len() - i,
        {
            let a = match g1_exponent(&g1[i]) {
                Some(a) => a,
                None => return false,
            };
            let b = match g1_exponent(&g1[i - 1]) {
                Some(b) => b,
                None => return false,
            };
            if mul_mod(a, 1) != mul_mod(b, t) {
                return false;
            }
            i = i + 1;
        }
        true
    }

    fn verify_g2(g1: &Vec<G1>, g2: &Vec<G2>) -> (r: bool) {
        if !Self::validate_g1(g1) || !Self::validate_g2(g2) {
            return false;
        }
        let mut i: usize = 0;
        while i < g1.len()
            invariant
                g1@.len() == g2@.len(),
                i <= g1@.len(),
                all_valid_g1(g1@),
                all_valid_g2(g2@),
                forall|j: int|
                    0 <= j < i ==> exp_mul(g1_exp(#[trigger] g1@[j]), 1) == exp_mul(
                        1,
                        g2_exp(g2@[j]),
                    ),
            decreases g1@.len() - i,
        {
            let a = match g1_exponent(&g1[i]) {
                Some(a) => a,
                None => return false,
            };
            let b = match g2_exponent(&g2[i]) {
                Some(b) => b,
                None => return false,
            };
            if mul_mod(a, 1) != mul_mod(1, b) {
                return false;
            }
            i = i + 1;
        }
        true
    }
}

/// `t` to the power `i` in the group of exponents.
pub open spec fn exp_pow(t: int, i: nat) -> int
    decreases i,
{
    if i == 0 {
        1
    } else {
        exp_mul(exp_pow(t, (i - 1) as nat), t)
    }
}

/// Powers as the exponent engine accepts them: valid points, the g1 points a
/// progression under `g2[1]`, and the g1 and g2 points in agreement.
pub open spec fn exp_consistent(p: Powers) -> bool {
    &&& p.g1@.len() >= p.g2@.len()
    &&& p.g2@.len() >= 2
    &&& exp_g1_chain(p.g1@, p.g2@[1])
    &&& exp_cross(p.g1@.subrange(0, p.g2@.len() as int), p.g2@)
}

/// `c` is `prior` with the secret multiplied by `tau`: the i-th power of
/// each group is scaled by `tau^i`, and the public key is `G2 * tau`.
pub open spec fn scaled_by(prior: Powers, c: Contribution, tau: u64) -> bool {
    &&& c.powers.g1@.len() == prior.g1@.len()
    &&& c.powers.g2@.len() == prior.g2@.len()
    &&& forall|i: int|
        0 <= i < prior.g1@.len() ==> g1_exp(#[trigger] c.powers.g1@[i]) == exp_mul(
            g1_exp(prior.g1@[i]),
            exp_pow(tau as int, i as nat),
        )
    &&& forall|i: int|
        0 <= i < prior.g2@.len() ==> g2_exp(#[trigger] c.powers.g2@[i]) == exp_mul(
            g2_exp(prior.g2@[i]),
            exp_pow(tau as int, i as nat),
        )
    &&& g2_exp(c.pot_pubkey) == tau
}

impl ExponentEngine {
    /// Adds the secret `tau` to the contribution: the exponent of the i-th
    /// power of each group is multiplied by `tau^i`, and the public key
    /// becomes `G2 * tau`.
    pub fn add_tau(contribution: &mut Contribution, tau: u64)
        requires
            0 < tau < ORDER,
            all_valid_g1(old(contribution).powers.g1@),
            all_valid_g2(old(contribution).powers.g2@),
        ensures
            scaled_by(old(contribution).powers, *final(contribution), tau),
            final(contribution).bls_signature == old(contribution).bls_signature,
    {
        let ghost prior = contribution.powers;
        let n1 = contribution.powers.g1.len();
        let mut g1: Vec<G1> = Vec::with_capacity(n1);
        let mut w: u64 = 1;
        let mut i: usize = 0;
        while i < n1
            invariant
                contribution.powers == prior,
                all_valid_g1(prior.g1@),
                n1 == prior.g1@.len(),
                i <= n1,
                g1@.len() == i,
                w as int == exp_pow(tau as int, i as nat),
                w < ORDER,
                forall|j: int|
                    0 <= j < i ==> g1_exp(#[trigger] g1@[j]) == exp_mul(
                        g1_exp(prior.g1@[j]),
                        exp_pow(tau as int, j as nat),
                    ),
            decreases n1 - i,
        {
            let a = match g1_exponent(&contribution.powers.g1[i]) {
                Some(a) => a,
                None => 0,
            };
            g1.push(g1_of_exp(mul_mod(a, w)));
            w = mul_mod(w, tau);
            i = i + 1;
        }
        let n2 = contribution.powers.g2.len();
        let mut g2: Vec<G2> = Vec::with_capacity(n2);
        let mut w: u64 = 1;
        let mut i: usize = 0;
        while i < n2
            invariant
                contribution.powers == prior,
                all_valid_g2(prior.g2@),
                n2 == prior.g2@.len(),
                i <= n2,
                g2@.len() == i,
                w as int == exp_pow(tau as int, i as nat),
                w < ORDER,
                forall|j: int|
                    0 <= j < i ==> g2_exp(#[trigger] g2@[j]) == exp_mul(
                        g2_exp(prior.g2@[j]),
                        exp_pow(tau as int, j as nat),
                    ),
            decreases n2 - i,
        {
            let a = match g2_exponent(&contribution.powers.g2[i]) {
                Some(a) => a,
                None => 0,
            };
            g2.push(g2_of_exp(mul_mod(a, w)));
            w = mul_mod(w, tau);
            i = i + 1;
        }
        contribution.powers.g1 = g1;
        contribution.powers.g2 = g2;
        contribution.pot_pubkey = g2_of_exp(tau);
    }
}

proof fn lemma_cong_mul(a: int, b: int, c: int, d: int)
    requires
        a % (ORDER as int) == c % (ORDER as int),
        b % (ORDER as int) == d % (ORDER as int),
    ensures
        exp_mul(a, b) == exp_mul(c, d),
{
    lemma_mul_mod_noop_general(a, b, ORDER as int);
    lemma_mul_mod_noop_general(c, d, ORDER as int);
}

proof fn lemma_reduced(x: int)
    requires
        0 <= x < ORDER,
    ensures
        x % (ORDER as int) == x,
        exp_mul(x, 1) == x,
        exp_mul(1, x) == x,
{
    lemma_small_mod(x as nat, ORDER as nat);
}

proof fn lemma_exp_mul_range(a: int, b: int)
    ensures
        0 <= exp_mul(a, b) < ORDER,
{
}

/// A contribution that honestly multiplies the secret of consistent powers
/// by a non-zero `tau` is accepted against those powers.
pub proof fn lemma_honest_contribution_accepted(prior: Powers, c: Contribution, tau: u64)
    requires
        exp_consistent(prior),
        0 < tau < ORDER,
        scaled_by(prior, c, tau),
    ensures
        verify_result::<ExponentEngine>(prior, c) == Ok::<(), CeremonyError>(()),
        exp_consistent(c.powers),
{
    lemma_distinct_encodings();
    let m = ORDER as int;
    let g1 = c.powers.g1@;
    let g2 = c.powers.g2@;
    let t = tau as int;
    assert forall|i: int| 0 <= i < g1.len() implies g1_exp(#[trigger] g1[i]) >= 0 by {
        lemma_exp_mul_range(g1_exp(prior.g1@[i]), exp_pow(t, i as nat));
    }
    assert forall|i: int| 0 <= i < g2.len() implies g2_exp(#[trigger] g2[i]) >= 0 by {
        lemma_exp_mul_range(g2_exp(prior.g2@[i]), exp_pow(t, i as nat));
    }
    // The public key is not the identity, whose exponent is 0.
    assert(c.pot_pubkey.bytes@ != g2_identity());
    // The first power of the secret is tau itself.
    assert(exp_pow(t, 1) == exp_mul(1, t));
    lemma_reduced(t);
    assert(exp_pow(t, 1) == t);
    // Public key check.
    assert(g1_exp(prior.g1@[1]) >= 0);
    lemma_reduced(g1_exp(g1[1]));
    lemma_reduced(g1_exp(prior.g1@[1]));
    assert(ExponentEngine::pubkey_holds(g1[1], prior.g1@[1], c.pot_pubkey));
    // Chain check.
    assert forall|i: int| 0 < i < g1.len() implies exp_mul(g1_exp(#[trigger] g1[i]), 1) == exp_mul(
        g1_exp(g1[i - 1]),
        g2_exp(g2[1]),
    ) by {
        let a = g1_exp(prior.g1@[i]);
        let a0 = g1_exp(prior.g1@[i - 1]);
        let b = g2_exp(prior.g2@[1]);
        let w0 = exp_pow(t, (i - 1) as nat);
        let w = exp_pow(t, i as nat);
        assert(w == exp_mul(w0, t));
        lemma_reduced(g1_exp(g1[i]));
        assert(a >= 0);
        lemma_reduced(a);
        assert(exp_mul(a, 1) == exp_mul(a0, b));
        lemma_mod_twice(w0 * t, m);
        lemma_cong_mul(a, w, a, w0 * t);
        lemma_mod_twice(a0 * b, m);
        lemma_cong_mul(a, w0 * t, a0 * b, w0 * t);
        assert(g1_exp(g1[i - 1]) == exp_mul(a0, w0));
        assert(g2_exp(g2[1]) == exp_mul(b, t));
        lemma_mod_twice(a0 * w0, m);
        lemma_mod_twice(b * t, m);
        lemma_cong_mul(exp_mul(a0, w0), exp_mul(b, t), a0 * w0, b * t);
        assert((a0 * b) * (w0 * t) == (a0 * w0) * (b * t)) by (nonlinear_arith);
    }
    assert(exp_g1_chain(g1, g2[1]));
    // Cross check.
    let g1p = g1.subrange(0, g2.len() as int);
    let p1p = prior.g1@.subrange(0, prior.g2@.len() as int);
    assert forall|i: int| 0 <= i < g1p.len() implies g1_exp(#[trigger] g1p[i]) >= 0 by {
        assert(g1p[i] == g1[i]);
    }
    assert forall|i: int| 0 <= i < g1p.len() && i < g2.len() implies exp_mul(
        g1_exp(#[trigger] g1p[i]),
        1,
    ) == exp_mul(1, g2_exp(g2[i])) by {
        let a = g1_exp(prior.g1@[i]);
        let b = g2_exp(prior.g2@[i]);
        let w = exp_pow(t, i as nat);
        assert(g1p[i] == g1[i]);
        assert(p1p[i] == prior.g1@[i]);
        assert(a >= 0 && b >= 0);
        lemma_reduced(a);
        lemma_reduced(b);
        lemma_reduced(g1_exp(g1[i]));
        lemma_reduced(g2_exp(g2[i]));
        lemma_cong_mul(a, w, b, w);
    }
    assert(exp_cross(g1p, g2));
}

/// The powers of a fresh shard, all generators, are consistent, so an honest
/// first contribution is accepted.
pub proof fn lemma_generators_consistent(p: Powers)
    requires
        p.g1@.len() >= p.g2@.len(),
        p.g2@.len() >= 2,
        all_one_g1(p.g1@),
        all_one_g2(p.g2@),
    ensures
        exp_consistent(p),
{
    lemma_reduced(1);
    let g1p = p.g1@.subrange(0, p.g2@.len() as int);
    assert forall|i: int| 0 <= i < g1p.len() implies g1_exp(#[trigger] g1p[i]) >= 0 by {
        assert(g1p[i] == p.g1@[i]);
    }
    assert forall|i: int| 0 <= i < g1p.len() && i < p.g2@.len() implies exp_mul(
        g1_exp(#[trigger] g1p[i]),
        1,
    ) == exp_mul(1, g2_exp(p.g2@[i])) by {
        assert(g1p[i] == p.g1@[i]);
    }
}

/// Changing one g1 power of an honest contribution, other than the first,
/// to a valid point with another exponent makes verification reject it:
/// through the public-key pairing where the changed power is `g1[1]`,
/// through the g1 progression otherwise.
pub proof fn lemma_altered_g1_power_rejected(
    prior: Powers,
    c: Contribution,
    altered: Contribution,
    tau: u64,
    k: int,
    pt: G1,
)
    requires
        exp_consistent(prior),
        0 < tau < ORDER,
        scaled_by(prior, c, tau),
        1 <= k < c.powers.g1@.len(),
        g1_exp(pt) >= 0,
        g1_exp(pt) != g1_exp(c.powers.g1@[k]),
        altered.powers.g1@ == c.powers.g1@.update(k, pt),
        altered.powers.g2@ == c.powers.g2@,
        altered.pot_pubkey == c.pot_pubkey,
    ensures
        verify_result::<ExponentEngine>(prior, altered) == Err::<(), CeremonyError>(
            if k == 1 {
                CeremonyError::PubkeyPairingFailed
            } else {
                CeremonyError::G1PairingFailed
            },
        ),
{
    lemma_honest_contribution_accepted(prior, c, tau);
    let g1 = c.powers.g1@;
    let a1 = altered.powers.g1@;
    assert forall|i: int| 0 <= i < a1.len() implies g1_exp(#[trigger] a1[i]) >= 0 by {
        if i != k {
            assert(a1[i] == g1[i]);
        }
    }
    lemma_reduced(g1_exp(pt));
    lemma_reduced(g1_exp(g1[k]));
    assert(a1[k] == pt);
    if k == 1 {
        assert(!ExponentEngine::pubkey_holds(a1[1], prior.g1@[1], altered.pot_pubkey));
    } else {
        assert(a1[1] == g1[1]);
        assert(a1[k - 1] == g1[k - 1]);
        assert(exp_mul(g1_exp(g1[k]), 1) == exp_mul(g1_exp(g1[k - 1]), g2_exp(c.powers.g2@[1])));
        assert(exp_mul(g1_exp(a1[k]), 1) != exp_mul(
            g1_exp(a1[k - 1]),
            g2_exp(altered.powers.g2@[1]),
        ));
        assert(!exp_g1_chain(a1, altered.powers.g2@[1]));
    }
}

} // verus!
