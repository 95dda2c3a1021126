//! Group elements and the powers they form.
use vstd::prelude::*;

verus! {

/// A point of the first source group, in its 48-byte compressed encoding.
#[derive(Clone, Copy, Debug, PartialEq, Eq)]
pub struct G1 {
    pub bytes: [u8; 48],
}

/// A point of the second source group, in its 96-byte compressed encoding.
#[derive(Clone, Copy, Debug, PartialEq, Eq)]
pub struct G2 {
    pub bytes: [u8; 96],
}

/// The encoding of the generator of the first group.
pub open spec fn g1_generator() -> Seq<u8> {
    seq![
        0x97u8, 0xf1u8, 0xd3u8, 0xa7u8, 0x31u8, 0x97u8, 0xd7u8, 0x94u8, 0x26u8, 0x95u8, 0x63u8, 0x8cu8,
        0x4fu8, 0xa9u8, 0xacu8, 0x0fu8, 0xc3u8, 0x68u8, 0x8cu8, 0x4fu8, 0x97u8, 0x74u8, 0xb9u8, 0x05u8,
        0xa1u8, 0x4eu8, 0x3au8, 0x3fu8, 0x17u8, 0x1bu8, 0xacu8, 0x58u8, 0x6cu8, 0x55u8, 0xe8u8, 0x3fu8,
        0xf9u8, 0x7au8, 0x1au8, 0xefu8, 0xfbu8, 0x3au8, 0xf0u8, 0x0au8, 0xdbu8, 0x22u8, 0xc6u8, 0xbbu8,
    ]
}

/// The encoding of the identity of the first group.
pub open spec fn g1_identity() -> Seq<u8> {
    seq![
        0xc0u8, 0x00u8, 0x00u8, 0x00u8, 0x00u8, 0x00u8, 0x00u8, 0x00u8, 0x00u8, 0x00u8, 0x00u8, 0x00u8,
        0x00u8, 0x00u8, 0x00u8, 0x00u8, 0x00u8, 0x00u8, 0x00u8, 0x00u8, 0x00u8, 0x00u8, 0x00u8, 0x00u8,
        0x00u8, 0x00u8, 0x00u8, 0x00u8, 0x00u8, 0x00u8, 0x00u8, 0x00u8, 0x00u8, 0x00u8, 0x00u8, 0x00u8,
        0x00u8, 0x00u8, 0x00u8, 0x00u8, 0x00u8, 0x00u8, 0x00u8, 0x00u8, 0x00u8, 0x00u8, 0x00u8, 0x00u8,
    ]
}

/// The encoding of the generator of the second group.
pub open spec fn g2_generator() -> Seq<u8> {
    seq![
        0x93u8, 0xe0u8, 0x2bu8, 0x60u8, 0x52u8, 0x71u8, 0x9fu8, 0x60u8, 0x7du8, 0xacu8, 0xd3u8, 0xa0u8,
        0x88u8, 0x27u8, 0x4fu8, 0x65u8, 0x59u8, 0x6bu8, 0xd0u8, 0xd0u8, 0x99u8, 0x20u8, 0xb6u8, 0x1au8,
        0xb5u8, 0xdau8, 0x61u8, 0xbbu8, 0xdcu8, 0x7fu8, 0x50u8, 0x49u8, 0x33u8, 0x4cu8, 0xf1u8, 0x12u8,
        0x13u8, 0x94u8, 0x5du8, 0x57u8, 0xe5u8, 0xacu8, 0x7du8, 0x05u8, 0x5du8, 0x04u8, 0x2bu8, 0x7eu8,
        0x02u8, 0x4au8, 0xa2u8, 0xb2u8, 0xf0u8, 0x8fu8, 0x0au8, 0x91u8, 0x26u8, 0x08u8, 0x05u8, 0x27u8,
        0x2du8, 0xc5u8, 0x10u8, 0x51u8, 0xc6u8, 0xe4u8, 0x7au8, 0xd4u8, 0xfau8, 0x40u8, 0x3bu8, 0x02u8,
        0xb4u8, 0x51u8, 0x0bu8, 0x64u8, 0x7au8, 0xe3u8, 0xd1u8, 0x77u8, 0x0bu8, 0xacu8, 0x03u8, 0x26u8,
        0xa8u8, 0x05u8, 0xbbu8, 0xefu8, 0xd4u8, 0x80u8, 0x56u8, 0xc8u8, 0xc1u8, 0x21u8, 0xbdu8, 0xb8u8,
    ]
}

/// The encoding of the identity of the second group.
pub open spec fn g2_identity() -> Seq<u8> {
    seq![
        0xc0u8, 0x00u8, 0x00u8, 0x00u8, 0x00u8, 0x00u8, 0x00u8, 0x00u8, 0x00u8, 0x00u8, 0x00u8, 0x00u8,
        0x00u8, 0x00u8, 0x00u8, 0x00u8, 0x00u8, 0x00u8, 0x00u8, 0x00u8, 0x00u8, 0x00u8, 0x00u8, 0x00u8,
        0x00u8, 0x00u8, 0x00u8, 0x00u8, 0x00u8, 0x00u8, 0x00u8, 0x00u8, 0x00u8, 0x00u8, 0x00u8, 0x00u8,
        0x00u8, 0x00u8, 0x00u8, 0x00u8, 0x00u8, 0x00u8, 0x00u8, 0x00u8, 0x00u8, 0x00u8, 0x00u8, 0x00u8,
        0x00u8, 0x00u8, 0x00u8, 0x00u8, 0x00u8, 0x00u8, 0x00u8, 0x00u8, 0x00u8, 0x00u8, 0x00u8, 0x00u8,
        0x00u8, 0x00u8, 0x00u8, 0x00u8, 0x00u8, 0x00u8, 0x00u8, 0x00u8, 0x00u8, 0x00u8, 0x00u8, 0x00u8,
        0x00u8, 0x00u8, 0x00u8, 0x00u8, 0x00u8, 0x00u8, 0x00u8, 0x00u8, 0x00u8, 0x00u8, 0x00u8, 0x00u8,
        0x00u8, 0x00u8, 0x00u8, 0x00u8, 0x00u8, 0x00u8, 0x00u8, 0x00u8, 0x00u8, 0x00u8, 0x00u8, 0x00u8,
    ]
}

/// Whether two encodings are the same bytes.
pub fn same_bytes<const N: usize>(a: &[u8; N], b: &[u8; N]) -> (r: bool)
    ensures
        r == (a@ == b@),
{
    let mut i: usize = 0;
    while i < N
        invariant
            i <= N,
            a@.len() == N,
            b@.len() == N,
            forall|j: int| 0 <= j < i ==> a@[j] == b@[j],
        decreases N - i,
    {
        if a[i] != b[i] {
            return false;
        }
        i = i + 1;
    }
    assert(a@ =~= b@);
    true
}

impl G1 {
    /// The generator.
    pub fn one() -> (r: G1)
        ensures
            r.bytes@ == g1_generator(),
    {
        let r = G1 {
            bytes: [
                0x97u8, 0xf1u8, 0xd3u8, 0xa7u8, 0x31u8, 0x97u8, 0xd7u8, 0x94u8, 0x26u8, 0x95u8, 0x63u8, 0x8cu8,
                0x4fu8, 0xa9u8, 0xacu8, 0x0fu8, 0xc3u8, 0x68u8, 0x8cu8, 0x4fu8, 0x97u8, 0x74u8, 0xb9u8, 0x05u8,
                0xa1u8, 0x4eu8, 0x3au8, 0x3fu8, 0x17u8, 0x1bu8, 0xacu8, 0x58u8, 0x6cu8, 0x55u8, 0xe8u8, 0x3fu8,
                0xf9u8, 0x7au8, 0x1au8, 0xefu8, 0xfbu8, 0x3au8, 0xf0u8, 0x0au8, 0xdbu8, 0x22u8, 0xc6u8, 0xbbu8,
            ],
        };
        assert(r.bytes@ =~= g1_generator());
        r
    }

    /// The identity.
    pub fn zero() -> (r: G1)
        ensures
            r.bytes@ == g1_identity(),
    {
        let r = G1 {
            bytes: [
                0xc0u8, 0x00u8, 0x00u8, 0x00u8, 0x00u8, 0x00u8, 0x00u8, 0x00u8, 0x00u8, 0x00u8, 0x00u8, 0x00u8,
                0x00u8, 0x00u8, 0x00u8, 0x00u8, 0x00u8, 0x00u8, 0x00u8, 0x00u8, 0x00u8, 0x00u8, 0x00u8, 0x00u8,
                0x00u8, 0x00u8, 0x00u8, 0x00u8, 0x00u8, 0x00u8, 0x00u8, 0x00u8, 0x00u8, 0x00u8, 0x00u8, 0x00u8,
                0x00u8, 0x00u8, 0x00u8, 0x00u8, 0x00u8, 0x00u8, 0x00u8, 0x00u8, 0x00u8, 0x00u8, 0x00u8, 0x00u8,
            ],
        };
        assert(r.bytes@ =~= g1_identity());
        r
    }
}

impl G2 {
    /// The generator.
    pub fn one() -> (r: G2)
        ensures
            r.bytes@ == g2_generator(),
    {
        let r = G2 {
            bytes: [
                0x93u8, 0xe0u8, 0x2bu8, 0x60u8, 0x52u8, 0x71u8, 0x9fu8, 0x60u8, 0x7du8, 0xacu8, 0xd3u8, 0xa0u8,
                0x88u8, 0x27u8, 0x4fu8, 0x65u8, 0x59u8, 0x6bu8, 0xd0u8, 0xd0u8, 0x99u8, 0x20u8, 0xb6u8, 0x1au8,
                0xb5u8, 0xdau8, 0x61u8, 0xbbu8, 0xdcu8, 0x7fu8, 0x50u8, 0x49u8, 0x33u8, 0x4cu8, 0xf1u8, 0x12u8,
                0x13u8, 0x94u8, 0x5du8, 0x57u8, 0xe5u8, 0xacu8, 0x7du8, 0x05u8, 0x5du8, 0x04u8, 0x2bu8, 0x7eu8,
                0x02u8, 0x4au8, 0xa2u8, 0xb2u8, 0xf0u8, 0x8fu8, 0x0au8, 0x91u8, 0x26u8, 0x08u8, 0x05u8, 0x27u8,
                0x2du8, 0xc5u8, 0x10u8, 0x51u8, 0xc6u8, 0xe4u8, 0x7au8, 0xd4u8, 0xfau8, 0x40u8, 0x3bu8, 0x02u8,
                0xb4u8, 0x51u8, 0x0bu8, 0x64u8, 0x7au8, 0xe3u8, 0xd1u8, 0x77u8, 0x0bu8, 0xacu8, 0x03u8, 0x26u8,
                0xa8u8, 0x05u8, 0xbbu8, 0xefu8, 0xd4u8, 0x80u8, 0x56u8, 0xc8u8, 0xc1u8, 0x21u8, 0xbdu8, 0xb8u8,
            ],
        };
        assert(r.bytes@ =~= g2_generator());
        r
    }

    /// The identity.
    pub fn zero() -> (r: G2)
        ensures
            r.bytes@ == g2_identity(),
    {
        let r = G2 {
            bytes: [
                0xc0u8, 0x00u8, 0x00u8, 0x00u8, 0x00u8, 0x00u8, 0x00u8, 0x00u8, 0x00u8, 0x00u8, 0x00u8, 0x00u8,
                0x00u8, 0x00u8, 0x00u8, 0x00u8, 0x00u8, 0x00u8, 0x00u8, 0x00u8, 0x00u8, 0x00u8, 0x00u8, 0x00u8,
                0x00u8, 0x00u8, 0x00u8, 0x00u8, 0x00u8, 0x00u8, 0x00u8, 0x00u8, 0x00u8, 0x00u8, 0x00u8, 0x00u8,
                0x00u8, 0x00u8, 0x00u8, 0x00u8, 0x00u8, 0x00u8, 0x00u8, 0x00u8, 0x00u8, 0x00u8, 0x00u8, 0x00u8,
                0x00u8, 0x00u8, 0x00u8, 0x00u8, 0x00u8, 0x00u8, 0x00u8, 0x00u8, 0x00u8, 0x00u8, 0x00u8, 0x00u8,
                0x00u8, 0x00u8, 0x00u8, 0x00u8, 0x00u8, 0x00u8, 0x00u8, 0x00u8, 0x00u8, 0x00u8, 0x00u8, 0x00u8,
                0x00u8, 0x00u8, 0x00u8, 0x00u8, 0x00u8, 0x00u8, 0x00u8, 0x00u8, 0x00u8, 0x00u8, 0x00u8, 0x00u8,
                0x00u8, 0x00u8, 0x00u8, 0x00u8, 0x00u8, 0x00u8, 0x00u8, 0x00u8, 0x00u8, 0x00u8, 0x00u8, 0x00u8,
            ],
        };
        assert(r.bytes@ =~= g2_identity());
        r
    }

    /// Whether this is the identity.
    pub fn is_zero(&self) -> (r: bool)
        ensures
            r == (self.bytes@ == g2_identity()),
    {
        let z = G2::zero();
        same_bytes(&self.bytes, &z.bytes)
    }
}

/// A BLS signature over one contribution step; the empty signature is the
/// sentinel of the first witness entry.
#[derive(Clone, Debug, PartialEq, Eq)]
pub struct BlsSignature {
    pub bytes: Vec<u8>,
}

impl BlsSignature {
    /// The empty sentinel signature.
    pub fn empty() -> (r: BlsSignature)
        ensures
            r.bytes@ == Seq::<u8>::empty(),
    {
        BlsSignature { bytes: Vec::new() }
    }
}

/// Every point is the generator.
pub open spec fn all_one_g1(s: Seq<G1>) -> bool {
    forall|i: int| 0 <= i < s.len() ==> (#[trigger] s[i]).bytes@ == g1_generator()
}

/// Every point is the generator.
pub open spec fn all_one_g2(s: Seq<G2>) -> bool {
    forall|i: int| 0 <= i < s.len() ==> (#[trigger] s[i]).bytes@ == g2_generator()
}

/// Successive powers of the accumulated secret in both groups.
#[derive(Clone, Debug, PartialEq, Eq)]
pub struct Powers {
    pub g1: Vec<G1>,
    pub g2: Vec<G2>,
}

fn generators_g1(n: usize) -> (r: Vec<G1>)
    ensures
        r@.len() == n,
        all_one_g1(r@),
{
    let mut v: Vec<G1> = Vec::with_capacity(n);
    let mut i: usize = 0;
    while i < n
        invariant
            i <= n,
            v@.len() == i,
            all_one_g1(v@),
        decreases n - i,
    {
        v.push(G1::one());
        i = i + 1;
    }
    v
}

fn generators_g2(n: usize) -> (r: Vec<G2>)
    ensures
        r@.len() == n,
        all_one_g2(r@),
{
    let mut v: Vec<G2> = Vec::with_capacity(n);
    let mut i: usize = 0;
    while i < n
        invariant
            i <= n,
            v@.len() == i,
            all_one_g2(v@),
        decreases n - i,
    {
        v.push(G2::one());
        i = i + 1;
    }
    v
}

fn copy_g1(s: &Vec<G1>) -> (r: Vec<G1>)
    ensures
        r@ == s@,
{
    let mut v: Vec<G1> = Vec::with_capacity(s.len());
    let mut i: usize = 0;
    while i < s.len()
        invariant
            i <= s@.len(),
            v@ == s@.subrange(0, i as int),
        decreases s@.len() - i,
    {
        v.push(s[i]);
        i = i + 1;
    }
    assert(v@ == s@);
    v
}

fn copy_g2(s: &Vec<G2>) -> (r: Vec<G2>)
    ensures
        r@ == s@,
{
    let mut v: Vec<G2> = Vec::with_capacity(s.len());
    let mut i: usize = 0;
    while i < s.len()
        invariant
            i <= s@.len(),
            v@ == s@.subrange(0, i as int),
        decreases s@.len() - i,
    {
        v.push(s[i]);
        i = i + 1;
    }
    assert(v@ == s@);
    v
}

/// The first `n` points of `s`.
pub fn prefix_g1(s: &Vec<G1>, n: usize) -> (r: Vec<G1>)
    requires
        n <= s@.len(),
    ensures
        r@ == s@.subrange(0, n as int),
{
    let mut v: Vec<G1> = Vec::with_capacity(n);
    let mut i: usize = 0;
    while i < n
        invariant
            i <= n,
            n <= s@.len(),
            v@ == s@.subrange(0, i as int),
        decreases n - i,
    {
        v.push(s[i]);
        i = i + 1;
    }
    v
}

impl Powers {
    /// Powers of a fresh ceremony: every point is the generator.
    pub fn new(num_g1: usize, num_g2: usize) -> (r: Powers)
        ensures
            r.g1@.len() == num_g1,
            r.g2@.len() == num_g2,
            all_one_g1(r.g1@),
            all_one_g2(r.g2@),
    {
        Powers { g1: generators_g1(num_g1), g2: generators_g2(num_g2) }
    }

    /// A copy of these powers that shares nothing with them.
    pub fn duplicate(&self) -> (r: Powers)
        ensures
            r.g1@ == self.g1@,
            r.g2@ == self.g2@,
    {
        Powers { g1: copy_g1(&self.g1), g2: copy_g2(&self.g2) }
    }
}

} // verus!
