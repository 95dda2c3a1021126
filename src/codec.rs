//! Text form of points and signatures in the persisted transcript: `0x`
//! followed by two lower-case hex digits per byte of the encoding; the empty
//! signature is the empty text.
use vstd::prelude::*;
use vstd::array::*;
use crate::group::{G1, G2};

verus! {

/// The ASCII digit of a nibble.
pub open spec fn hex_digit(n: u64) -> u8 {
    if n < 10 {
        (48 + n) as u8
    } else {
        (87 + n) as u8
    }
}

/// The value of an ASCII hex digit, either case.
pub open spec fn hex_value(c: u8) -> Option<u64> {
    if 48 <= c <= 57 {
        Some((c - 48) as u64)
    } else if 97 <= c <= 102 {
        Some((c - 87) as u64)
    } else if 65 <= c <= 70 {
        Some((c - 55) as u64)
    } else {
        None
    }
}

fn digit_of(n: u64) -> (r: u8)
    requires
        n < 16,
    ensures
        r == hex_digit(n),
{
    if n < 10 {
        (48 + n) as u8
    } else {
        (87 + n) as u8
    }
}

fn value_of(c: u8) -> (r: Option<u64>)
    ensures
        r == hex_value(c),
{
    if 48 <= c && c <= 57 {
        Some((c - 48) as u64)
    } else if 97 <= c && c <= 102 {
        Some((c - 87) as u64)
    } else if 65 <= c && c <= 70 {
        Some((c - 55) as u64)
    } else {
        None
    }
}

proof fn lemma_digit_value(n: u64)
    requires
        n < 16,
    ensures
        hex_value(hex_digit(n)) == Some(n),
{
}

/// The text of a signature: empty for the empty sentinel, else `0x`
/// followed by two lower-case hex digits per byte.
pub open spec fn bytes_text(b: Seq<u8>) -> Seq<u8> {
    if b.len() == 0 {
        Seq::<u8>::empty()
    } else {
        seq![48u8, 120u8] + Seq::new(
            2 * b.len(),
            |k: int|
                if k % 2 == 0 {
                    hex_digit((b[k / 2] / 16) as u64)
                } else {
                    hex_digit((b[k / 2] % 16) as u64)
                },
        )
    }
}

/// Where the digits of byte `j` stand in the text of `b`.
proof fn lemma_byte_digits(b: Seq<u8>, j: int)
    requires
        0 <= j < b.len(),
    ensures
        bytes_text(b).len() == 2 + 2 * b.len(),
        bytes_text(b)[0] == 48u8,
        bytes_text(b)[1] == 120u8,
        bytes_text(b)[2 + 2 * j] == hex_digit((b[j] / 16) as u64),
        bytes_text(b)[3 + 2 * j] == hex_digit((b[j] % 16) as u64),
        hex_value(hex_digit((b[j] / 16) as u64)) == Some((b[j] / 16) as u64),
        hex_value(hex_digit((b[j] % 16) as u64)) == Some((b[j] % 16) as u64),
        ((b[j] / 16) as u64) * 16 + ((b[j] % 16) as u64) == b[j],
{
    let t = bytes_text(b);
    let k = 2 * j;
    assert(t[2 + k] == hex_digit((b[k / 2] / 16) as u64));
    assert(k / 2 == j);
    assert((k + 1) % 2 == 1 && (k + 1) / 2 == j);
    assert(t[2 + (k + 1)] == hex_digit((b[(k + 1) / 2] % 16) as u64));
    lemma_digit_value((b[j] / 16) as u64);
    lemma_digit_value((b[j] % 16) as u64);
}

/// The text of the signature bytes `b`.
pub fn encode_bytes(b: &Vec<u8>) -> (r: Vec<u8>)
    ensures
        r@ == bytes_text(b@),
{
    let mut v: Vec<u8> = Vec::new();
    if b.len() == 0 {
        return v;
    }
    v.push(48u8);
    v.push(120u8);
    let mut j: usize = 0;
    while j < b.len()
        invariant
            b@.len() > 0,
            j <= b@.len(),
            v@.len() == 2 + 2 * j,
            v@[0] == 48u8,
            v@[1] == 120u8,
            forall|k: int| 2 <= k < 2 + 2 * j ==> #[trigger] v@[k] == bytes_text(b@)[k],
        decreases b@.len() - j,
    {
        proof {
            lemma_byte_digits(b@, j as int);
        }
        v.push(digit_of((b[j] / 16) as u64));
        v.push(digit_of((b[j] % 16) as u64));
        j = j + 1;
    }
    proof {
        lemma_byte_digits(b@, 0);
    }
    assert(v@ =~= bytes_text(b@));
    v
}

/// The signature bytes whose text is `s`, or `None` where `s` is the text of
/// no signature.
pub fn decode_bytes(s: &Vec<u8>) -> (r: Option<Vec<u8>>)
    ensures
        r matches Some(b) ==> s@ == bytes_text(b@),
        forall|b: Seq<u8>| s@ == bytes_text(b) ==> (r matches Some(v) && v@ == b),
{
    let mut out: Vec<u8> = Vec::new();
    if s.len() == 0 {
        proof {
            assert forall|b: Seq<u8>| s@ == bytes_text(b) implies b == out@ by {
                if b.len() > 0 {
                    assert(bytes_text(b).len() == 2 + 2 * b.len());
                }
                assert(b =~= out@);
            }
        }
        return Some(out);
    }
    if s.len() < 2 || s.len() % 2 != 0 {
        return None;
    }
    let len: usize = s.len();
    let n: usize = (len - 2) / 2;
    let mut j: usize = 0;
    while j < n
        invariant
            s@.len() == len,
            len == 2 + 2 * n,
            j <= n,
            out@.len() == j,
            forall|b: Seq<u8>|
                #![auto]
                s@ == bytes_text(b) ==> b.len() == n && out@ == b.subrange(0, j as int),
        decreases n - j,
    {
        let hi = match value_of(s[2 + 2 * j]) {
            Some(d) => d,
            None => {
                proof {
                    assert forall|b: Seq<u8>| s@ == bytes_text(b) implies false by {
                        lemma_byte_digits(b, j as int);
                    }
                }
                return None;
            },
        };
        let lo = match value_of(s[3 + 2 * j]) {
            Some(d) => d,
            None => {
                proof {
                    assert forall|b: Seq<u8>| s@ == bytes_text(b) implies false by {
                        lemma_byte_digits(b, j as int);
                    }
                }
                return None;
            },
        };
        out.push((hi * 16 + lo) as u8);
        proof {
            assert forall|b: Seq<u8>| s@ == bytes_text(b) implies b.len() == n && out@ == b.subrange(
                0,
                j + 1,
            ) by {
                lemma_byte_digits(b, j as int);
                assert(out@ =~= b.subrange(0, j + 1));
            }
        }
        j = j + 1;
    }
    let text = encode_bytes(&out);
    if text.len() != s.len() {
        proof {
            assert forall|b: Seq<u8>| s@ == bytes_text(b) implies false by {
                assert(out@ =~= b);
            }
        }
        return None;
    }
    let mut i: usize = 0;
    while i < s.len()
        invariant
            i <= s@.len(),
            text@ == bytes_text(out@),
            text@.len() == s@.len(),
            forall|b: Seq<u8>| #![auto] s@ == bytes_text(b) ==> out@ == b.subrange(0, b.len() as int),
            forall|k: int| 0 <= k < i ==> s@[k] == text@[k],
        decreases s@.len() - i,
    {
        if s[i] != text[i] {
            proof {
                assert forall|b: Seq<u8>| s@ == bytes_text(b) implies false by {
                    assert(out@ =~= b);
                }
            }
            return None;
        }
        i = i + 1;
    }
    assert(s@ =~= text@);
    proof {
        assert forall|b: Seq<u8>| s@ == bytes_text(b) implies out@ == b by {
            assert(out@ =~= b);
        }
    }
    Some(out)
}

/// Reading back the text of a signature gives the signature again.
pub proof fn lemma_bytes_text_round_trip(a: Seq<u8>, b: Seq<u8>)
    requires
        bytes_text(a) == bytes_text(b),
    ensures
        a == b,
{
    if a.len() > 0 {
        lemma_byte_digits(a, 0);
    }
    if b.len() > 0 {
        lemma_byte_digits(b, 0);
    }
    assert(a.len() == b.len());
    assert forall|j: int| 0 <= j < a.len() implies a[j] == b[j] by {
        lemma_byte_digits(a, j);
        lemma_byte_digits(b, j);
    }
    assert(a =~= b);
}

fn array_to_vec<const N: usize>(a: &[u8; N]) -> (r: Vec<u8>)
    ensures
        r@ == a@,
{
    let mut v: Vec<u8> = Vec::with_capacity(N);
    let mut i: usize = 0;
    while i < N
        invariant
            i <= N,
            a@.len() == N,
            v@ == a@.subrange(0, i as int),
        decreases N - i,
    {
        v.push(a[i]);
        i = i + 1;
    }
    assert(v@ =~= a@);
    v
}

fn vec_to_array<const N: usize>(v: &Vec<u8>) -> (r: [u8; N])
    requires
        v@.len() == N,
    ensures
        r@ == v@,
{
    let mut a: [u8; N] = [0u8; N];
    let mut i: usize = 0;
    while i < N
        invariant
            i <= N,
            v@.len() == N,
            a@.len() == N,
            forall|j: int| 0 <= j < i ==> a@[j] == v@[j],
        decreases N - i,
    {
        a.set(i, v[i]);
        i = i + 1;
    }
    assert(a@ =~= v@);
    a
}

/// The text of a point of the first group.
pub fn encode_g1(p: &G1) -> (r: Vec<u8>)
    ensures
        r@ == bytes_text(p.bytes@),
{
    encode_bytes(&array_to_vec(&p.bytes))
}

/// The text of a point of the second group.
pub fn encode_g2(p: &G2) -> (r: Vec<u8>)
    ensures
        r@ == bytes_text(p.bytes@),
{
    encode_bytes(&array_to_vec(&p.bytes))
}

/// The point of the first group whose text is `s`, or `None` where `s` is
/// the text of no 48-byte encoding.
pub fn decode_g1(s: &Vec<u8>) -> (r: Option<G1>)
    ensures
        r matches Some(p) ==> s@ == bytes_text(p.bytes@),
        forall|p: G1| s@ == bytes_text(p.bytes@) ==> (r matches Some(q) && q.bytes@ == p.bytes@),
{
    match decode_bytes(s) {
        Some(b) => {
            if b.len() == 48 {
                Some(G1 { bytes: vec_to_array(&b) })
            } else {
                None
            }
        },
        None => None,
    }
}

/// The point of the second group whose text is `s`, or `None` where `s` is
/// the text of no 96-byte encoding.
pub fn decode_g2(s: &Vec<u8>) -> (r: Option<G2>)
    ensures
        r matches Some(p) ==> s@ == bytes_text(p.bytes@),
        forall|p: G2| s@ == bytes_text(p.bytes@) ==> (r matches Some(q) && q.bytes@ == p.bytes@),
{
    match decode_bytes(s) {
        Some(b) => {
            if b.len() == 96 {
                Some(G2 { bytes: vec_to_array(&b) })
            } else {
                None
            }
        },
        None => None,
    }
}

} // verus!
