use kzg_ceremony_sequencer::engine::{g1_exponent, g1_of_exp, g2_exponent, g2_of_exp, mul_mod, ExponentEngine, ORDER};
use kzg_ceremony_sequencer::group::{BlsSignature, Powers, G1, G2};
use kzg_ceremony_sequencer::transcript::{CeremonyError, Contribution, Transcript, Witness};

fn honest(t: &Transcript, tau: u64) -> Contribution {
    let mut c = t.contribution();
    ExponentEngine::add_tau(&mut c, tau);
    c
}

fn g1_exps(v: &[G1]) -> Vec<u64> {
    v.iter().map(|p| g1_exponent(p).unwrap()).collect()
}

fn g2_exps(v: &[G2]) -> Vec<u64> {
    v.iter().map(|p| g2_exponent(p).unwrap()).collect()
}

#[test]
fn fresh_transcript_has_no_participants() {
    for (n1, n2) in [(2usize, 2usize), (4, 2), (4, 4), (4096, 65)] {
        let t = Transcript::new(n1, n2);
        assert_eq!(t.num_participants(), 0);
        assert!(!t.has_entropy());
    }
}

#[test]
fn fresh_transcript_layout() {
    let t = Transcript::new(4, 2);
    assert_eq!(t.powers.g1, vec![G1::one(); 4]);
    assert_eq!(t.powers.g2, vec![G2::one(); 2]);
    assert_eq!(t.witness.products, vec![G1::one()]);
    assert_eq!(t.witness.pubkeys, vec![G2::one()]);
    assert_eq!(t.witness.signatures, vec![BlsSignature::empty()]);
    assert!(t.witness.signatures[0].bytes.is_empty());
}

#[test]
fn generators_and_identities() {
    assert_eq!(G1::one().bytes.len(), 48);
    assert_eq!(G2::one().bytes.len(), 96);
    assert_eq!(G1::one().bytes[0], 0x97);
    assert_eq!(G2::one().bytes[0], 0x93);
    assert_eq!(G1::zero().bytes[0], 0xc0);
    assert!(G1::zero().bytes[1..].iter().all(|&b| b == 0));
    assert!(G2::zero().is_zero());
    assert!(!G2::one().is_zero());
    assert_eq!(g1_exponent(&G1::one()), Some(1));
    assert_eq!(g1_exponent(&G1::zero()), Some(0));
    assert_eq!(g2_exponent(&G2::one()), Some(1));
    assert_eq!(g2_exponent(&G2::zero()), Some(0));
}

#[test]
fn exponent_encoding_round_trip() {
    for e in [0u64, 1, 2, 255, 256, 1 << 40, ORDER - 1] {
        assert_eq!(g1_exponent(&g1_of_exp(e)), Some(e));
        assert_eq!(g2_exponent(&g2_of_exp(e)), Some(e));
    }
    assert_eq!(g1_of_exp(0x0102).bytes[46..], [0x01, 0x02]);
    assert_eq!(g1_exponent(&G1 { bytes: [0xff; 48] }), None);
    let mut big = g1_of_exp(2);
    big.bytes[40..].copy_from_slice(&ORDER.to_be_bytes());
    assert_eq!(g1_exponent(&big), None);
}

#[test]
fn contribution_template_copies_powers() {
    let mut t = Transcript::new(4, 2);
    let c = honest(&t, 5);
    t.add(c);
    let tpl = t.contribution();
    assert_eq!(tpl.powers, t.powers);
    assert_eq!(tpl.pot_pubkey, G2::one());
    assert_eq!(tpl.bls_signature, BlsSignature::empty());
}

#[test]
fn add_tau_scales_each_power() {
    let t = Transcript::new(4, 2);
    let c = honest(&t, 3);
    assert_eq!(g1_exps(&c.powers.g1), vec![1, 3, 9, 27]);
    assert_eq!(g2_exps(&c.powers.g2), vec![1, 3]);
    assert_eq!(g2_exponent(&c.pot_pubkey), Some(3));
    assert_eq!(c.powers.g1[0], G1::one());
}

#[test]
fn one_honest_contribution_end_to_end() {
    let mut t = Transcript::new(4, 2);
    let s = 7u64;
    let c = honest(&t, s);
    assert_eq!(t.verify::<ExponentEngine>(&c), Ok(()));
    t.add(c);
    assert_eq!(t.num_participants(), 1);
    assert!(t.has_entropy());
    assert_eq!(t.witness.products.len(), 2);
    assert_eq!(t.witness.products[1], g1_of_exp(s));
    assert_eq!(t.witness.pubkeys[1], g2_of_exp(s));
}

#[test]
fn add_grows_each_log_by_one() {
    let mut t = Transcript::new(4, 2);
    for (k, tau) in [11u64, 13, 17].iter().enumerate() {
        let c = honest(&t, *tau);
        assert_eq!(t.verify::<ExponentEngine>(&c), Ok(()));
        let before = t.num_participants();
        t.add(c);
        assert_eq!(t.num_participants(), before + 1);
        assert_eq!(t.witness.products.len(), k + 2);
        assert_eq!(t.witness.pubkeys.len(), k + 2);
        assert_eq!(t.witness.signatures.len(), k + 2);
    }
    assert_eq!(g1_exponent(&t.witness.products[3]), Some(11 * 13 * 17));
}

#[test]
fn large_secret_is_accepted() {
    let mut t = Transcript::new(8, 3);
    for tau in [ORDER - 1, ORDER - 2, 1 << 40] {
        let c = honest(&t, tau);
        assert_eq!(t.verify::<ExponentEngine>(&c), Ok(()));
        t.add(c);
    }
    assert_eq!(t.num_participants(), 3);
}

#[test]
fn mul_mod_values() {
    assert_eq!(mul_mod(ORDER - 1, ORDER - 1), 1);
    assert_eq!(mul_mod(1 << 32, 1 << 32), 8);
    assert_eq!(mul_mod(6, 7), 42);
    assert_eq!(mul_mod(u64::MAX, 1), u64::MAX % ORDER);
}

#[test]
fn g1_length_mismatch_rejected() {
    let t = Transcript::new(4, 2);
    let mut c = honest(&t, 7);
    c.powers.g1.push(G1::one());
    assert_eq!(
        t.verify::<ExponentEngine>(&c),
        Err(CeremonyError::UnexpectedNumG1Powers(4, 5))
    );
}

#[test]
fn g2_length_mismatch_rejected() {
    let t = Transcript::new(4, 2);
    let mut c = honest(&t, 7);
    c.powers.g2.pop();
    assert_eq!(
        t.verify::<ExponentEngine>(&c),
        Err(CeremonyError::UnexpectedNumG2Powers(2, 1))
    );
}

#[test]
fn invalid_points_rejected() {
    let t = Transcript::new(4, 2);
    let mut c = honest(&t, 7);
    c.powers.g1[2] = G1 { bytes: [0xff; 48] };
    assert_eq!(t.verify::<ExponentEngine>(&c), Err(CeremonyError::InvalidG1Power));
    let mut c = honest(&t, 7);
    c.powers.g2[0].bytes[5] ^= 1;
    assert_eq!(t.verify::<ExponentEngine>(&c), Err(CeremonyError::InvalidG2Power));
    let mut c = honest(&t, 7);
    c.pot_pubkey = G2 { bytes: [0x11; 96] };
    assert_eq!(t.verify::<ExponentEngine>(&c), Err(CeremonyError::InvalidPubkey));
}

#[test]
fn zero_pubkey_rejected() {
    let t = Transcript::new(4, 2);
    let mut c = honest(&t, 7);
    c.pot_pubkey = G2::zero();
    assert_eq!(t.verify::<ExponentEngine>(&c), Err(CeremonyError::ZeroPubkey));
}

#[test]
fn changed_first_power_fails_pubkey_check() {
    let t = Transcript::new(4, 2);
    let mut c = honest(&t, 7);
    c.powers.g1[1] = g1_of_exp(8);
    assert_eq!(t.verify::<ExponentEngine>(&c), Err(CeremonyError::PubkeyPairingFailed));
}

#[test]
fn changed_g1_power_fails_chain_check() {
    let t = Transcript::new(4, 2);
    for (k, e) in [(0usize, 2u64), (2, 48), (3, 342)] {
        let mut c = honest(&t, 7);
        c.powers.g1[k] = g1_of_exp(e);
        assert_eq!(t.verify::<ExponentEngine>(&c), Err(CeremonyError::G1PairingFailed));
    }
}

#[test]
fn changed_g2_power_fails() {
    let t = Transcript::new(4, 2);
    let mut c = honest(&t, 7);
    c.powers.g2[1] = g2_of_exp(6);
    assert_eq!(t.verify::<ExponentEngine>(&c), Err(CeremonyError::G1PairingFailed));
    let mut c = honest(&t, 7);
    c.powers.g2[0] = G2::zero();
    assert_eq!(t.verify::<ExponentEngine>(&c), Err(CeremonyError::G2PairingFailed));
}

#[test]
fn contribution_against_stale_powers_rejected() {
    let mut t = Transcript::new(4, 2);
    let first = honest(&t, 7);
    let second = honest(&t, 9);
    t.add(first);
    assert_eq!(
        t.verify::<ExponentEngine>(&second),
        Err(CeremonyError::PubkeyPairingFailed)
    );
}

#[test]
fn powers_new_is_all_generators() {
    let p = Powers::new(3, 2);
    assert_eq!(p.g1, vec![G1::one(); 3]);
    assert_eq!(p.g2, vec![G2::one(); 2]);
}

#[test]
fn from_parts_checks_shape() {
    let t = Transcript::new(4, 2);
    let ok = Transcript::from_parts(t.powers.clone(), t.witness.clone());
    assert_eq!(ok, Some(t.clone()));
    let bad = Witness {
        products: vec![G1::one()],
        pubkeys: vec![],
        signatures: vec![BlsSignature::empty()],
    };
    assert_eq!(Transcript::from_parts(t.powers.clone(), bad), None);
    assert_eq!(Transcript::from_parts(Powers::new(2, 3), t.witness.clone()), None);
    assert_eq!(Transcript::from_parts(Powers::new(4, 1), t.witness.clone()), None);
}
