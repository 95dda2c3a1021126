use kzg_ceremony_sequencer::codec::{decode_bytes, decode_g1, decode_g2, encode_bytes, encode_g1, encode_g2};
use kzg_ceremony_sequencer::engine::{g1_of_exp, g2_of_exp};
use kzg_ceremony_sequencer::group::{G1, G2};

fn text(s: &str) -> Vec<u8> {
    s.as_bytes().to_vec()
}

const G1_ONE: &str = "0x97f1d3a73197d7942695638c4fa9ac0fc3688c4f9774b905a14e3a3f171bac586c55e83ff97a1aeffb3af00adb22c6bb";
const G2_ONE: &str = "0x93e02b6052719f607dacd3a088274f65596bd0d09920b61ab5da61bbdc7f5049334cf11213945d57e5ac7d055d042b7e024aa2b2f08f0a91260805272dc51051c6e47ad4fa403b02b4510b647ae3d1770bac0326a805bbefd48056c8c121bdb8";

#[test]
fn generator_text() {
    assert_eq!(encode_g1(&G1::one()), text(G1_ONE));
    assert_eq!(encode_g2(&G2::one()), text(G2_ONE));
    assert_eq!(decode_g1(&text(G1_ONE)), Some(G1::one()));
    assert_eq!(decode_g2(&text(G2_ONE)), Some(G2::one()));
}

#[test]
fn point_text_round_trip() {
    for e in [0u64, 1, 7, 1 << 60] {
        let p = g1_of_exp(e);
        assert_eq!(decode_g1(&encode_g1(&p)), Some(p));
        let q = g2_of_exp(e);
        assert_eq!(decode_g2(&encode_g2(&q)), Some(q));
    }
    let p = G1 { bytes: [0xab; 48] };
    assert_eq!(decode_g1(&encode_g1(&p)), Some(p));
}

#[test]
fn malformed_point_text_rejected() {
    assert_eq!(decode_g1(&text("")), None);
    assert_eq!(decode_g1(&text("0x1")), None);
    assert_eq!(decode_g1(&text(&G2_ONE)), None);
    assert_eq!(decode_g2(&text(&G1_ONE)), None);
    assert_eq!(decode_g1(&text(&G1_ONE.to_uppercase().replace("0X", "0x"))), None);
    assert_eq!(decode_g1(&text(&G1_ONE[..G1_ONE.len() - 2])), None);
}

#[test]
fn signature_text() {
    assert_eq!(encode_bytes(&vec![]), text(""));
    assert_eq!(encode_bytes(&vec![0xab, 0x01, 0x00]), text("0xab0100"));
    assert_eq!(decode_bytes(&text("")), Some(vec![]));
    assert_eq!(decode_bytes(&text("0xab0100")), Some(vec![0xab, 0x01, 0x00]));
    let b: Vec<u8> = (0..=255u8).collect();
    assert_eq!(decode_bytes(&encode_bytes(&b)), Some(b));
}

#[test]
fn malformed_signature_text_rejected() {
    assert_eq!(decode_bytes(&text("0x")), None);
    assert_eq!(decode_bytes(&text("0xa")), None);
    assert_eq!(decode_bytes(&text("ab01")), None);
    assert_eq!(decode_bytes(&text("0xAB")), None);
    assert_eq!(decode_bytes(&text("0xg0")), None);
}
