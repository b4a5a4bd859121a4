use nomad_home::message::{destination_and_nonce, NomadMessage};
use nomad_home::primitives::H256;
use tiny_keccak::{Hasher, Keccak};

fn keccak(bytes: &[u8]) -> [u8; 32] {
    let mut hasher = Keccak::v256();
    hasher.update(bytes);
    let mut out = [0u8; 32];
    hasher.finalize(&mut out);
    out
}

fn sample() -> NomadMessage {
    NomadMessage {
        origin: 1000,
        sender: H256([0x11; 32]),
        nonce: 0x0102_0304,
        destination: 2000,
        recipient: H256([0x22; 32]),
        body: vec![0xde, 0xad, 0xbe, 0xef],
    }
}

#[test]
fn destination_and_nonce_packs_both() {
    assert_eq!(destination_and_nonce(7, 2), 30064771074);
    assert_eq!(destination_and_nonce(0, 0), 0);
    assert_eq!(destination_and_nonce(0, 5), 5);
    assert_eq!(destination_and_nonce(1, 0), 1 << 32);
    assert_eq!(destination_and_nonce(u32::MAX, u32::MAX), u64::MAX);
    assert_eq!(destination_and_nonce(0xdead_beef, 0x0bad_cafe), 0xdead_beef_0bad_cafe);
}

#[test]
fn message_encoding_is_fixed_width_then_body() {
    let bytes = sample().to_vec();
    let mut expected = Vec::new();
    expected.extend_from_slice(&[0x00, 0x00, 0x03, 0xe8]);
    expected.extend_from_slice(&[0x11; 32]);
    expected.extend_from_slice(&[0x01, 0x02, 0x03, 0x04]);
    expected.extend_from_slice(&[0x00, 0x00, 0x07, 0xd0]);
    expected.extend_from_slice(&[0x22; 32]);
    expected.extend_from_slice(&[0xde, 0xad, 0xbe, 0xef]);
    assert_eq!(bytes, expected);
    assert_eq!(bytes.len(), 80);
}

#[test]
fn message_with_empty_body_is_76_bytes() {
    let mut message = sample();
    message.body = Vec::new();
    assert_eq!(message.to_vec().len(), 76);
}

#[test]
fn message_hash_is_keccak_of_encoding() {
    let message = sample();
    assert_eq!(message.hash(), H256(keccak(&message.to_vec())));
}

#[test]
fn message_hash_depends_on_every_field() {
    let base = sample().hash();
    let mut m = sample();
    m.origin += 1;
    assert_ne!(m.hash(), base);
    let mut m = sample();
    m.nonce += 1;
    assert_ne!(m.hash(), base);
    let mut m = sample();
    m.destination += 1;
    assert_ne!(m.hash(), base);
    let mut m = sample();
    m.sender = H256([0x12; 32]);
    assert_ne!(m.hash(), base);
    let mut m = sample();
    m.recipient = H256([0x23; 32]);
    assert_ne!(m.hash(), base);
    let mut m = sample();
    m.body.push(0);
    assert_ne!(m.hash(), base);
}
