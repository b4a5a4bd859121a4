use k256::ecdsa::SigningKey;
use nomad_home::base::{NomadBase, NomadState};
use nomad_home::primitives::{H160, H256};
use nomad_home::update::{
    home_domain_hash, key_address, normalize_recovery_id, Signature, SignatureError, SignedUpdate,
    Update,
};
use tiny_keccak::{Hasher, Keccak};

fn keccak(bytes: &[u8]) -> [u8; 32] {
    let mut hasher = Keccak::v256();
    hasher.update(bytes);
    let mut out = [0u8; 32];
    hasher.finalize(&mut out);
    out
}

fn key(last: u8) -> SigningKey {
    let mut secret = [0u8; 32];
    secret[31] = last;
    SigningKey::from_slice(&secret).unwrap()
}

fn address_of(key: &SigningKey) -> H160 {
    let point = key.verifying_key().to_encoded_point(false);
    let bytes: [u8; 65] = point.as_bytes().try_into().unwrap();
    key_address(&bytes)
}

fn sign_update(key: &SigningKey, update: Update, v_offset: u64) -> SignedUpdate {
    let digest = update.prepended_hash();
    let (signature, id) = key.sign_prehash_recoverable(&digest.0).unwrap();
    let r: [u8; 32] = signature.r().to_bytes().into();
    let s: [u8; 32] = signature.s().to_bytes().into();
    SignedUpdate {
        update,
        signature: Signature { r: H256(r), s: H256(s), v: id.to_byte() as u64 + v_offset },
    }
}

fn sample_update() -> Update {
    Update { home_domain: 1000, previous_root: H256([1; 32]), new_root: H256([2; 32]) }
}

#[test]
fn address_of_the_key_one() {
    let expected: [u8; 20] = [
        0x7e, 0x5f, 0x45, 0x52, 0x09, 0x1a, 0x69, 0x12, 0x5d, 0x5d, 0xfc, 0xb7, 0xb8, 0xc2,
        0x65, 0x90, 0x29, 0x39, 0x5b, 0xdf,
    ];
    assert_eq!(address_of(&key(1)), H160(expected));
}

#[test]
fn recovery_values_are_normalized() {
    assert_eq!(normalize_recovery_id(0), 0);
    assert_eq!(normalize_recovery_id(1), 1);
    assert_eq!(normalize_recovery_id(27), 0);
    assert_eq!(normalize_recovery_id(28), 1);
    assert_eq!(normalize_recovery_id(35), 0);
    assert_eq!(normalize_recovery_id(36), 1);
    assert_eq!(normalize_recovery_id(37), 0);
    assert_eq!(normalize_recovery_id(u64::MAX), 0);
    assert_eq!(normalize_recovery_id(2), 4);
    assert_eq!(normalize_recovery_id(26), 4);
    assert_eq!(normalize_recovery_id(29), 4);
    assert_eq!(normalize_recovery_id(34), 4);
}

#[test]
fn home_domain_hash_is_keccak_of_domain_and_tag() {
    let mut bytes = vec![0x00, 0x00, 0x03, 0xe8];
    bytes.extend_from_slice(b"NOMAD");
    assert_eq!(home_domain_hash(1000), H256(keccak(&bytes)));
}

#[test]
fn signing_hash_is_keccak_of_domain_hash_and_roots() {
    let update = sample_update();
    let mut bytes = home_domain_hash(1000).0.to_vec();
    bytes.extend_from_slice(&[1; 32]);
    bytes.extend_from_slice(&[2; 32]);
    assert_eq!(update.signing_hash(), H256(keccak(&bytes)));
}

#[test]
fn prepended_hash_is_keccak_of_prefix_and_signing_hash() {
    let update = sample_update();
    let mut bytes = b"\x19Ethereum Signed Message:\n32".to_vec();
    bytes.extend_from_slice(&update.signing_hash().0);
    assert_eq!(update.prepended_hash(), H256(keccak(&bytes)));
}

#[test]
fn signature_encoding_is_r_s_v() {
    let signature = Signature { r: H256([3; 32]), s: H256([4; 32]), v: 0x11c };
    let bytes = signature.to_vec();
    assert_eq!(bytes.len(), 65);
    assert_eq!(&bytes[..32], &[3u8; 32]);
    assert_eq!(&bytes[32..64], &[4u8; 32]);
    assert_eq!(bytes[64], 0x1c);
}

#[test]
fn recover_gives_the_signer() {
    let signer = key(7);
    for offset in [0u64, 27, 35, 37, 1000001] {
        let signed = sign_update(&signer, sample_update(), offset);
        assert_eq!(signed.recover(), Ok(address_of(&signer)));
    }
}

#[test]
fn recover_tells_signers_apart() {
    let signed = sign_update(&key(7), sample_update(), 27);
    assert_eq!(signed.recover(), Ok(address_of(&key(7))));
    assert_ne!(signed.recover(), Ok(address_of(&key(8))));
    assert_eq!(signed.previous_root(), H256([1; 32]));
    assert_eq!(signed.new_root(), H256([2; 32]));
}

#[test]
fn recover_over_another_update_gives_another_signer() {
    let signed = sign_update(&key(7), sample_update(), 0);
    let moved = SignedUpdate {
        update: Update { new_root: H256([9; 32]), ..signed.update },
        signature: signed.signature,
    };
    assert_ne!(moved.recover(), Ok(address_of(&key(7))));
}

#[test]
fn recover_refuses_an_unknown_recovery_value() {
    let mut signed = sign_update(&key(7), sample_update(), 0);
    signed.signature.v = 5;
    assert_eq!(signed.recover(), Err(SignatureError::InvalidRecoveryId));
}

#[test]
fn recover_refuses_zero_scalars() {
    let mut signed = sign_update(&key(7), sample_update(), 0);
    signed.signature.r = H256([0; 32]);
    assert_eq!(signed.recover(), Err(SignatureError::RecoveryFailed));
    let mut signed = sign_update(&key(7), sample_update(), 0);
    signed.signature.s = H256([0; 32]);
    assert_eq!(signed.recover(), Err(SignatureError::RecoveryFailed));
    let mut signed = sign_update(&key(7), sample_update(), 0);
    signed.signature.r = H256([0xff; 32]);
    assert_eq!(signed.recover(), Err(SignatureError::RecoveryFailed));
}

#[test]
fn base_starts_active() {
    let base = NomadBase::new(1000, H256([5; 32]), address_of(&key(7)));
    assert_eq!(base.state, NomadState::Active);
    assert_eq!(base.local_domain, 1000);
    assert_eq!(base.committed_root, H256([5; 32]));
    assert_eq!(base.updater, address_of(&key(7)));
}

#[test]
fn base_sets_the_committed_root() {
    let mut base = NomadBase::new(1000, H256([5; 32]), address_of(&key(7)));
    base.set_committed_root(H256([6; 32]));
    assert_eq!(base.committed_root, H256([6; 32]));
    assert_eq!(base.state, NomadState::Active);
    assert_eq!(base.local_domain, 1000);
    assert_eq!(base.updater, address_of(&key(7)));
}

#[test]
fn base_knows_its_updater_signature() {
    let base = NomadBase::new(1000, H256([1; 32]), address_of(&key(7)));
    assert_eq!(base.is_updater_signature(&sign_update(&key(7), sample_update(), 27)), Ok(true));
    assert_eq!(base.is_updater_signature(&sign_update(&key(8), sample_update(), 27)), Ok(false));
    let mut broken = sign_update(&key(7), sample_update(), 27);
    broken.signature.v = 30;
    assert_eq!(base.is_updater_signature(&broken), Err(SignatureError::InvalidRecoveryId));
}
