//! Attested root transitions and the recovery of who signed them.

use crate::keccak::{keccak256, keccak256_of};
use crate::primitives::{append_bytes, append_u32_be, u32_be_bytes, H160, H256};
use vstd::prelude::*;

verus! {

/// The claim that the committed root of `home_domain` moves from
/// `previous_root` to `new_root`.
#[derive(Clone, Copy, Debug)]
pub struct Update {
    /// The domain whose root moves.
    pub home_domain: u32,
    /// The root that is committed now.
    pub previous_root: H256,
    /// The root to commit.
    pub new_root: H256,
}

/// A recoverable ECDSA signature over secp256k1.
#[derive(Clone, Copy, Debug)]
pub struct Signature {
    /// The scalar `r`, most significant byte first.
    pub r: H256,
    /// The scalar `s`, most significant byte first.
    pub s: H256,
    /// The recovery value: 0 or 1, 27 or 28, or 35 and above with the parity
    /// in its last digit.
    pub v: u64,
}

/// An update with the signature that attests it.
#[derive(Clone, Copy, Debug)]
pub struct SignedUpdate {
    /// What is attested.
    pub update: Update,
    /// By whom.
    pub signature: Signature,
}

/// Why no signer could be recovered from a signature.
#[derive(Clone, Copy, Debug, PartialEq, Eq, Structural)]
pub enum SignatureError {
    /// The recovery value names no recovery id.
    InvalidRecoveryId,
    /// No public key signs the digest with this signature.
    RecoveryFailed,
}

/// The SEC1 uncompressed encoding of the secp256k1 public key that signed
/// `prehash` with the scalars `r` and `s`, as `recovery_id` selects it, or
/// `None` where there is no such key.
pub uninterp spec fn secp256k1_recover(
    prehash: Seq<u8>,
    r: Seq<u8>,
    s: Seq<u8>,
    recovery_id: u8,
) -> Option<[u8; 65]>;

/// Recovers the signing key with `k256`: `ecdsa::Signature::from_scalars`
/// reads `r` and `s`, `ecdsa::RecoveryId::from_byte` reads the recovery id,
/// `ecdsa::VerifyingKey::recover_from_prehash` recovers the key, and
/// `to_encoded_point(false)` encodes it. Any step that fails gives `None`.
/// The result depends on the four arguments alone, which is all the
/// contract claims of it.
#[verifier::external_body]
pub(crate) fn recover_key(prehash: &[u8; 32], r: &[u8; 32], s: &[u8; 32], recovery_id: u8) -> (key:
    Option<[u8; 65]>)
    ensures
        key == secp256k1_recover(prehash@, r@, s@, recovery_id),
{
    let signature = k256::ecdsa::Signature::from_scalars(*r, *s).ok()?;
    let id = k256::ecdsa::RecoveryId::from_byte(recovery_id)?;
    let key = k256::ecdsa::VerifyingKey::recover_from_prehash(prehash, &signature, id).ok()?;
    key.to_encoded_point(false).as_bytes().try_into().ok()
}

/// The bytes of the text `NOMAD`.
pub open spec fn domain_tag() -> Seq<u8> {
    seq![0x4eu8, 0x4fu8, 0x4du8, 0x41u8, 0x44u8]
}

/// The bytes of the text that precedes a signed 32-byte message: the byte
/// 0x19, `Ethereum Signed Message:`, a line feed, and `32`.
pub open spec fn signed_message_prefix() -> Seq<u8> {
    seq![
        0x19u8, 0x45u8, 0x74u8, 0x68u8, 0x65u8, 0x72u8, 0x65u8, 0x75u8, 0x6du8, 0x20u8, 0x53u8,
        0x69u8, 0x67u8, 0x6eu8, 0x65u8, 0x64u8, 0x20u8, 0x4du8, 0x65u8, 0x73u8, 0x73u8, 0x61u8,
        0x67u8, 0x65u8, 0x3au8, 0x0au8, 0x33u8, 0x32u8,
    ]
}

/// The digest that stands for a domain in what its updater signs.
pub open spec fn spec_home_domain_hash(home_domain: u32) -> H256 {
    H256(keccak256(u32_be_bytes(home_domain) + domain_tag()))
}

/// The digest that stands for a domain in what its updater signs: the
/// Keccak-256 digest of the domain, most significant byte first, and the
/// text `NOMAD`.
#[verifier::when_used_as_spec(spec_home_domain_hash)]
pub fn home_domain_hash(home_domain: u32) -> (h: H256)
    ensures
        h == spec_home_domain_hash(home_domain),
{
    let mut buf: Vec<u8> = Vec::new();
    append_u32_be(&mut buf, home_domain);
    let tag: [u8; 5] = [0x4eu8, 0x4fu8, 0x4du8, 0x41u8, 0x44u8];
    assert(tag@ =~= domain_tag());
    append_bytes(&mut buf, tag.as_slice());
    H256(keccak256_of(buf.as_slice()))
}

/// The recovery id, 0 to 3, that a recovery value stands for, or 4 where it
/// stands for none.
pub open spec fn spec_normalize_recovery_id(v: u64) -> u8 {
    if v == 0 || v == 27 {
        0
    } else if v == 1 || v == 28 {
        1
    } else if v >= 35 {
        ((v - 1) % 2) as u8
    } else {
        4
    }
}

/// The recovery id, 0 to 3, that a recovery value stands for, or 4 where it
/// stands for none.
#[verifier::when_used_as_spec(spec_normalize_recovery_id)]
pub fn normalize_recovery_id(v: u64) -> (id: u8)
    ensures
        id == spec_normalize_recovery_id(v),
{
    if v == 0 || v == 27 {
        0
    } else if v == 1 || v == 28 {
        1
    } else if v >= 35 {
        ((v - 1) % 2) as u8
    } else {
        4
    }
}

/// The address of a public key in SEC1 uncompressed encoding: the last 20
/// bytes of the Keccak-256 digest of the key without its leading tag byte.
pub open spec fn spec_key_address(key: [u8; 65]) -> H160 {
    H160::spec_from_bytes(keccak256(key@.subrange(1, 65))@.subrange(12, 32))
}

/// The address of a public key in SEC1 uncompressed encoding.
pub fn key_address(key: &[u8; 65]) -> (address: H160)
    ensures
        address == spec_key_address(*key),
{
    let mut buf: Vec<u8> = Vec::new();
    let mut i: usize = 1;
    while i < 65
        invariant
            1 <= i <= 65,
            buf@ == key@.subrange(1, i as int),
        decreases 65 - i,
    {
        buf.push(key[i]);
        assert(buf@ =~= key@.subrange(1, i + 1));
        i += 1;
    }
    let digest = keccak256_of(buf.as_slice());
    H160::from_digest_tail(&digest)
}

impl Update {
    /// The digest of the update itself.
    pub open spec fn spec_signing_hash(&self) -> H256 {
        H256(
            keccak256(
                spec_home_domain_hash(self.home_domain)@ + self.previous_root@ + self.new_root@,
            ),
        )
    }

    /// The digest of the update itself: the Keccak-256 digest of the hash of
    /// its domain, its previous root and its new root.
    #[verifier::when_used_as_spec(spec_signing_hash)]
    pub fn signing_hash(&self) -> (h: H256)
        ensures
            h == self.spec_signing_hash(),
    {
        let domain = home_domain_hash(self.home_domain);
        let mut buf: Vec<u8> = Vec::new();
        append_bytes(&mut buf, domain.0.as_slice());
        append_bytes(&mut buf, self.previous_root.0.as_slice());
        append_bytes(&mut buf, self.new_root.0.as_slice());
        H256(keccak256_of(buf.as_slice()))
    }

    /// The digest that the updater signs.
    pub open spec fn spec_prepended_hash(&self) -> H256 {
        H256(keccak256(signed_message_prefix() + self.spec_signing_hash()@))
    }

    /// The digest that the updater signs: the Keccak-256 digest of the
    /// signed-message prefix and the update's own digest.
    #[verifier::when_used_as_spec(spec_prepended_hash)]
    pub fn prepended_hash(&self) -> (h: H256)
        ensures
            h == self.spec_prepended_hash(),
    {
        let inner = self.signing_hash();
        let prefix: [u8; 28] = [
            0x19u8, 0x45u8, 0x74u8, 0x68u8, 0x65u8, 0x72u8, 0x65u8, 0x75u8, 0x6du8, 0x20u8, 0x53u8,
            0x69u8, 0x67u8, 0x6eu8, 0x65u8, 0x64u8, 0x20u8, 0x4du8, 0x65u8, 0x73u8, 0x73u8, 0x61u8,
            0x67u8, 0x65u8, 0x3au8, 0x0au8, 0x33u8, 0x32u8,
        ];
        assert(prefix@ =~= signed_message_prefix());
        let mut buf: Vec<u8> = Vec::new();
        append_bytes(&mut buf, prefix.as_slice());
        append_bytes(&mut buf, inner.0.as_slice());
        H256(keccak256_of(buf.as_slice()))
    }
}

impl Signature {
    /// The 65 bytes of the signature: `r`, `s`, and the lowest byte of `v`.
    pub open spec fn encoding(&self) -> Seq<u8> {
        self.r@ + self.s@ + seq![(self.v % 0x100) as u8]
    }

    /// Serializes the signature.
    pub fn to_vec(&self) -> (bytes: Vec<u8>)
        ensures
            bytes@ == self.encoding(),
    {
        let mut buf: Vec<u8> = Vec::new();
        append_bytes(&mut buf, self.r.0.as_slice());
        append_bytes(&mut buf, self.s.0.as_slice());
        buf.push((self.v % 0x100) as u8);
        assert(buf@ =~= self.encoding());
        buf
    }
}

/// What recovering the signer of `update` gives, when the key recovery
/// itself gave `key`.
pub open spec fn signer_from_key(v: u64, key: Option<[u8; 65]>) -> Result<H160, SignatureError> {
    if spec_normalize_recovery_id(v) > 3 {
        Err(SignatureError::InvalidRecoveryId)
    } else {
        match key {
            Some(k) => Ok(spec_key_address(k)),
            None => Err(SignatureError::RecoveryFailed),
        }
    }
}

impl SignedUpdate {
    /// The root that the update moves away from.
    pub fn previous_root(&self) -> (root: H256)
        ensures
            root == self.update.previous_root,
    {
        self.update.previous_root
    }

    /// The root that the update moves to.
    pub fn new_root(&self) -> (root: H256)
        ensures
            root == self.update.new_root,
    {
        self.update.new_root
    }

    /// The address that signed this update, or why there is none.
    pub open spec fn spec_recover(&self) -> Result<H160, SignatureError> {
        signer_from_key(
            self.signature.v,
            secp256k1_recover(
                self.update.spec_prepended_hash()@,
                self.signature.r@,
                self.signature.s@,
                spec_normalize_recovery_id(self.signature.v),
            ),
        )
    }

    /// Recovers the address that signed this update.
    #[verifier::when_used_as_spec(spec_recover)]
    pub fn recover(&self) -> (signer: Result<H160, SignatureError>)
        ensures
            signer == self.spec_recover(),
    {
        let id = normalize_recovery_id(self.signature.v);
        if id > 3 {
            return Err(SignatureError::InvalidRecoveryId);
        }
        let digest = self.update.prepended_hash();
        match recover_key(&digest.0, &self.signature.r.0, &self.signature.s.0, id) {
            Some(key) => Ok(key_address(&key)),
            None => Err(SignatureError::RecoveryFailed),
        }
    }
}

} // verus!
