//! Fixed-size byte strings: digests, addresses and account identifiers.

use vstd::prelude::*;

verus! {

/// A 256-bit digest: a message hash, a tree node or a tree root.
#[derive(Clone, Copy, Debug)]
pub struct H256(pub [u8; 32]);

/// A 160-bit address of a signer.
#[derive(Clone, Copy, Debug)]
pub struct H160(pub [u8; 20]);

/// The identifier of an authenticated caller.
#[derive(Clone, Copy, Debug)]
pub struct AccountId(pub [u8; 32]);

impl View for H256 {
    type V = Seq<u8>;

    open spec fn view(&self) -> Seq<u8> {
        self.0@
    }
}

impl View for H160 {
    type V = Seq<u8>;

    open spec fn view(&self) -> Seq<u8> {
        self.0@
    }
}

impl View for AccountId {
    type V = Seq<u8>;

    open spec fn view(&self) -> Seq<u8> {
        self.0@
    }
}

/// Two byte strings of the same fixed length are the same value exactly when
/// they agree byte by byte.
pub proof fn lemma_h256_ext(a: H256, b: H256)
    ensures
        (a == b) <==> (a@ == b@),
{
    if a@ == b@ {
        assert forall|i: int| 0 <= i < 32 implies a.0[i] == b.0[i] by {
            assert(a.0[i] == a@[i]);
            assert(b.0[i] == b@[i]);
        }
        assert(a.0 =~= b.0);
    }
}

/// See [`lemma_h256_ext`].
pub proof fn lemma_h160_ext(a: H160, b: H160)
    ensures
        (a == b) <==> (a@ == b@),
{
    if a@ == b@ {
        assert forall|i: int| 0 <= i < 20 implies a.0[i] == b.0[i] by {
            assert(a.0[i] == a@[i]);
            assert(b.0[i] == b@[i]);
        }
        assert(a.0 =~= b.0);
    }
}

/// See [`lemma_h256_ext`].
pub proof fn lemma_account_ext(a: AccountId, b: AccountId)
    ensures
        (a == b) <==> (a@ == b@),
{
    if a@ == b@ {
        assert forall|i: int| 0 <= i < 32 implies a.0[i] == b.0[i] by {
            assert(a.0[i] == a@[i]);
            assert(b.0[i] == b@[i]);
        }
        assert(a.0 =~= b.0);
    }
}

/// The four bytes of `x`, most significant first.
pub open spec fn u32_be_bytes(x: u32) -> Seq<u8> {
    seq![
        (x / 0x100_0000) as u8,
        (x / 0x1_0000 % 0x100) as u8,
        (x / 0x100 % 0x100) as u8,
        (x % 0x100) as u8,
    ]
}

/// A vector that holds `bytes`.
pub fn copy_bytes(bytes: &[u8]) -> (copy: Vec<u8>)
    ensures
        copy@ == bytes@,
{
    let mut copy: Vec<u8> = Vec::new();
    append_bytes(&mut copy, bytes);
    copy
}

/// Appends the four bytes of `x`, most significant first, to `buf`.
pub fn append_u32_be(buf: &mut Vec<u8>, x: u32)
    ensures
        final(buf)@ == old(buf)@ + u32_be_bytes(x),
{
    buf.push((x / 0x100_0000) as u8);
    buf.push((x / 0x1_0000 % 0x100) as u8);
    buf.push((x / 0x100 % 0x100) as u8);
    buf.push((x % 0x100) as u8);
    assert(buf@ =~= old(buf)@ + u32_be_bytes(x));
}

/// Whether two byte slices hold the same bytes.
pub fn bytes_eq(a: &[u8], b: &[u8]) -> (same: bool)
    ensures
        same == (a@ == b@),
{
    if a.len() != b.len() {
        return false;
    }
    let mut i: usize = 0;
    while i < a.len()
        invariant
            a@.len() == b@.len(),
            i <= a@.len(),
            forall|j: int| 0 <= j < i ==> a@[j] == b@[j],
        decreases a@.len() - i,
    {
        if a[i] != b[i] {
            return false;
        }
        i += 1;
    }
    assert(a@ =~= b@);
    true
}

/// Appends `bytes` to the end of `buf`.
pub fn append_bytes(buf: &mut Vec<u8>, bytes: &[u8])
    ensures
        final(buf)@ == old(buf)@ + bytes@,
{
    let mut i: usize = 0;
    while i < bytes.len()
        invariant
            i <= bytes@.len(),
            buf@ == old(buf)@ + bytes@.take(i as int),
        decreases bytes@.len() - i,
    {
        buf.push(bytes[i]);
        assert(bytes@.take(i + 1) =~= bytes@.take(i as int).push(bytes@[i as int]));
        assert(buf@ =~= old(buf)@ + bytes@.take(i + 1));
        i += 1;
    }
    assert(bytes@.take(i as int) =~= bytes@);
}

impl H256 {
    /// The digest whose bytes are all zero.
    pub open spec fn spec_zero() -> H256 {
        H256(vstd::array::spec_array_fill_for_copy_type::<u8, 32>(0u8))
    }

    /// The digest whose bytes are all zero.
    #[verifier::when_used_as_spec(spec_zero)]
    pub fn zero() -> (h: H256)
        ensures
            h == H256::spec_zero(),
    {
        H256([0u8; 32])
    }
}

impl PartialEq for H256 {
    fn eq(&self, other: &H256) -> (same: bool) {
        proof {
            lemma_h256_ext(*self, *other);
        }
        bytes_eq(self.0.as_slice(), other.0.as_slice())
    }
}

impl vstd::std_specs::cmp::PartialEqSpecImpl for H256 {
    open spec fn obeys_eq_spec() -> bool {
        true
    }

    open spec fn eq_spec(&self, other: &H256) -> bool {
        *self == *other
    }
}

impl Eq for H256 {}

impl H160 {
    /// The address whose bytes are all zero.
    pub open spec fn spec_zero() -> H160 {
        H160(vstd::array::spec_array_fill_for_copy_type::<u8, 20>(0u8))
    }

    /// The address whose bytes are all zero.
    #[verifier::when_used_as_spec(spec_zero)]
    pub fn zero() -> (a: H160)
        ensures
            a == H160::spec_zero(),
    {
        H160([0u8; 20])
    }

    /// The address that is made of the 20 bytes `bytes`.
    pub open spec fn spec_from_bytes(bytes: Seq<u8>) -> H160 {
        choose|a: H160| a@ == bytes
    }

    /// The address that is made of the last 20 bytes of a digest.
    pub fn from_digest_tail(digest: &[u8; 32]) -> (a: H160)
        ensures
            a@ == digest@.subrange(12, 32),
            a == H160::spec_from_bytes(digest@.subrange(12, 32)),
    {
        let mut bytes = [0u8; 20];
        let mut i: usize = 0;
        while i < 20
            invariant
                i <= 20,
                forall|j: int| 0 <= j < i ==> bytes@[j] == digest@[12 + j],
            decreases 20 - i,
        {
            bytes[i] = digest[12 + i];
            i += 1;
        }
        let a = H160(bytes);
        assert(a@ =~= digest@.subrange(12, 32));
        proof {
            lemma_h160_ext(a, H160::spec_from_bytes(digest@.subrange(12, 32)));
        }
        a
    }
}

impl PartialEq for H160 {
    fn eq(&self, other: &H160) -> (same: bool) {
        proof {
            lemma_h160_ext(*self, *other);
        }
        bytes_eq(self.0.as_slice(), other.0.as_slice())
    }
}

impl vstd::std_specs::cmp::PartialEqSpecImpl for H160 {
    open spec fn obeys_eq_spec() -> bool {
        true
    }

    open spec fn eq_spec(&self, other: &H160) -> bool {
        *self == *other
    }
}

impl Eq for H160 {}

impl AccountId {
    /// The same 32 bytes as a digest-sized value.
    pub fn into_h256(self) -> (h: H256)
        ensures
            h == H256(self.0),
    {
        H256(self.0)
    }
}

impl PartialEq for AccountId {
    fn eq(&self, other: &AccountId) -> (same: bool) {
        proof {
            lemma_account_ext(*self, *other);
        }
        bytes_eq(self.0.as_slice(), other.0.as_slice())
    }
}

impl vstd::std_specs::cmp::PartialEqSpecImpl for AccountId {
    open spec fn obeys_eq_spec() -> bool {
        true
    }

    open spec fn eq_spec(&self, other: &AccountId) -> bool {
        *self == *other
    }
}

impl Eq for AccountId {}

} // verus!
