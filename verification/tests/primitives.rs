use nomad_home::primitives::{
    append_bytes, append_u32_be, bytes_eq, copy_bytes, AccountId, H160, H256,
};
use nomad_home::{Error, Event};

#[test]
fn zero_values_are_all_zero() {
    assert_eq!(H256::zero().0, [0u8; 32]);
    assert_eq!(H160::zero().0, [0u8; 20]);
}

#[test]
fn digests_compare_byte_by_byte() {
    let a = H256([7; 32]);
    let mut b = H256([7; 32]);
    assert_eq!(a, b);
    b.0[31] = 8;
    assert_ne!(a, b);
    b.0[31] = 7;
    b.0[0] = 8;
    assert_ne!(a, b);
}

#[test]
fn addresses_and_accounts_compare_byte_by_byte() {
    let mut a = H160([1; 20]);
    assert_eq!(a, H160([1; 20]));
    a.0[19] = 2;
    assert_ne!(a, H160([1; 20]));
    let mut who = AccountId([3; 32]);
    assert_eq!(who, AccountId([3; 32]));
    who.0[16] = 4;
    assert_ne!(who, AccountId([3; 32]));
}

#[test]
fn account_as_digest_keeps_its_bytes() {
    let mut bytes = [0u8; 32];
    for i in 0..32 {
        bytes[i] = i as u8;
    }
    assert_eq!(AccountId(bytes).into_h256(), H256(bytes));
}

#[test]
fn address_is_the_tail_of_a_digest() {
    let mut digest = [0u8; 32];
    for i in 0..32 {
        digest[i] = 100 + i as u8;
    }
    let address = H160::from_digest_tail(&digest);
    assert_eq!(address.0.to_vec(), digest[12..].to_vec());
    assert_eq!(address.0[0], 112);
    assert_eq!(address.0[19], 131);
}

#[test]
fn bytes_eq_compares_length_and_content() {
    assert!(bytes_eq(&[], &[]));
    assert!(bytes_eq(&[1, 2, 3], &[1, 2, 3]));
    assert!(!bytes_eq(&[1, 2, 3], &[1, 2]));
    assert!(!bytes_eq(&[1, 2], &[1, 2, 3]));
    assert!(!bytes_eq(&[1, 2, 3], &[1, 2, 4]));
    assert!(!bytes_eq(&[0, 2, 3], &[1, 2, 3]));
}

#[test]
fn append_bytes_appends_in_order() {
    let mut buf = vec![9u8];
    append_bytes(&mut buf, &[1, 2, 3]);
    append_bytes(&mut buf, &[]);
    append_bytes(&mut buf, &[4]);
    assert_eq!(buf, vec![9, 1, 2, 3, 4]);
    assert_eq!(copy_bytes(&[5, 6]), vec![5, 6]);
    assert_eq!(copy_bytes(&[]), Vec::<u8>::new());
}

#[test]
fn integers_are_written_most_significant_byte_first() {
    let mut buf = Vec::new();
    append_u32_be(&mut buf, 0x0102_0304);
    append_u32_be(&mut buf, 0);
    append_u32_be(&mut buf, u32::MAX);
    append_u32_be(&mut buf, 1000);
    assert_eq!(
        buf,
        vec![1, 2, 3, 4, 0, 0, 0, 0, 255, 255, 255, 255, 0, 0, 0x03, 0xe8]
    );
    for x in [0u32, 1, 255, 256, 65535, 65536, 0x00ff_ffff, 0x0100_0000, 0xdead_beef] {
        let mut buf = Vec::new();
        append_u32_be(&mut buf, x);
        assert_eq!(buf, x.to_be_bytes().to_vec());
    }
}

#[test]
fn events_compare_by_what_they_hold() {
    let dispatch = Event::Dispatch {
        message_hash: H256([1; 32]),
        leaf_index: 2,
        destination_and_nonce: 3,
        committed_root: H256([4; 32]),
        message_bytes: vec![5, 6],
    };
    assert_eq!(dispatch.clone(), dispatch);
    let mut other = dispatch.clone();
    if let Event::Dispatch { message_bytes, .. } = &mut other {
        message_bytes.push(7);
    }
    assert_ne!(other, dispatch);
    let mut other = dispatch.clone();
    if let Event::Dispatch { leaf_index, .. } = &mut other {
        *leaf_index = 9;
    }
    assert_ne!(other, dispatch);

    let update = Event::Update {
        domain: 1,
        previous_root: H256([1; 32]),
        new_root: H256([2; 32]),
        signature: vec![3; 65],
    };
    let improper = Event::ImproperUpdate {
        previous_root: H256([1; 32]),
        new_root: H256([2; 32]),
        signature: vec![3; 65],
    };
    let slashed = Event::UpdaterSlashed { updater: H160([1; 20]), reporter: AccountId([2; 32]) };
    assert_eq!(update.clone(), update);
    assert_eq!(improper.clone(), improper);
    assert_eq!(slashed.clone(), slashed);
    assert_ne!(update, improper);
    assert_ne!(improper, slashed);
    assert_ne!(slashed, dispatch);
    assert_ne!(
        slashed,
        Event::UpdaterSlashed { updater: H160([1; 20]), reporter: AccountId([3; 32]) }
    );
}

#[test]
fn errors_compare_by_variant() {
    assert_eq!(Error::FailedState, Error::FailedState);
    assert_ne!(Error::FailedState, Error::MessageTooLarge);
    assert_ne!(Error::RootNotFoundInHistory, Error::IngestionError);
    assert_ne!(Error::ArithmeticOverflow, Error::CommittedRootMismatch);
    assert_ne!(Error::InvalidUpdaterSignature, Error::SignatureRecoveryError);
}
