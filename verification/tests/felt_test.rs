use blockifier::cell_map::CellKey;
use blockifier::felt::{
    ClassHash, ContractAddress, ContractStorageKey, FeltError, Nonce, StarkFelt, StorageKey,
};

#[test]
fn new_keeps_the_bytes() {
    let mut bytes = [0u8; 32];
    bytes[0] = 0x0f;
    bytes[31] = 0x2a;

    let felt = StarkFelt::new(bytes).unwrap();

    assert_eq!(felt.bytes(), &bytes);
}

#[test]
fn new_rejects_a_set_top_nibble() {
    let mut bytes = [0u8; 32];
    bytes[0] = 0x10;
    assert_eq!(StarkFelt::new(bytes), Err(FeltError::OutOfRange));

    let all_set = [0xffu8; 32];
    assert_eq!(StarkFelt::new(all_set), Err(FeltError::OutOfRange));
}

#[test]
fn default_is_zero() {
    assert_eq!(StarkFelt::default().bytes(), &[0u8; 32]);
    assert_eq!(ContractAddress::default(), ContractAddress(StarkFelt::default()));
    assert_eq!(StorageKey::default(), StorageKey(StarkFelt::default()));
    assert_eq!(Nonce::default(), Nonce(StarkFelt::default()));
    assert_eq!(ClassHash::default(), ClassHash(StarkFelt::default()));
}

#[test]
fn from_be_bytes_pads_short_input() {
    let felt = StarkFelt::from_be_bytes(&[0x01, 0x02]).unwrap();

    let mut expected = [0u8; 32];
    expected[30] = 0x01;
    expected[31] = 0x02;
    assert_eq!(felt.bytes(), &expected);
}

#[test]
fn from_be_bytes_of_nothing_is_zero() {
    assert_eq!(StarkFelt::from_be_bytes(&[]), Ok(StarkFelt::default()));
    assert_eq!(StarkFelt::from_be_bytes(&[0, 0, 0]), Ok(StarkFelt::default()));
}

#[test]
fn from_be_bytes_drops_leading_zeros() {
    let mut long = vec![0u8; 40];
    long[8] = 0x0f;
    long[39] = 0x07;

    let felt = StarkFelt::from_be_bytes(&long).unwrap();

    let mut expected = [0u8; 32];
    expected[0] = 0x0f;
    expected[31] = 0x07;
    assert_eq!(felt.bytes(), &expected);
}

#[test]
fn from_be_bytes_rejects_what_does_not_fit() {
    // 2^252 itself.
    let mut bound = [0u8; 32];
    bound[0] = 0x10;
    assert_eq!(StarkFelt::from_be_bytes(&bound), Err(FeltError::OutOfRange));

    // 33 significant bytes.
    let mut long = vec![0u8; 33];
    long[0] = 0x01;
    assert_eq!(StarkFelt::from_be_bytes(&long), Err(FeltError::OutOfRange));

    // Leading zeros before 33 significant bytes.
    let mut padded = vec![0u8; 50];
    padded[17] = 0x01;
    assert_eq!(StarkFelt::from_be_bytes(&padded), Err(FeltError::OutOfRange));
}

#[test]
fn from_be_bytes_accepts_the_largest_element() {
    let mut largest = [0xffu8; 32];
    largest[0] = 0x0f;

    let felt = StarkFelt::from_be_bytes(&largest).unwrap();

    assert_eq!(felt.bytes(), &largest);
}

#[test]
fn same_compares_all_bytes() {
    let mut low = [0u8; 32];
    low[31] = 1;
    let mut high = [0u8; 32];
    high[0] = 1;
    let low = StarkFelt::new(low).unwrap();
    let high = StarkFelt::new(high).unwrap();

    assert!(low.same(&low));
    assert!(high.same(&high));
    assert!(!low.same(&high));
    assert!(!high.same(&low));
    assert!(!low.same(&StarkFelt::default()));
}

#[test]
fn cell_keys_compare_every_part() {
    let one = StarkFelt::from_be_bytes(&[1]).unwrap();
    let two = StarkFelt::from_be_bytes(&[2]).unwrap();
    let cell = ContractStorageKey(ContractAddress(one), StorageKey(two));

    assert!(cell.same_cell(&ContractStorageKey(ContractAddress(one), StorageKey(two))));
    assert!(!cell.same_cell(&ContractStorageKey(ContractAddress(two), StorageKey(two))));
    assert!(!cell.same_cell(&ContractStorageKey(ContractAddress(one), StorageKey(one))));
    assert!(!cell.same_cell(&ContractStorageKey(ContractAddress(two), StorageKey(one))));
    assert!(ContractAddress(one).same_cell(&ContractAddress(one)));
    assert!(!ContractAddress(one).same_cell(&ContractAddress(two)));
}

#[test]
fn new_accepts_what_starknet_api_accepts() {
    for first in [0x00u8, 0x01, 0x0f, 0x10, 0x11, 0x7f, 0x80, 0xff] {
        for last in [0x00u8, 0x01, 0xff] {
            let mut bytes = [0u8; 32];
            bytes[0] = first;
            bytes[31] = last;

            let ours = StarkFelt::new(bytes);
            let theirs = starknet_api::hash::StarkFelt::new(bytes);

            assert_eq!(ours.is_ok(), theirs.is_ok(), "for first byte {first:#x}");
            if let (Ok(ours), Ok(theirs)) = (ours, theirs) {
                assert_eq!(&ours.bytes()[..], theirs.bytes());
            }
        }
    }
}

#[test]
fn default_is_the_default_of_starknet_api() {
    assert_eq!(&StarkFelt::default().bytes()[..], starknet_api::hash::StarkFelt::default().bytes());
}
