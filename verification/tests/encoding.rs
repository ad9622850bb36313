use ether_deck::encoder::{
    encode_set_auth, encode_set_shard, encode_set_threshold, encode_syscall,
};
use ether_deck::error::Error;
use ether_deck::structures::{Address, Signature, Uint256, Uint64};

fn parsed_address(s: &str) -> Address {
    let account = s.parse::<ethers::types::Address>().unwrap();
    Address { bytes: account.to_fixed_bytes() }
}

#[test]
fn test_encode_set_auth() {
    let account = parsed_address("0xf39Fd6e51aad88F6F4ce6aB8827279cffFb92266");
    let authorized = true;
    let encoded = encode_set_auth(&account, authorized);

    assert_eq!(encoded.len(), 25);
    assert_eq!(encoded[0..4], [0, 0, 0, 1]);
    assert_eq!(encoded[4..24], account.bytes);
    assert_eq!(encoded[24], authorized as u8);
}

#[test]
fn test_encode_set_threshold() {
    let threshold = 2;
    let encoded = encode_set_threshold(threshold);

    assert_eq!(encoded.len(), 5);
    assert_eq!(encoded[0..4], [0, 0, 0, 2]);
}

#[test]
fn test_encode_set_shard() {
    let selector = &[1, 2, 3, 4];
    let shard = parsed_address("0xf39Fd6e51aad88F6F4ce6aB8827279cffFb92266");
    let encoded = encode_set_shard(selector, &shard);

    assert_eq!(encoded.len(), 28);
    assert_eq!(encoded[0..4], [0, 0, 0, 3]);
    assert_eq!(encoded[4..8], *selector);
    assert_eq!(encoded[8..28], shard.bytes);
}

#[test]
fn test_encode_syscall_layout() {
    let id = Uint256::from_u64(7);
    let target = parsed_address("0xf39Fd6e51aad88F6F4ce6aB8827279cffFb92266");
    let value = Uint256::from_u64(1000);
    let deadline = Uint64::from_u64(99999);
    let payload = [0xaa, 0xbb, 0xcc];
    let sigs = [Signature { bytes: [0x11; 65] }];
    let encoded = encode_syscall(&id, &target, &value, &deadline, &payload, &sigs).unwrap();

    assert_eq!(encoded.len(), 79 + 3 + 65);
    assert_eq!(encoded[0..4], [0, 0, 0, 4]);
    assert_eq!(encoded[4..36], id.bytes);
    assert_eq!(encoded[36..56], target.bytes);
    assert_eq!(encoded[56..67], value.bytes[21..32]);
    assert_eq!(encoded[67..75], deadline.bytes);
    assert_eq!(encoded[75..79], [0, 0, 0, 3]);
    assert_eq!(encoded[79..82], payload);
    assert_eq!(encoded[82..147], [0x11; 65]);
}

#[test]
fn test_encode_syscall_value_boundary() {
    let id = Uint256::from_u64(1);
    let target = parsed_address("0xf39Fd6e51aad88F6F4ce6aB8827279cffFb92266");
    let deadline = Uint64::from_u64(1);

    // 2^88 - 1: the 11 low bytes all set.
    let mut max_bytes = [0u8; 32];
    for i in 21..32 {
        max_bytes[i] = 0xff;
    }
    let max_value = Uint256::new(max_bytes);
    assert!(encode_syscall(&id, &target, &max_value, &deadline, &[], &[]).is_ok());

    // 2^88: one bit just above the low 11 bytes.
    let mut over_bytes = [0u8; 32];
    over_bytes[20] = 1;
    let over_value = Uint256::new(over_bytes);
    assert_eq!(
        encode_syscall(&id, &target, &over_value, &deadline, &[], &[]).unwrap_err(),
        Error::CallValueOverflow
    );
}
