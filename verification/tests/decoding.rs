use ether_deck::decoder::{decode, decode_syscall};
use ether_deck::encoder::{encode, encode_set_auth, encode_syscall};
use ether_deck::error::Error;
use ether_deck::structures::{
    Address, Encoding, SetShard, SetThreshold, Signature, Uint256, Uint64,
};

fn parsed_address(s: &str) -> Address {
    let account = s.parse::<ethers::types::Address>().unwrap();
    Address { bytes: account.to_fixed_bytes() }
}

/// A `syscall` calldata string with an empty payload and the given
/// trailing region.
fn syscall_calldata(trailing: &[u8]) -> Vec<u8> {
    let mut data = vec![0u8, 0, 0, 4];
    data.extend_from_slice(&[0u8; 32]); // id
    data.extend_from_slice(&[0u8; 20]); // target
    data.extend_from_slice(&[0u8; 11]); // value
    data.extend_from_slice(&[0u8; 8]); // deadline
    data.extend_from_slice(&[0u8; 4]); // payload length 0
    data.extend_from_slice(trailing);
    data
}

#[test]
fn test_decode_set_auth_lengths() {
    let account = parsed_address("0xf39Fd6e51aad88F6F4ce6aB8827279cffFb92266");
    let encoded = encode_set_auth(&account, true);
    assert_eq!(encoded.len(), 25);

    let mut short = encoded.clone();
    short.pop();
    assert_eq!(decode(&short).unwrap_err(), Error::CalldataLength);

    let mut long = encoded.clone();
    long.push(0);
    assert_eq!(decode(&long).unwrap_err(), Error::CalldataLength);

    match decode(&encoded).unwrap() {
        Encoding::SetAuth(v) => {
            assert_eq!(v.account().bytes, account.bytes);
            assert!(v.authorized());
        }
        _ => panic!("wrong variant"),
    }
}

#[test]
fn test_decode_signature_chunking() {
    let mut two_sigs = [0xaau8; 130];
    for i in 65..130 {
        two_sigs[i] = 0xbb;
    }
    let sys = decode_syscall(&syscall_calldata(&two_sigs)).unwrap();
    assert_eq!(sys.signatures().len(), 2);
    assert_eq!(sys.signatures()[0].bytes, [0xaa; 65]);
    assert_eq!(sys.signatures()[1].bytes, [0xbb; 65]);

    assert_eq!(
        decode_syscall(&syscall_calldata(&[0u8; 64])).unwrap_err(),
        Error::MalformedCalldata
    );
    assert_eq!(
        decode_syscall(&syscall_calldata(&[0u8; 66])).unwrap_err(),
        Error::MalformedCalldata
    );
}

#[test]
fn test_decode_selector_mismatch() {
    assert_eq!(decode(&[0, 0, 0, 5]).unwrap_err(), Error::SelectorMismatch);
    assert_eq!(
        decode(&[0, 0, 0, 5, 9, 9, 9, 9, 9]).unwrap_err(),
        Error::SelectorMismatch
    );
    assert_eq!(decode(&[0, 0, 0]).unwrap_err(), Error::CalldataLength);
}

#[test]
fn test_round_trip_set_threshold() {
    let encoded = encode(&Encoding::SetThreshold(SetThreshold::new(3))).unwrap();
    match decode(&encoded).unwrap() {
        Encoding::SetThreshold(v) => assert_eq!(v.threshold(), 3),
        _ => panic!("wrong variant"),
    }
}

#[test]
fn test_round_trip_set_shard() {
    let shard = parsed_address("0x70997970C51812dc3A010C7d01b50e0d17dc79C8");
    let op = SetShard::new(&[9, 8, 7, 6], &shard);
    let encoded = encode(&Encoding::SetShard(op)).unwrap();
    assert_eq!(encoded.len(), 28);
    match decode(&encoded).unwrap() {
        Encoding::SetShard(v) => {
            assert_eq!(*v.selector(), [9, 8, 7, 6]);
            assert_eq!(v.shard().bytes, shard.bytes);
        }
        _ => panic!("wrong variant"),
    }
}

#[test]
fn test_round_trip_syscall() {
    let id = Uint256::from_u64(42);
    let target = parsed_address("0xf39Fd6e51aad88F6F4ce6aB8827279cffFb92266");
    let value = Uint256::from_u64(123456789);
    let deadline = Uint64::from_u64(1700000000);
    let payload = [1u8, 2, 3, 4, 5];
    let sigs = [Signature { bytes: [0x11; 65] }, Signature { bytes: [0x22; 65] }];

    let encoded = encode_syscall(&id, &target, &value, &deadline, &payload, &sigs).unwrap();
    let sys = decode_syscall(&encoded).unwrap();

    assert_eq!(sys.id().bytes, id.bytes);
    assert_eq!(sys.target().bytes, target.bytes);
    assert_eq!(sys.value().bytes, value.bytes);
    assert_eq!(sys.deadline().bytes, deadline.bytes);
    assert_eq!(sys.payload(), payload);
    assert_eq!(sys.signatures().len(), 2);
    assert_eq!(sys.signatures()[0].bytes, [0x11; 65]);
    assert_eq!(sys.signatures()[1].bytes, [0x22; 65]);
}
