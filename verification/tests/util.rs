use ether_deck::structures::{Uint256, Uint64};
use ether_deck::util::{u256_to_be, u64_to_be};

#[test]
pub fn test_u256_to_be_zero() {
    assert_eq!(u256_to_be(&Uint256::from_u64(0)), [0u8; 32]);
}

#[test]
pub fn test_u256_to_be_one() {
    let mut fixed = [0u8; 32];
    fixed[31] = 1;
    assert_eq!(u256_to_be(&Uint256::from_u64(1)), fixed);
}

#[test]
pub fn test_u256_to_be_max() {
    assert_eq!(u256_to_be(&Uint256::new([0xffu8; 32])), [0xffu8; 32]);
}

#[test]
pub fn test_u64_to_be_zero() {
    assert_eq!(u64_to_be(&Uint64::from_u64(0)), [0u8; 8]);
}

#[test]
pub fn test_u64_to_be_one() {
    let mut fixed = [0u8; 8];
    fixed[7] = 1;
    assert_eq!(u64_to_be(&Uint64::from_u64(1)), fixed);
}

#[test]
pub fn test_u64_to_be_max() {
    assert_eq!(u64_to_be(&Uint64::from_u64(u64::MAX)), [0xffu8; 8]);
}
