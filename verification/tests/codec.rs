use ethers_core::types::U256;
use fee_manager::codec::{decode, decode_bytes, encode};
use fee_manager::word::{Address, Int256, Uint256};

fn packed(voucher: u64, input: u64, epoch: u64) -> U256 {
    (U256::from(voucher) << 128) + (U256::from(input) << 64) + U256::from(epoch)
}

#[test]
fn decode_reads_the_three_indices() {
    let position = Uint256 { limbs: packed(5, 2, 9).0 };
    assert_eq!(decode(&position), (5, 2, 9));
}

#[test]
fn decode_of_zero_is_all_zero() {
    assert_eq!(decode(&Uint256::zero()), (0, 0, 0));
}

#[test]
fn decode_takes_each_index_from_its_own_place() {
    let position = Uint256 { limbs: [0x0102030405060708, 0x1112131415161718, 0x2122232425262728, 0] };
    assert_eq!(
        decode(&position),
        (0x2122232425262728, 0x1112131415161718, 0x0102030405060708)
    );
}

#[test]
fn decode_does_not_look_at_the_reserved_part() {
    let wide = packed(7, 8, 9) + (U256::from(0xdead_beef_u64) << 192);
    assert_eq!(decode(&Uint256 { limbs: wide.0 }), (7, 8, 9));
    assert_eq!(decode(&Uint256 { limbs: U256::MAX.0 }), (u64::MAX, u64::MAX, u64::MAX));
}

#[test]
fn decode_bytes_follows_the_wire_layout() {
    let mut bytes = [0u8; 32];
    bytes[0] = 0xff;
    bytes[7] = 0xee;
    bytes[15] = 5;
    bytes[23] = 2;
    bytes[31] = 9;
    assert_eq!(decode_bytes(&bytes), (5, 2, 9));

    let mut bytes = [0u8; 32];
    bytes[8] = 0x01;
    bytes[16] = 0x02;
    bytes[17] = 0x03;
    bytes[24] = 0x80;
    bytes[31] = 0x01;
    assert_eq!(
        decode_bytes(&bytes),
        (0x0100_0000_0000_0000, 0x0203_0000_0000_0000, 0x8000_0000_0000_0001)
    );
}

#[test]
fn decode_bytes_agrees_with_the_big_endian_form() {
    let number = packed(0xa1a2a3a4a5a6a7a8, 0xb1b2b3b4b5b6b7b8, 0xc1c2c3c4c5c6c7c8);
    let mut bytes = [0u8; 32];
    number.to_big_endian(&mut bytes);
    assert_eq!(
        decode_bytes(&bytes),
        (0xa1a2a3a4a5a6a7a8, 0xb1b2b3b4b5b6b7b8, 0xc1c2c3c4c5c6c7c8)
    );
}

#[test]
fn encode_packs_the_indices() {
    assert_eq!(U256(encode(5, 2, 9).limbs), packed(5, 2, 9));
    assert_eq!(encode(5, 2, 9).limbs, [9, 2, 5, 0]);
    assert_eq!(
        U256(encode(u64::MAX, 0, u64::MAX).limbs),
        packed(u64::MAX, 0, u64::MAX)
    );
}

#[test]
fn decode_undoes_encode() {
    let samples = [0u64, 1, 2, 9, 255, 256, 0xffff_ffff, 0x1_0000_0000, u64::MAX - 1, u64::MAX];
    for &voucher in samples.iter() {
        for &input in samples.iter() {
            for &epoch in samples.iter() {
                assert_eq!(decode(&encode(voucher, input, epoch)), (voucher, input, epoch));
            }
        }
    }
}

#[test]
fn encode_undoes_decode_but_for_the_reserved_part() {
    let position = Uint256 { limbs: [11, 22, 33, 44] };
    let (voucher, input, epoch) = decode(&position);
    assert_eq!(encode(voucher, input, epoch).limbs, [11, 22, 33, 0]);
}

#[test]
fn checked_add_adds() {
    let sum = Uint256::from_u64(30).checked_add(&Uint256::from_u64(20));
    assert_eq!(sum, Some(Uint256::from_u64(50)));
}

#[test]
fn checked_add_carries_across_limbs() {
    let a = Uint256 { limbs: [u64::MAX, u64::MAX, 0, 0] };
    let sum = a.checked_add(&Uint256::from_u64(1));
    assert_eq!(sum, Some(Uint256 { limbs: [0, 0, 1, 0] }));
}

#[test]
fn checked_add_agrees_with_the_big_integers() {
    let a = U256::from_dec_str("123456789012345678901234567890123456789012345678901234567890").unwrap();
    let b = U256::from_dec_str("987654321098765432109876543210987654321098765432109876543210").unwrap();
    let sum = Uint256 { limbs: a.0 }.checked_add(&Uint256 { limbs: b.0 });
    assert_eq!(sum, Some(Uint256 { limbs: (a + b).0 }));
}

#[test]
fn checked_add_refuses_what_does_not_fit() {
    let max = Uint256 { limbs: [u64::MAX; 4] };
    assert_eq!(max.checked_add(&Uint256::from_u64(1)), None);
    assert_eq!(max.checked_add(&max), None);
    assert_eq!(max.checked_add(&Uint256::zero()), Some(max));
    let half = Uint256 { limbs: [0, 0, 0, 1 << 63] };
    assert_eq!(half.checked_add(&half), None);
}

#[test]
fn zero_and_small_values() {
    assert_eq!(Uint256::zero().limbs, [0, 0, 0, 0]);
    assert_eq!(Uint256::from_u64(7).limbs, [7, 0, 0, 0]);
    assert_eq!(Int256::zero().bits, Uint256::zero());
}

#[test]
fn addresses_are_ordered_as_numbers() {
    let one = Address::from_low_u64(1);
    let two = Address::from_low_u64(2);
    let big = Address { high: 1, low: 0 };
    let bigger = Address { high: 1, low: 1 };
    assert_eq!(one, Address { high: 0, low: 1 });
    assert!(one.precedes(&two));
    assert!(!two.precedes(&one));
    assert!(!one.precedes(&one));
    assert!(two.precedes(&big));
    assert!(Address { high: 0, low: u128::MAX }.precedes(&big));
    assert!(big.precedes(&bigger));
    assert!(!bigger.precedes(&big));
}
