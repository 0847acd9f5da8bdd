use common_types::primitives::U256;
use common_types::signature::{decode_v, encode_v, RecoveryInfo, MAX_CHAIN_ID};
use common_types::text::{decimal, hex};

#[test]
fn legacy_v_has_no_chain() {
    assert_eq!(decode_v(27), Some(RecoveryInfo { recovery_bit: 0, chain_id: None }));
    assert_eq!(decode_v(28), Some(RecoveryInfo { recovery_bit: 1, chain_id: None }));
}

#[test]
fn replay_protected_v_holds_the_chain() {
    assert_eq!(decode_v(35), Some(RecoveryInfo { recovery_bit: 0, chain_id: Some(0) }));
    assert_eq!(decode_v(36), Some(RecoveryInfo { recovery_bit: 1, chain_id: Some(0) }));
    assert_eq!(decode_v(37), Some(RecoveryInfo { recovery_bit: 0, chain_id: Some(1) }));
    assert_eq!(decode_v(38), Some(RecoveryInfo { recovery_bit: 1, chain_id: Some(1) }));
    assert_eq!(decode_v(157), Some(RecoveryInfo { recovery_bit: 0, chain_id: Some(61) }));
    assert_eq!(
        decode_v(u64::MAX),
        Some(RecoveryInfo { recovery_bit: 0, chain_id: Some(MAX_CHAIN_ID + 1) })
    );
}

#[test]
fn other_v_is_no_signature() {
    for v in (0..27).chain(29..35) {
        assert_eq!(decode_v(v), None);
    }
}

#[test]
fn encode_v_is_the_formula() {
    assert_eq!(encode_v(RecoveryInfo { recovery_bit: 0, chain_id: None }), 27);
    assert_eq!(encode_v(RecoveryInfo { recovery_bit: 1, chain_id: None }), 28);
    assert_eq!(encode_v(RecoveryInfo { recovery_bit: 0, chain_id: Some(1) }), 37);
    assert_eq!(encode_v(RecoveryInfo { recovery_bit: 1, chain_id: Some(61) }), 158);
    assert_eq!(encode_v(RecoveryInfo { recovery_bit: 1, chain_id: Some(MAX_CHAIN_ID) }), u64::MAX - 1);
}

#[test]
fn decode_v_inverts_encode_v() {
    let chains = [None, Some(0), Some(1), Some(61), Some((1u64 << 31) - 1), Some(MAX_CHAIN_ID)];
    for chain_id in chains {
        for recovery_bit in [0u8, 1] {
            let info = RecoveryInfo { recovery_bit, chain_id };
            assert_eq!(decode_v(encode_v(info)), Some(info));
        }
    }
}

#[test]
fn encode_v_inverts_decode_v() {
    for v in [27u64, 28, 35, 36, 37, 38, 1_000_000, u64::MAX - 1, u64::MAX] {
        assert_eq!(encode_v(decode_v(v).unwrap()), v);
    }
}

#[test]
fn numbers_as_text() {
    assert_eq!(decimal(0), "0");
    assert_eq!(decimal(7), "7");
    assert_eq!(decimal(10), "10");
    assert_eq!(decimal(1_234_567_890), "1234567890");
    assert_eq!(decimal(u64::MAX), "18446744073709551615");
    assert_eq!(hex(0), "0");
    assert_eq!(hex(10), "a");
    assert_eq!(hex(255), "ff");
    assert_eq!(hex(0x1234_abcd), "1234abcd");
    assert_eq!(hex(u64::MAX), "ffffffffffffffff");
}

#[test]
fn u256_from_and_to_bytes() {
    let mut bytes = [0u8; 32];
    bytes[30] = 1;
    assert_eq!(U256::from_u64(256), U256 { bytes });
    assert_eq!(U256::from_u64(0), U256::zero());
    assert_eq!(U256::zero(), U256 { bytes: [0; 32] });
    assert_eq!(U256::from_be_slice(&[9, 1, 0, 9], 1, 3), U256 { bytes });
    assert_eq!(U256::from_be_slice(&[9], 0, 0), U256::zero());
    assert_eq!(U256::from_be_slice(&[0xff; 32], 0, 32), U256 { bytes: [0xff; 32] });
    assert_eq!(U256 { bytes }.to_minimal_bytes(), vec![1, 0]);
    assert_eq!(U256::zero().to_minimal_bytes(), Vec::<u8>::new());
    assert_eq!(U256 { bytes: [0xff; 32] }.to_minimal_bytes(), vec![0xff; 32]);
}

#[test]
fn u256_zero_and_order() {
    assert!(U256::zero().is_zero());
    assert!(!U256::from_u64(1).is_zero());
    let mut high = [0u8; 32];
    high[0] = 1;
    assert!(!U256 { bytes: high }.is_zero());
    assert!(U256::from_u64(1).less_than(&U256::from_u64(2)));
    assert!(!U256::from_u64(2).less_than(&U256::from_u64(2)));
    assert!(!U256::from_u64(3).less_than(&U256::from_u64(2)));
    assert!(U256::from_u64(u64::MAX).less_than(&U256 { bytes: high }));
    assert!(!U256 { bytes: high }.less_than(&U256::from_u64(u64::MAX)));
    assert!(U256::from_u64(0x01ff).less_than(&U256::from_u64(0x0200)));
}

#[test]
fn u256_in_decimal() {
    assert_eq!(U256::zero().to_decimal(), "0");
    assert_eq!(U256::from_u64(5).to_decimal(), "5");
    assert_eq!(U256::from_u64(u64::MAX).to_decimal(), "18446744073709551615");
    let mut bytes = [0u8; 32];
    bytes[23] = 1;
    assert_eq!(U256 { bytes }.to_decimal(), "18446744073709551616");
    assert_eq!(
        U256 { bytes: [0xff; 32] }.to_decimal(),
        "115792089237316195423570985008687907853269984665640564039457584007913129639935"
    );
}
