use common_types::error::Error;
use common_types::primitives::{Address, H256, U256};
use common_types::signature::RecoveryInfo;
use common_types::signed::{
    curve_order, public_to_address, recover_sender, sender_of_recovery, signing_digest, Signature,
    SignedTransaction,
};
use common_types::transaction::{decode, Action, Transaction, UnverifiedTransaction};
use rustc_hex::FromHex;

fn bytes_of(hex: &str) -> Vec<u8> {
    hex.from_hex::<Vec<u8>>().unwrap()
}

fn address_of(hex: &str) -> Address {
    let v = bytes_of(&hex[2..]);
    let mut bytes = [0u8; 20];
    bytes.copy_from_slice(&v);
    Address { bytes }
}

fn h256_of(hex: &str) -> H256 {
    let v = bytes_of(hex);
    let mut bytes = [0u8; 32];
    bytes.copy_from_slice(&v);
    H256 { bytes }
}

fn u256_of(hex: &str) -> U256 {
    let v = bytes_of(hex);
    let mut bytes = [0u8; 32];
    bytes.copy_from_slice(&v);
    U256 { bytes }
}

fn check_vector(tx_data: &str, address: &str) {
    let signed = SignedTransaction::decode(&bytes_of(tx_data)).unwrap();
    assert_eq!(signed.sender(), address_of(address));
    assert_eq!(signed.chain_id(), Some(1));
    assert_eq!(signed.encode(), bytes_of(tx_data));
}

const VECTOR_0: &str = "f864808504a817c800825208943535353535353535353535353535353535353535808025a0044852b2a670ade5407e78fb2863c51de9fcb96542a07186fe3aeda6bb8a116da0044852b2a670ade5407e78fb2863c51de9fcb96542a07186fe3aeda6bb8a116d";

#[test]
fn should_agree_with_vitalik_0() {
    check_vector(VECTOR_0, "0xf0f6f18bca1b28cd68e4357452947e021241e9ce");
}

#[test]
fn should_agree_with_vitalik_1() {
    check_vector("f864018504a817c80182a410943535353535353535353535353535353535353535018025a0489efdaa54c0f20c7adf612882df0950f5a951637e0307cdcb4c672f298b8bcaa0489efdaa54c0f20c7adf612882df0950f5a951637e0307cdcb4c672f298b8bc6", "0x23ef145a395ea3fa3deb533b8a9e1b4c6c25d112");
}

#[test]
fn should_agree_with_vitalik_2() {
    check_vector("f864028504a817c80282f618943535353535353535353535353535353535353535088025a02d7c5bef027816a800da1736444fb58a807ef4c9603b7848673f7e3a68eb14a5a02d7c5bef027816a800da1736444fb58a807ef4c9603b7848673f7e3a68eb14a5", "0x2e485e0c23b4c3c542628a5f672eeab0ad4888be");
}

#[test]
fn should_agree_with_vitalik_3() {
    check_vector("f865038504a817c803830148209435353535353535353535353535353535353535351b8025a02a80e1ef1d7842f27f2e6be0972bb708b9a135c38860dbe73c27c3486c34f4e0a02a80e1ef1d7842f27f2e6be0972bb708b9a135c38860dbe73c27c3486c34f4de", "0x82a88539669a3fd524d669e858935de5e5410cf0");
}

#[test]
fn should_agree_with_vitalik_4() {
    check_vector("f865048504a817c80483019a28943535353535353535353535353535353535353535408025a013600b294191fc92924bb3ce4b969c1e7e2bab8f4c93c3fc6d0a51733df3c063a013600b294191fc92924bb3ce4b969c1e7e2bab8f4c93c3fc6d0a51733df3c060", "0xf9358f2538fd5ccfeb848b64a96b743fcc930554");
}

#[test]
fn should_agree_with_vitalik_5() {
    check_vector("f865058504a817c8058301ec309435353535353535353535353535353535353535357d8025a04eebf77a833b30520287ddd9478ff51abbdffa30aa90a8d655dba0e8a79ce0c1a04eebf77a833b30520287ddd9478ff51abbdffa30aa90a8d655dba0e8a79ce0c1", "0xa8f7aba377317440bc5b26198a363ad22af1f3a4");
}

#[test]
fn should_agree_with_vitalik_6() {
    check_vector("f866068504a817c80683023e3894353535353535353535353535353535353535353581d88025a06455bf8ea6e7463a1046a0b52804526e119b4bf5136279614e0b1e8e296a4e2fa06455bf8ea6e7463a1046a0b52804526e119b4bf5136279614e0b1e8e296a4e2d", "0xf1f571dc362a0e5b2696b8e775f8491d3e50de35");
}

#[test]
fn should_agree_with_vitalik_7() {
    check_vector("f867078504a817c807830290409435353535353535353535353535353535353535358201578025a052f1a9b320cab38e5da8a8f97989383aab0a49165fc91c737310e4f7e9821021a052f1a9b320cab38e5da8a8f97989383aab0a49165fc91c737310e4f7e9821021", "0xd37922162ab7cea97c97a87551ed02c9a38b7332");
}

#[test]
fn should_agree_with_vitalik_8() {
    check_vector("f867088504a817c8088302e2489435353535353535353535353535353535353535358202008025a064b1702d9298fee62dfeccc57d322a463ad55ca201256d01f62b45b2e1c21c12a064b1702d9298fee62dfeccc57d322a463ad55ca201256d01f62b45b2e1c21c10", "0x9bddad43f934d313c2b79ca28a432dd2b7281029");
}

#[test]
fn should_agree_with_vitalik_9() {
    check_vector("f867098504a817c809830334509435353535353535353535353535353535353535358202d98025a052f8f61201b2b11a78d6e866abc9c3db2ae8631fa656bfe5cb53668255367afba052f8f61201b2b11a78d6e866abc9c3db2ae8631fa656bfe5cb53668255367afb", "0x3c24d7329e92f84f08556ceb6df1cdb0104ca49f");
}

fn example_transaction() -> Transaction {
    // nonce 9, gas price 20 gwei, gas limit 21000, value 1 ether
    Transaction {
        nonce: U256::from_u64(9),
        gas_price: U256::from_u64(20_000_000_000),
        gas_limit: U256::from_u64(21_000),
        action: Action::Call(address_of("0x3535353535353535353535353535353535353535")),
        value: U256::from_u64(1_000_000_000_000_000_000),
        data: Vec::new(),
    }
}

fn example_signature() -> Signature {
    Signature {
        r: u256_of("28ef61340bd939bc2169f2b2b6f1f5d2e1f976f6f2a5e0a4f3f5f6f7f8f9fafb"),
        s: u256_of("67cbe9d8997f761aecb703304b3800ccf555c9f3dc64214b297fb1966a3b6d83"),
        recovery: RecoveryInfo { recovery_bit: 0, chain_id: Some(1) },
    }
}

#[test]
fn signing_payload_with_chain_id() {
    let tx = example_transaction();
    assert_eq!(
        tx.signing_payload(Some(1)),
        bytes_of("ec098504a817c800825208943535353535353535353535353535353535353535880de0b6b3a764000080018080")
    );
    assert_eq!(
        tx.signing_payload(None),
        bytes_of("e9098504a817c800825208943535353535353535353535353535353535353535880de0b6b3a764000080")
    );
}

#[test]
fn signing_digest_is_keccak_of_payload() {
    let tx = example_transaction();
    assert_eq!(
        signing_digest(&tx, Some(1)),
        h256_of("daf5a779ae972f972197303d7b574746c7ef83eadac0f2791ad23db92e4c8e53")
    );
}

#[test]
fn signing_digest_depends_on_chain_id() {
    let tx = example_transaction();
    let one = signing_digest(&tx, Some(1));
    let two = signing_digest(&tx, Some(2));
    let none = signing_digest(&tx, None);
    assert_ne!(one, two);
    assert_ne!(one, none);
    assert_ne!(two, none);
    assert_ne!(tx.signing_payload(Some(1)), tx.signing_payload(Some(2)));
}

#[test]
fn signature_for_one_chain_gives_another_sender_on_another() {
    let fields = decode(&bytes_of(VECTOR_0)).unwrap();
    let right = Signature::from_vrs(fields.v, fields.r, fields.s).unwrap();
    let signed = SignedTransaction::new(fields.unsigned.clone(), right).unwrap();
    assert_eq!(signed.sender(), address_of("0xf0f6f18bca1b28cd68e4357452947e021241e9ce"));
    let moved = Signature {
        recovery: RecoveryInfo { recovery_bit: right.recovery.recovery_bit, chain_id: Some(2) },
        ..right
    };
    match SignedTransaction::new(fields.unsigned.clone(), moved) {
        Ok(other) => assert_ne!(other.sender(), signed.sender()),
        Err(e) => assert_eq!(e, Error::InvalidSignature("invalid EC signature".to_string())),
    }
}

#[test]
fn recovery_is_repeatable() {
    let fields = decode(&bytes_of(VECTOR_0)).unwrap();
    let signature = Signature::from_vrs(fields.v, fields.r, fields.s).unwrap();
    let digest = signing_digest(&fields.unsigned, signature.chain_id());
    let first = recover_sender(&signature, &digest);
    let second = recover_sender(&signature, &digest);
    assert_eq!(first, second);
    assert_eq!(first, Ok(address_of("0xf0f6f18bca1b28cd68e4357452947e021241e9ce")));
    let a = SignedTransaction::new(fields.unsigned.clone(), signature).unwrap();
    let b = SignedTransaction::new(fields.unsigned.clone(), signature).unwrap();
    assert_eq!(a, b);
    assert_eq!(a.clone(), b);
}

#[test]
fn public_key_of_secret_one_gives_known_address() {
    // the generator point of the curve, the public key of the secret key 1
    let public = bytes_of("79be667ef9dcbbac55a06295ce870b07029bfcdb2dce28d959f2815b16f81798483ada7726a3c4655da4fbfc0e1108a8fd17b448a68554199c47d08ffb10d4b8");
    let mut key = [0u8; 64];
    key.copy_from_slice(&public);
    assert_eq!(public_to_address(&key), address_of("0x7e5f4552091a69125d5dfcb7b8c2659029395bdf"));
}

#[test]
fn sender_of_recovery_maps_both_outcomes() {
    let public = bytes_of("79be667ef9dcbbac55a06295ce870b07029bfcdb2dce28d959f2815b16f81798483ada7726a3c4655da4fbfc0e1108a8fd17b448a68554199c47d08ffb10d4b8");
    let mut key = [0u8; 64];
    key.copy_from_slice(&public);
    assert_eq!(
        sender_of_recovery(Ok(key)),
        Ok(address_of("0x7e5f4552091a69125d5dfcb7b8c2659029395bdf"))
    );
    assert_eq!(
        sender_of_recovery(Err("no key".to_string())),
        Err(Error::InvalidSignature("no key".to_string()))
    );
}

fn invalid() -> Error {
    Error::InvalidSignature("invalid EC signature".to_string())
}

#[test]
fn zero_r_or_s_is_refused() {
    let digest = signing_digest(&example_transaction(), Some(1));
    let good = example_signature();
    let zero_r = Signature { r: U256::zero(), ..good };
    let zero_s = Signature { s: U256::zero(), ..good };
    assert_eq!(recover_sender(&zero_r, &digest), Err(invalid()));
    assert_eq!(recover_sender(&zero_s, &digest), Err(invalid()));
}

#[test]
fn r_or_s_at_or_above_the_order_is_refused() {
    let digest = signing_digest(&example_transaction(), Some(1));
    let good = example_signature();
    let order = curve_order();
    let max = u256_of("ffffffffffffffffffffffffffffffffffffffffffffffffffffffffffffffff");
    assert_eq!(recover_sender(&Signature { r: order, ..good }, &digest), Err(invalid()));
    assert_eq!(recover_sender(&Signature { s: order, ..good }, &digest), Err(invalid()));
    assert_eq!(recover_sender(&Signature { r: max, ..good }, &digest), Err(invalid()));
    assert_eq!(recover_sender(&Signature { s: max, ..good }, &digest), Err(invalid()));
}

#[test]
fn high_s_is_accepted() {
    // s just below the order: in range, whatever key it recovers to
    let digest = signing_digest(&example_transaction(), Some(1));
    let high = u256_of("fffffffffffffffffffffffffffffffebaaedce6af48a03bbfd25e8cd0364140");
    let signature = Signature { s: high, ..example_signature() };
    let first = recover_sender(&signature, &digest);
    assert_eq!(first, recover_sender(&signature, &digest));
    if let Err(e) = first {
        assert_eq!(e, invalid());
    }
}

#[test]
fn recovery_bit_above_one_is_refused() {
    let digest = signing_digest(&example_transaction(), Some(1));
    let signature = Signature {
        recovery: RecoveryInfo { recovery_bit: 2, chain_id: None },
        ..example_signature()
    };
    assert_eq!(recover_sender(&signature, &digest), Err(invalid()));
}

#[test]
fn chain_id_too_large_for_the_wire_is_refused() {
    let digest = signing_digest(&example_transaction(), Some(1));
    let signature = Signature {
        recovery: RecoveryInfo { recovery_bit: 1, chain_id: Some(u64::MAX) },
        ..example_signature()
    };
    assert_eq!(recover_sender(&signature, &digest), Err(invalid()));
}

#[test]
fn scalars_in_range_that_recover_no_key_are_refused() {
    let digest = signing_digest(&example_transaction(), Some(1));
    let mut refused = 0;
    let mut recovered = 0;
    for r in 1..=40u64 {
        let signature = Signature { r: U256::from_u64(r), ..example_signature() };
        match recover_sender(&signature, &digest) {
            Ok(_) => recovered += 1,
            Err(e) => {
                assert_eq!(e, invalid());
                refused += 1;
            }
        }
    }
    assert!(refused > 0);
    assert!(recovered > 0);
}

#[test]
fn curve_order_has_its_known_bytes() {
    assert_eq!(
        curve_order(),
        u256_of("fffffffffffffffffffffffffffffffebaaedce6af48a03bbfd25e8cd0364141")
    );
}

#[test]
fn unsigned_v_is_an_invalid_signature() {
    let fields = decode(&bytes_of(VECTOR_0)).unwrap();
    let bad = UnverifiedTransaction { v: 29, ..fields.clone() };
    assert_eq!(SignedTransaction::from_unverified(bad), Err(invalid()));
    let bad = UnverifiedTransaction { v: 0, ..fields };
    assert_eq!(SignedTransaction::decode(&bad.encode()), Err(invalid()));
}

#[test]
fn wrong_signature_recovers_another_sender_or_none() {
    let fields = decode(&bytes_of(VECTOR_0)).unwrap();
    let other = UnverifiedTransaction { s: U256::from_u64(12345), ..fields };
    match SignedTransaction::from_unverified(other) {
        Ok(signed) => {
            assert_ne!(signed.sender(), address_of("0xf0f6f18bca1b28cd68e4357452947e021241e9ce"))
        }
        Err(e) => assert_eq!(e, invalid()),
    }
}

#[test]
fn signed_transaction_gives_its_parts_back() {
    let fields = decode(&bytes_of(VECTOR_0)).unwrap();
    let signed = SignedTransaction::from_unverified(fields.clone()).unwrap();
    assert_eq!(signed.transaction(), &fields.unsigned);
    assert_eq!(signed.signature().r, fields.r);
    assert_eq!(signed.signature().s, fields.s);
    assert_eq!(signed.signature().v(), 37);
    assert_eq!(signed.signature().chain_id(), Some(1));
    assert_eq!(signed.chain_id(), Some(1));
}

#[test]
fn malformed_bytes_give_invalid_rlp() {
    let good = bytes_of(VECTOR_0);
    assert_eq!(
        SignedTransaction::decode(&good[..good.len() - 1]),
        Err(Error::InvalidRlp("RlpIsTooShort".to_string()))
    );
    let mut long = good.clone();
    long.push(0);
    assert_eq!(
        SignedTransaction::decode(&long),
        Err(Error::InvalidRlp("RlpIsTooBig".to_string()))
    );
    assert_eq!(SignedTransaction::decode(&[]), Err(Error::InvalidRlp("RlpIsTooShort".to_string())));
}
