//! Signer behavior: recoverable signatures that recover the right key,
//! deterministic output, exact rejection of malformed digests and keys, and
//! pass-through of every other document member.

use secp256k1::ecdsa::{RecoverableSignature, RecoveryId};
use secp256k1::{Message, PublicKey, SecretKey};
use txflow::errors::TxError;
use txflow::signer::{is_wellformed_built_transaction, sign_transaction};

const KEY_ONE: &str = "0000000000000000000000000000000000000000000000000000000000000001";
const DIGEST_REF: &str = "1111111111111111111111111111111111111111111111111111111111111111";

fn tx_json_with_digest(digest_hex: &str) -> String {
    format!(
        "{{\"txID\":\"{}\",\"raw_data\":{{\"expiration\":0,\"timestamp\":7}}}}",
        digest_hex
    )
}

fn signature_hex_of(signed: &str) -> String {
    let v: serde_json::Value = serde_json::from_str(signed).unwrap();
    let list = v.get("signature").unwrap().as_array().unwrap();
    assert_eq!(list.len(), 1);
    list[0].as_str().unwrap().to_string()
}

#[test]
fn signature_recovers_the_signing_key() {
    let tx = tx_json_with_digest(DIGEST_REF);
    let signed = sign_transaction(&tx, KEY_ONE).unwrap();
    let sig_hex = signature_hex_of(&signed);
    assert_eq!(sig_hex.len(), 130);
    let sig = hex::decode(&sig_hex).unwrap();
    assert_eq!(sig.len(), 65);
    let recid_byte = sig[64];
    assert!(recid_byte == 0 || recid_byte == 1);

    let recid = RecoveryId::try_from(recid_byte as i32).unwrap();
    let rec_sig = RecoverableSignature::from_compact(&sig[..64], recid).unwrap();
    let digest: [u8; 32] = hex::decode(DIGEST_REF).unwrap().try_into().unwrap();
    let recovered = rec_sig.recover_ecdsa(Message::from_digest(digest)).unwrap();

    let sk = SecretKey::from_secret_bytes(
        hex::decode(KEY_ONE).unwrap().try_into().unwrap(),
    )
    .unwrap();
    assert_eq!(recovered, PublicKey::from_secret_key(&sk));
}

#[test]
fn signing_twice_is_deterministic() {
    let tx = tx_json_with_digest(DIGEST_REF);
    let first = sign_transaction(&tx, KEY_ONE).unwrap();
    let second = sign_transaction(&tx, KEY_ONE).unwrap();
    assert_eq!(first, second);
    // Both recover the same key either way; with RFC6979 the bytes agree too.
    assert_eq!(signature_hex_of(&first), signature_hex_of(&second));
}

#[test]
fn signing_the_zero_digest_is_reproducible() {
    let zero_digest = "0".repeat(64);
    let tx = tx_json_with_digest(&zero_digest);
    let signed = sign_transaction(&tx, KEY_ONE).unwrap();
    let sig_hex = signature_hex_of(&signed);
    let sig = hex::decode(&sig_hex).unwrap();
    assert_eq!(sig.len(), 65);
    assert!(sig[64] == 0 || sig[64] == 1);

    // The exact signature the library must produce: RFC6979 over this
    // digest and key, computed independently here.
    let sk = SecretKey::from_secret_bytes(
        hex::decode(KEY_ONE).unwrap().try_into().unwrap(),
    )
    .unwrap();
    let digest: [u8; 32] = [0u8; 32];
    let reference = RecoverableSignature::sign_ecdsa_recoverable(Message::from_digest(digest), &sk);
    let (recid, compact) = reference.serialize_compact();
    let mut reference_bytes = compact.to_vec();
    reference_bytes.push(recid.to_u8());
    assert_eq!(sig, reference_bytes);
    assert_eq!(sig_hex, hex::encode(&reference_bytes));
    // Pinned reference: RFC6979 over the all-zero digest with key 1; the
    // trailing recovery-id byte is 01.
    assert_eq!(
        sig_hex,
        "a0b37f8fba683cc68f6574cd43b39f0343a50008bf6ccea9d13231d9e7e2e1e4\
         11edc8d307254296264aebfc3dc76cd8b668373a072fd64665b50000e9fcce5201"
    );
}

#[test]
fn signer_rejects_digest_of_63_hex_chars() {
    let tx = tx_json_with_digest(&"a".repeat(63));
    assert_eq!(sign_transaction(&tx, KEY_ONE), Err(TxError::MalformedTransaction));
}

#[test]
fn signer_rejects_digest_of_65_hex_chars() {
    let tx = tx_json_with_digest(&"a".repeat(65));
    assert_eq!(sign_transaction(&tx, KEY_ONE), Err(TxError::MalformedTransaction));
}

#[test]
fn signer_rejects_missing_or_non_hex_digest() {
    assert_eq!(
        sign_transaction("{\"raw_data\":{}}", KEY_ONE),
        Err(TxError::MalformedTransaction)
    );
    let tx = tx_json_with_digest(&"g".repeat(64));
    assert_eq!(sign_transaction(&tx, KEY_ONE), Err(TxError::MalformedTransaction));
    assert_eq!(
        sign_transaction("{\"txID\":7}", KEY_ONE),
        Err(TxError::MalformedTransaction)
    );
    assert_eq!(sign_transaction("not json", KEY_ONE), Err(TxError::MalformedTransaction));
}

#[test]
fn signer_rejects_key_of_63_hex_chars() {
    let tx = tx_json_with_digest(DIGEST_REF);
    assert_eq!(
        sign_transaction(&tx, &"1".repeat(63)),
        Err(TxError::InvalidKey)
    );
}

#[test]
fn signer_rejects_all_zero_key() {
    let tx = tx_json_with_digest(DIGEST_REF);
    assert_eq!(
        sign_transaction(&tx, &"0".repeat(64)),
        Err(TxError::InvalidKey)
    );
}

#[test]
fn signer_rejects_key_above_curve_order() {
    let tx = tx_json_with_digest(DIGEST_REF);
    assert_eq!(
        sign_transaction(&tx, &"f".repeat(64)),
        Err(TxError::InvalidKey)
    );
}

#[test]
fn signer_accepts_prefixed_and_padded_key() {
    let tx = tx_json_with_digest(DIGEST_REF);
    let plain = sign_transaction(&tx, KEY_ONE).unwrap();
    let prefixed = sign_transaction(&tx, &format!("0x{}", KEY_ONE)).unwrap();
    let padded = sign_transaction(&tx, &format!("  {}\n", KEY_ONE)).unwrap();
    assert_eq!(plain, prefixed);
    assert_eq!(plain, padded);
}

#[test]
fn signer_passes_other_members_through() {
    let tx = tx_json_with_digest(DIGEST_REF);
    let signed = sign_transaction(&tx, KEY_ONE).unwrap();
    let before: serde_json::Value = serde_json::from_str(&tx).unwrap();
    let after: serde_json::Value = serde_json::from_str(&signed).unwrap();
    assert_eq!(after.get("txID"), before.get("txID"));
    assert_eq!(after.get("raw_data"), before.get("raw_data"));
    assert!(after.get("signature").unwrap().is_array());
}

#[test]
fn signer_replaces_an_existing_signature() {
    let tx = format!(
        "{{\"txID\":\"{}\",\"raw_data\":{{}},\"signature\":[\"old\"]}}",
        DIGEST_REF
    );
    let signed = sign_transaction(&tx, KEY_ONE).unwrap();
    let sig_hex = signature_hex_of(&signed);
    assert_ne!(sig_hex, "old");
    assert_eq!(sig_hex.len(), 130);
}

#[test]
fn built_transaction_wellformedness_check() {
    assert!(is_wellformed_built_transaction(&tx_json_with_digest(DIGEST_REF)));
    // missing raw_data
    assert!(!is_wellformed_built_transaction(&format!(
        "{{\"txID\":\"{}\"}}",
        DIGEST_REF
    )));
    // digest too short
    assert!(!is_wellformed_built_transaction(&tx_json_with_digest(&"a".repeat(63))));
    assert!(!is_wellformed_built_transaction("not json"));
}
