//! Recoverable ECDSA signing of transaction documents for the
//! account/resource-model chain. The signer locates the document's digest
//! field, signs the 32 digest bytes as-is (they are the chain's canonical
//! signing hash and are not re-hashed), and writes the 65-byte signature
//! (r ‖ s ‖ recovery id), hex-encoded, into the document's signature list.
//! All other members of the document are carried over unchanged.

use vstd::prelude::*;
use vstd::string::StrSliceExecFns;
use crate::errors::TxError;
use crate::hexcode::hex_decode;
use crate::hexcode::hex_decoded;
use crate::hexcode::hex_encode;
use crate::hexcode::hex_encoded;
use crate::hexcode::is_hex_seq;
use crate::text::trimmed;

verus! {

/// The string value of the top-level "txID" member of the JSON document
/// text `doc`, or `None` when `doc` is not a JSON object with a string
/// "txID" member.
pub uninterp spec fn txid_of(doc: Seq<char>) -> Option<Seq<char>>;

/// The text of the JSON document `doc` re-serialized with its "signature"
/// member replaced by the one-element array holding `sig_hex`.
pub uninterp spec fn with_signature(doc: Seq<char>, sig_hex: Seq<char>) -> Seq<char>;

/// The "signature" member of the JSON document text `doc` as a list of
/// strings, or `None` when absent or shaped otherwise.
pub uninterp spec fn sig_texts_of(doc: Seq<char>) -> Option<Seq<Seq<char>>>;

/// Whether the JSON document text `doc` has a top-level member named `key`.
pub uninterp spec fn json_member_present(doc: Seq<char>, key: Seq<char>) -> bool;

/// Whether 32 key bytes are a valid secp256k1 secret scalar.
pub uninterp spec fn valid_secret_scalar(key: Seq<u8>) -> bool;

/// The 65 bytes (r ‖ s ‖ recovery id) of the deterministic RFC6979
/// recoverable ECDSA signature over `digest` with `key`.
pub uninterp spec fn ecdsa_sig65(digest: Seq<u8>, key: Seq<u8>) -> Seq<u8>;

/// Relies on serde_json (`from_str`, `Value::get`, `Value::as_str`): parses
/// `doc` and hands back the string value of its top-level "txID" member;
/// `None` when `doc` is not valid JSON, not an object, or has no string
/// "txID" member. A function of the document text alone.
#[verifier::external_body]
fn extract_txid(doc: &str) -> (r: Option<String>)
    ensures
        r matches Some(t) ==> txid_of(doc@) == Some(t@),
        r is None ==> txid_of(doc@) is None,
{
    let v: serde_json::Value = serde_json::from_str(doc).ok()?;
    let s = v.get("txID")?.as_str()?;
    Some(s.to_string())
}

/// Relies on serde_json (`from_str`, object index assignment, `to_string`):
/// parses `doc`, replaces its "signature" member with the one-element array
/// [`sig_hex`], and re-serializes. The parse/serialize round trip carries
/// every other member over unchanged, so the "txID" member of the result is
/// that of `doc`.
#[verifier::external_body]
fn attach_signature(doc: &str, sig_hex: &str) -> (r: String)
    requires
        txid_of(doc@) is Some,
    ensures
        r@ == with_signature(doc@, sig_hex@),
        txid_of(r@) == txid_of(doc@),
        sig_texts_of(r@) == Some(seq![sig_hex@]),
{
    let mut v: serde_json::Value = serde_json::from_str(doc).expect(
        "a document with a txID member is valid JSON",
    );
    v["signature"] = serde_json::Value::Array(
        vec![serde_json::Value::String(sig_hex.to_string())],
    );
    serde_json::to_string(&v).expect("serializing a JSON value to a string does not fail")
}

/// Relies on serde_json (`from_str`, `Value::get`): whether `doc` parses as
/// JSON whose top level has a member named `key`.
#[verifier::external_body]
fn json_has_member(doc: &str, key: &str) -> (r: bool)
    ensures
        r == json_member_present(doc@, key@),
{
    match serde_json::from_str::<serde_json::Value>(doc) {
        Ok(v) => v.get(key).is_some(),
        Err(_) => false,
    }
}

/// Relies on secp256k1 (`SecretKey::from_secret_bytes`,
/// `RecoverableSignature::sign_ecdsa_recoverable`, `serialize_compact`):
/// deterministic RFC6979 recoverable ECDSA over a 32-byte digest, signed
/// as-is. Hands back the 64 compact bytes (r ‖ s) followed by one
/// recovery-id byte, which that library keeps in 0..=3, not adjusted by any
/// chain-specific offset. `None` exactly when the key bytes are not a valid
/// secret scalar; the library documents that an all-zero key is invalid.
#[verifier::external_body]
fn sign_digest_recoverable(digest: &[u8], key: &[u8]) -> (r: Option<Vec<u8>>)
    requires
        digest@.len() == 32,
        key@.len() == 32,
    ensures
        r is Some <==> valid_secret_scalar(key@),
        (forall|i: int| 0 <= i < key@.len() ==> key@[i] == 0) ==> r is None,
        r matches Some(v) ==> v@ == ecdsa_sig65(digest@, key@) && v@.len() == 65 && v@[64] <= 3,
{
    let mut kb = [0u8; 32];
    kb.copy_from_slice(key);
    let sk = match secp256k1::SecretKey::from_secret_bytes(kb) {
        Ok(sk) => sk,
        Err(_) => return None,
    };
    let mut db = [0u8; 32];
    db.copy_from_slice(digest);
    let msg = secp256k1::Message::from_digest(db);
    let sig = secp256k1::ecdsa::RecoverableSignature::sign_ecdsa_recoverable(msg, &sk);
    let (recid, compact) = sig.serialize_compact();
    let mut out = compact.to_vec();
    out.push(recid.to_u8());
    Some(out)
}

/// The private key with surrounding whitespace and one optional "0x" prefix
/// removed.
pub open spec fn normalized_key(k: Seq<char>) -> Seq<char> {
    let t = trimmed(k);
    if t.len() >= 2 && t[0] == '0' && t[1] == 'x' {
        t.subrange(2, t.len() as int)
    } else {
        t
    }
}

/// The document carries a well-formed digest: a "txID" member of exactly 64
/// hexadecimal characters.
pub open spec fn digest_ok(doc: Seq<char>) -> bool {
    match txid_of(doc) {
        Some(t) => t.len() == 64 && is_hex_seq(t),
        None => false,
    }
}

/// The private key normalizes to 64 hexadecimal characters that decode to a
/// valid secp256k1 secret scalar.
pub open spec fn key_ok(k: Seq<char>) -> bool {
    normalized_key(k).len() == 64 && is_hex_seq(normalized_key(k)) && valid_secret_scalar(
        hex_decoded(normalized_key(k)),
    )
}

/// The hex text of the 65-byte recoverable signature that signing the
/// document's digest with the key produces.
pub open spec fn signature_hex_for(doc: Seq<char>, k: Seq<char>) -> Seq<char> {
    hex_encoded(ecdsa_sig65(hex_decoded(txid_of(doc).unwrap()), hex_decoded(normalized_key(k))))
}

/// Trims `key` and strips one leading "0x".
pub fn normalize_key<'a>(key: &'a str) -> (r: &'a str)
    ensures
        r@ == normalized_key(key@),
{
    let t = crate::text::trim_str(key);
    let n = t.unicode_len();
    if n >= 2 && t.get_char(0) == '0' && t.get_char(1) == 'x' {
        t.substring_char(2, n)
    } else {
        t
    }
}

/// Signs a transaction document with a private key: extracts the 64-hex
/// "txID" digest, signs its 32 bytes with deterministic recoverable ECDSA,
/// and returns the document with the hex signature written into its
/// signature list and everything else unchanged. Fails with
/// `MalformedTransaction` exactly when the digest member is missing or not
/// 64 hexadecimal characters, and with `InvalidKey` exactly when the
/// normalized key is not 64 hexadecimal characters or not a valid scalar.
pub fn sign_transaction(tx_json: &str, private_key_hex: &str) -> (r: Result<String, TxError>)
    ensures
        r is Ok <==> digest_ok(tx_json@) && key_ok(private_key_hex@),
        r matches Ok(out) ==> out@ == with_signature(
            tx_json@,
            signature_hex_for(tx_json@, private_key_hex@),
        ) && txid_of(out@) == txid_of(tx_json@) && sig_texts_of(out@) == Some(
            seq![signature_hex_for(tx_json@, private_key_hex@)],
        ),
        !digest_ok(tx_json@) ==> r == Err::<String, TxError>(TxError::MalformedTransaction),
        digest_ok(tx_json@) && !key_ok(private_key_hex@) ==> r == Err::<String, TxError>(
            TxError::InvalidKey,
        ),
{
    let txid = match extract_txid(tx_json) {
        Some(t) => t,
        None => {
            return Err(TxError::MalformedTransaction);
        },
    };
    if txid.as_str().unicode_len() != 64 {
        return Err(TxError::MalformedTransaction);
    }
    let digest = match hex_decode(txid.as_str()) {
        Some(b) => b,
        None => {
            return Err(TxError::MalformedTransaction);
        },
    };
    let norm = normalize_key(private_key_hex);
    if norm.unicode_len() != 64 {
        return Err(TxError::InvalidKey);
    }
    let key_bytes = match hex_decode(norm) {
        Some(b) => b,
        None => {
            return Err(TxError::InvalidKey);
        },
    };
    let sig = match sign_digest_recoverable(digest.as_slice(), key_bytes.as_slice()) {
        Some(s) => s,
        None => {
            return Err(TxError::InvalidKey);
        },
    };
    let sig_hex = hex_encode(&sig);
    Ok(attach_signature(tx_json, sig_hex.as_str()))
}

/// Checks what the chain's transaction builder must have produced before
/// signing is attempted: a document whose "txID" member is 64 hexadecimal
/// characters and which carries a "raw_data" member.
pub fn is_wellformed_built_transaction(tx_json: &str) -> (r: bool)
    ensures
        r == (digest_ok(tx_json@) && json_member_present(tx_json@, "raw_data"@)),
{
    let txid_ok = match extract_txid(tx_json) {
        Some(t) => t.as_str().unicode_len() == 64 && hex_decode(t.as_str()).is_some(),
        None => false,
    };
    txid_ok && json_has_member(tx_json, "raw_data")
}

} // verus!
