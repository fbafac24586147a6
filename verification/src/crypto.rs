use vstd::prelude::*;
use vstd::string::*;
use p256::ecdsa::signature::{Signer, Verifier};
use p256::ecdsa::{Signature, SigningKey, VerifyingKey};
use p256::elliptic_curve::sec1::{FromEncodedPoint, ToEncodedPoint};
use p256::{EncodedPoint, PublicKey, SecretKey};
use rand::rngs::OsRng;

verus! {

/// Whether `p256::SecretKey::from_slice` accepts `secret` as a P-256 secret scalar.
pub uninterp spec fn p256_secret_key_valid(secret: Seq<u8>) -> bool;

/// The uncompressed SEC1 encoding of the P-256 public key of the secret scalar `secret`.
pub uninterp spec fn p256_public_key_of(secret: Seq<u8>) -> Seq<u8>;

/// Whether `p256::PublicKey::from_encoded_point` accepts the SEC1 point `sec1`
/// (a point on the curve other than the identity).
pub uninterp spec fn p256_public_key_valid(sec1: Seq<u8>) -> bool;

/// Whether `p256::ecdsa::Signature::from_der` accepts `der`.
pub uninterp spec fn p256_signature_der_valid(der: Seq<u8>) -> bool;

/// The DER encoding of the deterministic (RFC 6979) ECDSA P-256 signature of `msg`
/// under the secret scalar `secret`.
pub uninterp spec fn p256_sign_der(secret: Seq<u8>, msg: Seq<u8>) -> Seq<u8>;

/// Whether the DER signature `der` is a valid ECDSA P-256 signature of `msg` under the
/// public key with SEC1 encoding `public`.
pub uninterp spec fn p256_verify(public: Seq<u8>, msg: Seq<u8>, der: Seq<u8>) -> bool;

/// Whether `bytes` is shaped as a SEC1 point of P-256: a tag byte and the length it
/// calls for (identity 0: one byte; compressed 2, 3 and compact 5: 33 bytes;
/// uncompressed 4: 65 bytes).
pub open spec fn sec1_encoding_valid(bytes: Seq<u8>) -> bool {
    bytes.len() > 0 && ((bytes[0] == 0 && bytes.len() == 1) || ((bytes[0] == 2 || bytes[0] == 3
        || bytes[0] == 5) && bytes.len() == 33) || (bytes[0] == 4 && bytes.len() == 65))
}

/// Calls `p256::SecretKey::from_slice`.
/// Trusted: it succeeds exactly when `p256_secret_key_valid` holds, which needs 24 to 32
/// bytes; its error prints as "crypto error".
#[verifier::external_body]
pub(crate) fn check_secret_key(secret: &[u8]) -> (res: Result<(), String>)
    ensures
        res is Ok <==> p256_secret_key_valid(secret@),
        res is Ok ==> 24 <= secret@.len() <= 32,
        res matches Err(msg) ==> msg@ == "crypto error"@,
{
    match SecretKey::from_slice(secret) {
        Ok(_) => Ok(()),
        Err(e) => Err(e.to_string()),
    }
}

/// Calls `p256::SecretKey::public_key` on the key parsed from `secret`, and encodes the
/// point uncompressed.
/// Trusted: the result is `p256_public_key_of(secret)`: 65 bytes, tag 4, and a point
/// that `p256::PublicKey::from_encoded_point` accepts.
#[verifier::external_body]
pub(crate) fn public_key_of(secret: &[u8]) -> (res: Vec<u8>)
    requires
        p256_secret_key_valid(secret@),
    ensures
        res@ == p256_public_key_of(secret@),
        res@.len() == 65,
        res@[0] == 4,
        p256_public_key_valid(res@),
{
    SecretKey::from_slice(secret).unwrap().public_key().to_encoded_point(false).as_bytes().to_vec()
}

/// Calls `p256::EncodedPoint::from_bytes`.
/// Trusted: it succeeds exactly on a tag byte followed by the length that the tag calls
/// for (the `sec1` source checks the tag, then the length); its only error,
/// `PointEncoding`, prints as "elliptic curve point encoding error".
#[verifier::external_body]
pub(crate) fn check_sec1_encoding(bytes: &[u8]) -> (res: Result<(), String>)
    ensures
        res is Ok <==> sec1_encoding_valid(bytes@),
        res matches Err(msg) ==> msg@ == "elliptic curve point encoding error"@,
{
    match EncodedPoint::from_bytes(bytes) {
        Ok(_) => Ok(()),
        Err(e) => Err(e.to_string()),
    }
}

/// Calls `p256::PublicKey::from_encoded_point` on the point of `bytes`.
/// Trusted: the result is `p256_public_key_valid(bytes)`.
#[verifier::external_body]
pub(crate) fn is_valid_public_key(bytes: &[u8]) -> (res: bool)
    requires
        sec1_encoding_valid(bytes@),
    ensures
        res == p256_public_key_valid(bytes@),
{
    let point = EncodedPoint::from_bytes(bytes).unwrap();
    PublicKey::from_encoded_point(&point).is_some().into()
}

/// Calls `p256::ecdsa::Signature::from_der`.
/// Trusted: it succeeds exactly when `p256_signature_der_valid` holds; every refusal in the
/// `ecdsa` source is `signature::Error::new()`, with no source, which prints as
/// "signature error".
#[verifier::external_body]
pub(crate) fn check_signature_der(der: &[u8]) -> (res: Result<(), String>)
    ensures
        res is Ok <==> p256_signature_der_valid(der@),
        res matches Err(msg) ==> msg@ == "signature error"@,
{
    match Signature::from_der(der) {
        Ok(_) => Ok(()),
        Err(e) => Err(e.to_string()),
    }
}

/// Calls `Signer::sign` of `p256::ecdsa::SigningKey` (built from the secret scalar) on
/// `msg`, and encodes the signature as DER.
/// Trusted: the signature is deterministic (RFC 6979), so the result is
/// `p256_sign_der(secret, msg)`; it parses as DER, it verifies under the public key of
/// `secret`, as ECDSA signatures do, and it is at most 73 bytes long (`ecdsa`'s bound on a
/// DER signature: two 32-byte integers and 9 bytes of headers).
#[verifier::external_body]
pub(crate) fn ecdsa_sign(secret: &[u8], msg: &[u8]) -> (res: Vec<u8>)
    requires
        p256_secret_key_valid(secret@),
    ensures
        res@ == p256_sign_der(secret@, msg@),
        p256_signature_der_valid(res@),
        p256_verify(p256_public_key_of(secret@), msg@, res@),
        res@.len() <= 73,
{
    let signing_key = SigningKey::from(SecretKey::from_slice(secret).unwrap());
    let signature: Signature = signing_key.sign(msg);
    signature.to_der().as_bytes().to_vec()
}

/// Calls `Verifier::verify` of `p256::ecdsa::VerifyingKey` (built from the SEC1 point
/// `public`) on `msg` and the DER signature `der`.
/// Trusted: the result is `p256_verify(public, msg, der)`.
#[verifier::external_body]
pub(crate) fn ecdsa_verify(public: &[u8], msg: &[u8], der: &[u8]) -> (res: bool)
    requires
        sec1_encoding_valid(public@),
        p256_public_key_valid(public@),
        p256_signature_der_valid(der@),
    ensures
        res == p256_verify(public@, msg@, der@),
{
    let point = EncodedPoint::from_bytes(public).unwrap();
    let verifying_key = VerifyingKey::from(PublicKey::from_encoded_point(&point).unwrap());
    let signature = Signature::from_der(der).unwrap();
    verifying_key.verify(msg, &signature).is_ok()
}

/// Calls `p256::SecretKey::random` with the operating system's random source, and
/// serializes the scalar.
/// Trusted: the result is 32 bytes that `p256::SecretKey::from_slice` accepts; which ones
/// is left to chance.
#[verifier::external_body]
pub(crate) fn random_secret_key() -> (res: Vec<u8>)
    ensures
        res@.len() == 32,
        p256_secret_key_valid(res@),
{
    SecretKey::random(&mut OsRng).to_bytes().to_vec()
}

} // verus!
