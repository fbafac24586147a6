use vstd::prelude::*;
use vstd::string::*;
use vstd::utf8::*;
use crate::crypto::{
    check_sec1_encoding, check_secret_key, is_valid_public_key, p256_public_key_of,
    p256_public_key_valid, p256_secret_key_valid, public_key_of, random_secret_key,
    sec1_encoding_valid,
};
use crate::encoding::{
    hex_decode, hex_decode_spec, hex_encode, hex_encode_spec, lemma_hex_roundtrip,
    lemma_hex_text_bytes,
};

verus! {

/// A P-256 key pair as hexadecimal text: the 32-byte secret scalar and the 65-byte
/// uncompressed public point.
#[derive(Debug)]
pub struct KeyPair {
    private_key: String,
    public_key: String,
}

/// Why a key pair was refused.
#[derive(Debug)]
pub enum KeyError {
    WrongFormat,
    CryptoError(String),
}

/// Whether `c` is a hexadecimal digit, in either case.
pub open spec fn is_hex_char(c: char) -> bool {
    ('0' <= c <= '9') || ('a' <= c <= 'f') || ('A' <= c <= 'F')
}

/// Whether `text` is one or more hexadecimal digits.
pub open spec fn is_hex_text(text: Seq<char>) -> bool {
    text.len() > 0 && forall|i: int| 0 <= i < text.len() ==> is_hex_char(#[trigger] text[i])
}

/// Whether `KeyPair::new` accepts these texts: hexadecimal, 64 and 130 digits, a P-256
/// secret scalar and a P-256 point that is not the identity.
pub open spec fn key_pair_accepted(private_key: Seq<char>, public_key: Seq<char>) -> bool {
    &&& is_hex_text(private_key)
    &&& is_hex_text(public_key)
    &&& private_key.len() == 64
    &&& public_key.len() == 130
    &&& p256_secret_key_valid(hex_decode_spec(encode_utf8(private_key)))
    &&& sec1_encoding_valid(hex_decode_spec(encode_utf8(public_key)))
    &&& p256_public_key_valid(hex_decode_spec(encode_utf8(public_key)))
}

/// Whether `public_key` is the hexadecimal uncompressed public point of the secret scalar
/// in `private_key`.
pub open spec fn keys_match(private_key: Seq<char>, public_key: Seq<char>) -> bool {
    public_key == hex_encode_spec(p256_public_key_of(hex_decode_spec(encode_utf8(private_key))))
}

/// The text of a key error.
pub open spec fn key_error_text(e: KeyError) -> Seq<char> {
    match e {
        KeyError::WrongFormat => "invalid key formatting"@,
        KeyError::CryptoError(msg) => "crypto error: "@ + msg@,
    }
}

/// Calls `regex::Regex::new` on `pattern`, then `Regex::is_match` on `text`.
/// Trusted: for the one pattern admitted, which is valid, anchored at both ends of the
/// haystack and asks for one or more characters of 0-9, a-f, A-F, the result is whether
/// `text` is one or more hexadecimal digits.
#[verifier::external_body]
fn regex_is_match(pattern: &str, text: &str) -> (res: bool)
    requires
        pattern@ == "^[0-9a-fA-F]+$"@,
    ensures
        res == is_hex_text(text@),
{
    regex::Regex::new(pattern).unwrap().is_match(text)
}

/// Hexadecimal text is ASCII: its UTF-8 bytes are its characters' codes.
proof fn lemma_hex_text_ascii(text: Seq<char>)
    requires
        is_hex_text(text),
    ensures
        encode_utf8(text).len() == text.len(),
        forall|i: int| 0 <= i < text.len() ==> #[trigger] encode_utf8(text)[i] == text[i] as u8,
{
    assert(is_ascii_chars(text));
    is_ascii_chars_encode_utf8(text);
}

impl KeyPair {
    /// A fresh random key pair.
    pub fn generate() -> (res: Result<Self, KeyError>)
        ensures
            res matches Ok(kp) && key_pair_accepted(kp@.0, kp@.1) && keys_match(kp@.0, kp@.1)
                && exists|secret: Seq<u8>|
                {
                    &&& secret.len() == 32
                    &&& p256_secret_key_valid(secret)
                    &&& kp@.0 == hex_encode_spec(secret)
                    &&& kp@.1 == hex_encode_spec(p256_public_key_of(secret))
                },
    {
        let secret = random_secret_key();
        let public = public_key_of(secret.as_slice());
        let private_key = hex_encode(secret.as_slice());
        let public_key = hex_encode(public.as_slice());
        proof {
            lemma_hex_roundtrip(secret@);
            lemma_hex_roundtrip(public@);
            lemma_hex_text_bytes(secret@);
            lemma_hex_text_bytes(public@);
            assert forall|i: int| 0 <= i < private_key@.len() implies is_hex_char(
                #[trigger] private_key@[i],
            ) by {
                let b = secret@[i / 2];
                assert(b / 16 < 16);
                assert(b % 16 < 16);
            }
            assert forall|i: int| 0 <= i < public_key@.len() implies is_hex_char(
                #[trigger] public_key@[i],
            ) by {
                let b = public@[i / 2];
                assert(b / 16 < 16);
                assert(b % 16 < 16);
            }
            assert(secret@.len() == 32 && p256_secret_key_valid(secret@) && private_key@
                == hex_encode_spec(secret@) && public_key@ == hex_encode_spec(
                p256_public_key_of(secret@),
            ));
        }
        Ok(KeyPair { private_key, public_key })
    }

    /// A key pair from hexadecimal texts: `WrongFormat` where either is not hexadecimal,
    /// else `CryptoError` where a length is wrong, the secret is not a P-256 scalar, or the
    /// public key is not a P-256 point.
    pub fn new(private_key: String, public_key: String) -> (res: Result<Self, KeyError>)
        ensures
            res is Ok <==> key_pair_accepted(private_key@, public_key@),
            res matches Ok(kp) ==> kp@ == (private_key@, public_key@),
            !is_hex_text(private_key@) || !is_hex_text(public_key@) ==> res matches Err(
                KeyError::WrongFormat,
            ),
            is_hex_text(private_key@) && is_hex_text(public_key@) && !key_pair_accepted(
                private_key@,
                public_key@,
            ) ==> res matches Err(KeyError::CryptoError(_)),
            is_hex_text(private_key@) && is_hex_text(public_key@) && private_key@.len() != 64
                ==> (res matches Err(KeyError::CryptoError(msg)) && msg@
                == "private key must be 64 hex characters (32 bytes)"@),
            is_hex_text(private_key@) && is_hex_text(public_key@) && private_key@.len() == 64
                && public_key@.len() != 130 ==> (res matches Err(KeyError::CryptoError(msg)) && msg@
                == "public key must be 130 hex characters (65 bytes uncompressed)"@),
            ({
                let secret = hex_decode_spec(encode_utf8(private_key@));
                let point = hex_decode_spec(encode_utf8(public_key@));
                let shaped = is_hex_text(private_key@) && is_hex_text(public_key@)
                    && private_key@.len() == 64 && public_key@.len() == 130;
                &&& shaped && !p256_secret_key_valid(secret) ==> (res matches Err(
                    KeyError::CryptoError(msg),
                ) && msg@ == "invalid private key: crypto error"@)
                &&& shaped && p256_secret_key_valid(secret) && !sec1_encoding_valid(point) ==> (
                res matches Err(KeyError::CryptoError(msg)) && msg@
                    == "invalid public key format: elliptic curve point encoding error"@)
                &&& shaped && p256_secret_key_valid(secret) && sec1_encoding_valid(point)
                    && !p256_public_key_valid(point) ==> (res matches Err(KeyError::CryptoError(msg))
                    && msg@ == "invalid public key point"@)
            }),
    {
        if !regex_is_match("^[0-9a-fA-F]+$", private_key.as_str()) || !regex_is_match(
            "^[0-9a-fA-F]+$",
            public_key.as_str(),
        ) {
            return Err(KeyError::WrongFormat);
        }
        proof {
            lemma_hex_text_ascii(private_key@);
            lemma_hex_text_ascii(public_key@);
        }
        if private_key.as_str().as_bytes().len() != 64 {
            proof {
                reveal_strlit("private key must be 64 hex characters (32 bytes)");
            }
            return Err(KeyError::CryptoError(
                String::from_str("private key must be 64 hex characters (32 bytes)"),
            ));
        }
        if public_key.as_str().as_bytes().len() != 130 {
            proof {
                reveal_strlit("public key must be 130 hex characters (65 bytes uncompressed)");
            }
            return Err(KeyError::CryptoError(
                String::from_str("public key must be 130 hex characters (65 bytes uncompressed)"),
            ));
        }
        let private_bytes = match hex_decode(private_key.as_str()) {
            Ok(bytes) => bytes,
            Err(detail) => {
                let mut msg = String::from_str("failed to decode private key: ");
                msg.append(detail.as_str());
                return Err(KeyError::CryptoError(msg));
            },
        };
        match check_secret_key(private_bytes.as_slice()) {
            Ok(()) => {},
            Err(detail) => {
                let mut msg = String::from_str("invalid private key: ");
                msg.append(detail.as_str());
                proof {
                    reveal_strlit("invalid private key: ");
                    reveal_strlit("crypto error");
                    reveal_strlit("invalid private key: crypto error");
                    assert(msg@ =~= "invalid private key: crypto error"@);
                }
                return Err(KeyError::CryptoError(msg));
            },
        }
        let public_bytes = match hex_decode(public_key.as_str()) {
            Ok(bytes) => bytes,
            Err(detail) => {
                let mut msg = String::from_str("failed to decode public key: ");
                msg.append(detail.as_str());
                return Err(KeyError::CryptoError(msg));
            },
        };
        match check_sec1_encoding(public_bytes.as_slice()) {
            Ok(()) => {},
            Err(detail) => {
                let mut msg = String::from_str("invalid public key format: ");
                msg.append(detail.as_str());
                proof {
                    reveal_strlit("invalid public key format: ");
                    reveal_strlit("elliptic curve point encoding error");
                    reveal_strlit("invalid public key format: elliptic curve point encoding error");
                    assert(msg@ =~= "invalid public key format: elliptic curve point encoding error"@);
                }
                return Err(KeyError::CryptoError(msg));
            },
        }
        if !is_valid_public_key(public_bytes.as_slice()) {
            return Err(KeyError::CryptoError(String::from_str("invalid public key point")));
        }
        Ok(KeyPair { private_key, public_key })
    }

    pub fn get_private_key(&self) -> (res: &str)
        ensures
            res@ == self@.0,
    {
        self.private_key.as_str()
    }

    pub fn get_public_key(&self) -> (res: &str)
        ensures
            res@ == self@.1,
    {
        self.public_key.as_str()
    }
}

impl Clone for KeyPair {
    fn clone(&self) -> (res: Self)
        ensures
            res@ == self@,
    {
        KeyPair { private_key: self.private_key.clone(), public_key: self.public_key.clone() }
    }
}

impl View for KeyPair {
    type V = (Seq<char>, Seq<char>);

    /// The private and the public key texts.
    closed spec fn view(&self) -> (Seq<char>, Seq<char>) {
        (self.private_key@, self.public_key@)
    }
}

impl KeyError {
    /// The text of this error.
    pub fn message(&self) -> (res: String)
        ensures
            res@ == key_error_text(*self),
    {
        match self {
            KeyError::WrongFormat => String::from_str("invalid key formatting"),
            KeyError::CryptoError(msg) => {
                let mut text = String::from_str("crypto error: ");
                text.append(msg.as_str());
                text
            },
        }
    }
}


impl From<String> for KeyError {
    fn from(err: String) -> (res: Self) {
        KeyError::CryptoError(err)
    }
}

impl vstd::std_specs::convert::FromSpecImpl<String> for KeyError {
    open spec fn obeys_from_spec() -> bool {
        true
    }

    open spec fn from_spec(err: String) -> Self {
        KeyError::CryptoError(err)
    }
}

} // verus!
