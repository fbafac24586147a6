use vstd::prelude::*;
use vstd::string::*;
use vstd::utf8::*;
use crate::crypto::{
    check_sec1_encoding, check_secret_key, check_signature_der, ecdsa_sign, ecdsa_verify,
    is_valid_public_key, p256_public_key_of, p256_public_key_valid, p256_secret_key_valid,
    p256_sign_der, p256_signature_der_valid, p256_verify, public_key_of, sec1_encoding_valid,
};
use crate::currency::{amount_error_text, Amount, AmountError};
use crate::encoding::{
    decimal_spec, decimal_string, hex_decodable, hex_decode, hex_decode_error_text,
    hex_decode_spec, hex_encode, hex_encode_spec, lemma_hex_roundtrip, lemma_hex_text_bytes,
};
use crate::hashing::{sha256, sha256_digest};

verus! {

/// A transfer of `amount` from one address to another, paying `fee` to the miner.
/// A reward has an empty sender and no fee.
#[derive(Debug)]
pub struct Transaction {
    id: String,
    from_address: String,
    to_address: String,
    amount: Amount,
    fee: Amount,
    signature: Option<String>,
}

/// What a transaction holds.
pub struct TxModel {
    pub id: Seq<char>,
    pub from: Seq<char>,
    pub to: Seq<char>,
    pub amount: u64,
    pub fee: u64,
    pub signature: Option<Seq<char>>,
}

/// Why a transaction could not be formed, signed or checked.
#[derive(Debug)]
pub enum TransactionError {
    EmptyAddress,
    NonPositiveAmount,
    AmountError(AmountError),
    ExistingSignature,
    CryptoError(String),
}

/// The text that identifies and is signed for a transaction.
pub open spec fn tx_data_spec(from: Seq<char>, to: Seq<char>, amount: u64, fee: u64) -> Seq<char> {
    "FromAddress:"@ + from + ",ToAddress:"@ + to + ",Amount:"@ + decimal_spec(amount as nat)
        + ",Fee:"@ + decimal_spec(fee as nat)
}

/// The identifier of a transaction: the hexadecimal SHA-256 digest of its data text.
pub open spec fn tx_id_spec(from: Seq<char>, to: Seq<char>, amount: u64, fee: u64) -> Seq<char> {
    hex_encode_spec(sha256_digest(encode_utf8(tx_data_spec(from, to, amount, fee))))
}

/// The bytes that a transaction's signature covers.
pub open spec fn tx_message(m: TxModel) -> Seq<u8> {
    encode_utf8(tx_data_spec(m.from, m.to, m.amount, m.fee))
}

/// A transaction's signature covers exactly the UTF-8 bytes of its data text, the text
/// that `get_data_string` gives: its signature is valid exactly when the sender's key and
/// the DER signature decode and the signature verifies over those bytes, with no further
/// hashing before `p256` hashes them.
pub proof fn lemma_signature_covers_data_text(m: TxModel)
    ensures
        tx_message(m) == encode_utf8(tx_data_spec(m.from, m.to, m.amount, m.fee)),
        signature_valid(m) <==> (signature_parts(m) matches Some(parts) && p256_verify(
            parts.0,
            encode_utf8(tx_data_spec(m.from, m.to, m.amount, m.fee)),
            parts.1,
        )),
{
}

/// The public key and DER signature that a transaction's sender address and signature
/// decode to, where both decode and parse.
pub open spec fn signature_parts(m: TxModel) -> Option<(Seq<u8>, Seq<u8>)> {
    match m.signature {
        None => None,
        Some(sig) => {
            let from_bytes = encode_utf8(m.from);
            let sig_bytes = encode_utf8(sig);
            if hex_decodable(from_bytes) && sec1_encoding_valid(hex_decode_spec(from_bytes))
                && p256_public_key_valid(hex_decode_spec(from_bytes)) && hex_decodable(sig_bytes)
                && p256_signature_der_valid(hex_decode_spec(sig_bytes)) {
                Some((hex_decode_spec(from_bytes), hex_decode_spec(sig_bytes)))
            } else {
                None
            }
        },
    }
}

/// The text with which checking the signature of `m` fails, for the first step that
/// fails: no signature, a sender address that is not hexadecimal, not a SEC1 point or not
/// a P-256 point, a signature that is not hexadecimal or not a DER signature.
pub open spec fn signature_error_text(m: TxModel) -> Seq<char> {
    let from_bytes = encode_utf8(m.from);
    let public_key = hex_decode_spec(from_bytes);
    match m.signature {
        None => "transaction is not signed"@,
        Some(sig) => {
            let sig_bytes = encode_utf8(sig);
            if !hex_decodable(from_bytes) {
                "failed to decode public key: "@ + hex_decode_error_text(from_bytes)
            } else if !sec1_encoding_valid(public_key) {
                "failed to parse public key point: elliptic curve point encoding error"@
            } else if !p256_public_key_valid(public_key) {
                "failed to unmarshal public key"@
            } else if !hex_decodable(sig_bytes) {
                "failed to decode signature: "@ + hex_decode_error_text(sig_bytes)
            } else {
                "failed to unmarshal signature: signature error"@
            }
        },
    }
}

/// Whether a transaction carries a signature by its sender over its data.
pub open spec fn signature_valid(m: TxModel) -> bool {
    match signature_parts(m) {
        Some(parts) => p256_verify(parts.0, tx_message(m), parts.1),
        None => false,
    }
}

/// The estimated serialized size of a transaction, in bytes.
pub open spec fn estimate_size_spec(m: TxModel) -> nat {
    178 + match m.signature {
        Some(sig) => encode_utf8(sig).len() / 2,
        None => 72,
    }
}

/// What a transaction costs its sender: amount plus fee, or the amount alone where the
/// sum overflows.
pub open spec fn total_cost_spec(m: TxModel) -> u64 {
    if m.amount + m.fee <= u64::MAX {
        (m.amount + m.fee) as u64
    } else {
        m.amount
    }
}

impl Clone for Transaction {
    fn clone(&self) -> (res: Self)
        ensures
            res == *self,
    {
        Transaction {
            id: self.id.clone(),
            from_address: self.from_address.clone(),
            to_address: self.to_address.clone(),
            amount: self.amount,
            fee: self.fee,
            signature: self.signature.clone(),
        }
    }
}

impl View for Transaction {
    type V = TxModel;

    closed spec fn view(&self) -> TxModel {
        TxModel {
            id: self.id@,
            from: self.from_address@,
            to: self.to_address@,
            amount: self.amount@,
            fee: self.fee@,
            signature: match self.signature {
                Some(s) => Some(s@),
                None => None,
            },
        }
    }
}

fn data_string(from: &str, to: &str, amount: u64, fee: u64) -> (res: String)
    ensures
        res@ == tx_data_spec(from@, to@, amount, fee),
{
    let mut data = String::from_str("FromAddress:");
    data.append(from);
    data.append(",ToAddress:");
    data.append(to);
    data.append(",Amount:");
    let amount_text = decimal_string(amount);
    data.append(amount_text.as_str());
    data.append(",Fee:");
    let fee_text = decimal_string(fee);
    data.append(fee_text.as_str());
    data
}

/// `prefix` followed by `detail`.
fn with_detail(prefix: &str, detail: &str) -> (res: String)
    ensures
        res@ == prefix@ + detail@,
{
    let mut text = String::from_str(prefix);
    text.append(detail);
    text
}

impl Transaction {
    /// A new unsigned transfer: `EmptyAddress` where an address is empty, else
    /// `NonPositiveAmount` where the amount is zero.
    pub fn new(from_address: String, to_address: String, amount: Amount, fee: Amount) -> (res:
        Result<Self, TransactionError>)
        ensures
            from_address@.len() == 0 || to_address@.len() == 0 ==> res matches Err(
                TransactionError::EmptyAddress,
            ),
            from_address@.len() > 0 && to_address@.len() > 0 && amount@ == 0 ==> res matches Err(
                TransactionError::NonPositiveAmount,
            ),
            from_address@.len() > 0 && to_address@.len() > 0 && amount@ > 0 ==> (res matches Ok(
                tx,
            ) && tx@ == (TxModel {
                id: tx_id_spec(from_address@, to_address@, amount@, fee@),
                from: from_address@,
                to: to_address@,
                amount: amount@,
                fee: fee@,
                signature: None,
            })),
    {
        if from_address.as_str().is_empty() || to_address.as_str().is_empty() {
            return Err(TransactionError::EmptyAddress);
        }
        if amount.is_zero() {
            return Err(TransactionError::NonPositiveAmount);
        }
        let mut tx = Transaction {
            id: String::new(),
            from_address,
            to_address,
            amount,
            fee,
            signature: None,
        };
        tx.id = tx.calculate_id();
        Ok(tx)
    }

    /// A new reward to `to_address`, with no sender and no fee: `EmptyAddress` where the
    /// address is empty.
    pub fn new_reward(to_address: String, amount: Amount) -> (res: Result<Self, TransactionError>)
        ensures
            to_address@.len() == 0 ==> res matches Err(TransactionError::EmptyAddress),
            to_address@.len() > 0 ==> (res matches Ok(tx) && tx@ == (TxModel {
                id: tx_id_spec(Seq::empty(), to_address@, amount@, 0),
                from: Seq::empty(),
                to: to_address@,
                amount: amount@,
                fee: 0,
                signature: None,
            })),
    {
        if to_address.as_str().is_empty() {
            return Err(TransactionError::EmptyAddress);
        }
        let mut tx = Transaction {
            id: String::new(),
            from_address: String::new(),
            to_address,
            amount,
            fee: Amount::from_satoshis(0),
            signature: None,
        };
        tx.id = tx.calculate_id();
        Ok(tx)
    }

    /// The identifier this transaction's fields call for.
    fn calculate_id(&self) -> (res: String)
        ensures
            res@ == tx_id_spec(self@.from, self@.to, self@.amount, self@.fee),
    {
        let data = self.get_data_string();
        let digest = sha256(data.as_str().as_bytes());
        hex_encode(digest.as_slice())
    }

    /// The text this transaction's identifier and signature are computed from.
    pub fn get_data_string(&self) -> (res: String)
        ensures
            res@ == tx_data_spec(self@.from, self@.to, self@.amount, self@.fee),
    {
        data_string(
            self.from_address.as_str(),
            self.to_address.as_str(),
            self.amount.satoshis(),
            self.fee.satoshis(),
        )
    }

    /// The estimated size in bytes: 178 for the fixed fields, plus half the length of the
    /// hexadecimal signature, or 72 where there is none.
    pub fn estimate_size(&self) -> (res: usize)
        ensures
            res == estimate_size_spec(self@),
    {
        let witness_size = match &self.signature {
            Some(sig) => sig.as_str().as_bytes().len() / 2,
            None => 72,
        };
        178 + witness_size
    }

    /// The fee this transaction's size calls for at `satoshis_per_byte`.
    pub fn suggest_fee(&self, satoshis_per_byte: u64) -> (res: Amount)
        requires
            estimate_size_spec(self@) * satoshis_per_byte <= u64::MAX,
        ensures
            res@ == estimate_size_spec(self@) * satoshis_per_byte,
    {
        let size = self.estimate_size() as u64;
        Amount::from_satoshis(size * satoshis_per_byte)
    }

    /// Amount plus fee; the amount alone where the sum overflows.
    pub fn total_cost(&self) -> (res: Amount)
        ensures
            res@ == total_cost_spec(self@),
    {
        match self.amount.checked_add(self.fee) {
            Ok(sum) => sum,
            Err(_) => self.amount,
        }
    }

    /// Signs the transaction with the hexadecimal secret key `private_key_hex`, which must be
    /// the key of the sender address. On any error the transaction is unchanged:
    /// `ExistingSignature` where it is already signed, else `CryptoError` where the key is
    /// not hexadecimal, is not a P-256 secret scalar, or does not belong to the sender.
    pub fn sign(&mut self, private_key_hex: &str) -> (res: Result<(), TransactionError>)
        ensures
            res is Err ==> final(self)@ == old(self)@,
            old(self)@.signature is Some ==> res matches Err(TransactionError::ExistingSignature),
            old(self)@.signature is None && !hex_decodable(private_key_hex.spec_bytes())
                ==> (res matches Err(TransactionError::CryptoError(msg)) && msg@
                == "failed to decode private key: "@ + hex_decode_error_text(
                private_key_hex.spec_bytes(),
            )),
            old(self)@.signature is None && hex_decodable(private_key_hex.spec_bytes())
                && !p256_secret_key_valid(hex_decode_spec(private_key_hex.spec_bytes()))
                ==> (res matches Err(TransactionError::CryptoError(msg)) && msg@
                == "invalid private key bytes: crypto error"@),
            ({
                let secret = hex_decode_spec(private_key_hex.spec_bytes());
                old(self)@.signature is None && hex_decodable(private_key_hex.spec_bytes())
                    && p256_secret_key_valid(secret) && hex_encode_spec(p256_public_key_of(secret))
                    != old(self)@.from ==> (res matches Err(TransactionError::CryptoError(msg))
                    && msg@ == "private key does not correspond to FromAddress"@)
            }),
            ({
                let secret = hex_decode_spec(private_key_hex.spec_bytes());
                old(self)@.signature is None && hex_decodable(private_key_hex.spec_bytes())
                    && p256_secret_key_valid(secret) && hex_encode_spec(p256_public_key_of(secret))
                    == old(self)@.from ==> res is Ok && final(self)@ == (TxModel {
                    signature: Some(hex_encode_spec(p256_sign_der(secret, tx_message(old(self)@)))),
                    ..old(self)@
                })
            }),
            res is Ok ==> signature_parts(final(self)@) is Some && signature_valid(final(self)@),
            res is Ok ==> estimate_size_spec(final(self)@) <= 178 + 73,
            res is Ok ==> final(self)@.signature == Some(
                hex_encode_spec(
                    p256_sign_der(
                        hex_decode_spec(private_key_hex.spec_bytes()),
                        encode_utf8(
                            tx_data_spec(old(self)@.from, old(self)@.to, old(self)@.amount, old(self)@.fee),
                        ),
                    ),
                ),
            ),
    {
        if self.signature.is_some() {
            return Err(TransactionError::ExistingSignature);
        }
        let private_key_bytes = match hex_decode(private_key_hex) {
            Ok(bytes) => bytes,
            Err(detail) => {
                let msg = with_detail("failed to decode private key: ", detail.as_str());
                return Err(TransactionError::CryptoError(msg));
            },
        };
        match check_secret_key(private_key_bytes.as_slice()) {
            Ok(()) => {},
            Err(detail) => {
                let msg = with_detail("invalid private key bytes: ", detail.as_str());
                proof {
                    reveal_strlit("invalid private key bytes: ");
                    reveal_strlit("crypto error");
                    reveal_strlit("invalid private key bytes: crypto error");
                    assert(msg@ =~= "invalid private key bytes: crypto error"@);
                }
                return Err(TransactionError::CryptoError(msg));
            },
        }
        let public_key = public_key_of(private_key_bytes.as_slice());
        let public_key_hex = hex_encode(public_key.as_slice());
        if public_key_hex != self.from_address {
            proof {
                reveal_strlit("private key does not correspond to FromAddress");
            }
            return Err(TransactionError::CryptoError(
                String::from_str("private key does not correspond to FromAddress"),
            ));
        }
        let data = self.get_data_string();
        let der = ecdsa_sign(private_key_bytes.as_slice(), data.as_str().as_bytes());
        let signature_hex = hex_encode(der.as_slice());
        proof {
            lemma_hex_roundtrip(public_key@);
            lemma_hex_roundtrip(der@);
            lemma_hex_text_bytes(der@);
        }
        self.signature = Some(signature_hex);
        Ok(())
    }

    /// Checks the signature against the sender address: `Ok(valid)` where the address and
    /// the signature decode and parse, `CryptoError` naming the first step that fails
    /// otherwise.
    pub fn verify_signature(&self) -> (res: Result<bool, TransactionError>)
        ensures
            res is Ok <==> signature_parts(self@) is Some,
            res matches Ok(valid) ==> valid == signature_valid(self@),
            res matches Ok(valid) ==> valid == p256_verify(
                hex_decode_spec(encode_utf8(self@.from)),
                encode_utf8(tx_data_spec(self@.from, self@.to, self@.amount, self@.fee)),
                hex_decode_spec(encode_utf8(self@.signature->Some_0)),
            ),
            res matches Err(e) ==> (e matches TransactionError::CryptoError(msg) && msg@
                == signature_error_text(self@)),
    {
        let signature_hex = match &self.signature {
            Some(sig) => sig,
            None => {
                proof {
                    reveal_strlit("transaction is not signed");
                }
                return Err(TransactionError::CryptoError(
                    String::from_str("transaction is not signed"),
                ));
            },
        };
        let public_key_bytes = match hex_decode(self.from_address.as_str()) {
            Ok(bytes) => bytes,
            Err(detail) => {
                return Err(TransactionError::CryptoError(
                    with_detail("failed to decode public key: ", detail.as_str()),
                ));
            },
        };
        match check_sec1_encoding(public_key_bytes.as_slice()) {
            Ok(()) => {},
            Err(detail) => {
                let msg = with_detail("failed to parse public key point: ", detail.as_str());
                proof {
                    reveal_strlit("failed to parse public key point: ");
                    reveal_strlit("elliptic curve point encoding error");
                    reveal_strlit("failed to parse public key point: elliptic curve point encoding error");
                    assert(msg@ =~= "failed to parse public key point: elliptic curve point encoding error"@);
                }
                return Err(TransactionError::CryptoError(msg));
            },
        }
        if !is_valid_public_key(public_key_bytes.as_slice()) {
            proof {
                reveal_strlit("failed to unmarshal public key");
            }
            return Err(TransactionError::CryptoError(
                String::from_str("failed to unmarshal public key"),
            ));
        }
        let signature_bytes = match hex_decode(signature_hex.as_str()) {
            Ok(bytes) => bytes,
            Err(detail) => {
                return Err(TransactionError::CryptoError(
                    with_detail("failed to decode signature: ", detail.as_str()),
                ));
            },
        };
        match check_signature_der(signature_bytes.as_slice()) {
            Ok(()) => {},
            Err(detail) => {
                let msg = with_detail("failed to unmarshal signature: ", detail.as_str());
                proof {
                    reveal_strlit("failed to unmarshal signature: ");
                    reveal_strlit("signature error");
                    reveal_strlit("failed to unmarshal signature: signature error");
                    assert(msg@ =~= "failed to unmarshal signature: signature error"@);
                }
                return Err(TransactionError::CryptoError(msg));
            },
        }
        let data = self.get_data_string();
        Ok(
            ecdsa_verify(
                public_key_bytes.as_slice(),
                data.as_str().as_bytes(),
                signature_bytes.as_slice(),
            ),
        )
    }

    pub fn id(&self) -> (res: &str)
        ensures
            res@ == self@.id,
    {
        self.id.as_str()
    }

    pub fn from_address(&self) -> (res: &str)
        ensures
            res@ == self@.from,
    {
        self.from_address.as_str()
    }

    pub fn to_address(&self) -> (res: &str)
        ensures
            res@ == self@.to,
    {
        self.to_address.as_str()
    }

    pub fn amount(&self) -> (res: Amount)
        ensures
            res@ == self@.amount,
    {
        self.amount
    }

    pub fn fee(&self) -> (res: Amount)
        ensures
            res@ == self@.fee,
    {
        self.fee
    }

    pub fn signature(&self) -> (res: Option<&str>)
        ensures
            match res {
                Some(s) => self@.signature == Some(s@),
                None => self@.signature is None,
            },
    {
        match &self.signature {
            Some(s) => Some(s.as_str()),
            None => None,
        }
    }
}


/// The text of a transaction error.
pub open spec fn transaction_error_text(e: TransactionError) -> Seq<char> {
    match e {
        TransactionError::EmptyAddress => "from or to address is empty"@,
        TransactionError::NonPositiveAmount => "amount must be positive"@,
        TransactionError::AmountError(inner) => "amount error: "@ + amount_error_text(inner),
        TransactionError::ExistingSignature => "transaction is already signed"@,
        TransactionError::CryptoError(msg) => "crypto error: "@ + msg@,
    }
}

impl TransactionError {
    /// The text of this error.
    pub fn message(&self) -> (res: String)
        ensures
            res@ == transaction_error_text(*self),
    {
        match self {
            TransactionError::EmptyAddress => String::from_str("from or to address is empty"),
            TransactionError::NonPositiveAmount => String::from_str("amount must be positive"),
            TransactionError::AmountError(inner) => {
                let detail = inner.message();
                with_detail("amount error: ", detail.as_str())
            },
            TransactionError::ExistingSignature => String::from_str("transaction is already signed"),
            TransactionError::CryptoError(msg) => with_detail("crypto error: ", msg.as_str()),
        }
    }
}


impl From<String> for TransactionError {
    fn from(err: String) -> (res: Self) {
        TransactionError::CryptoError(err)
    }
}

impl vstd::std_specs::convert::FromSpecImpl<String> for TransactionError {
    open spec fn obeys_from_spec() -> bool {
        true
    }

    open spec fn from_spec(err: String) -> Self {
        TransactionError::CryptoError(err)
    }
}

impl From<AmountError> for TransactionError {
    fn from(err: AmountError) -> (res: Self) {
        TransactionError::AmountError(err)
    }
}

impl vstd::std_specs::convert::FromSpecImpl<AmountError> for TransactionError {
    open spec fn obeys_from_spec() -> bool {
        true
    }

    open spec fn from_spec(err: AmountError) -> Self {
        TransactionError::AmountError(err)
    }
}

impl Transaction {
    /// A transaction with exactly these fields, as a stored or received one is rebuilt.
    pub fn from_parts(
        id: String,
        from_address: String,
        to_address: String,
        amount: Amount,
        fee: Amount,
        signature: Option<String>,
    ) -> (res: Self)
        ensures
            res@ == (TxModel {
                id: id@,
                from: from_address@,
                to: to_address@,
                amount: amount@,
                fee: fee@,
                signature: match signature {
                    Some(s) => Some(s@),
                    None => None,
                },
            }),
    {
        Transaction { id, from_address, to_address, amount, fee, signature }
    }
}

} // verus!
