//! Wallet rules: funds checks, signature checks and the creation of accounts.

use vstd::prelude::*;
use vstd::utf8::encode_utf8;
use crate::amount::{Amount, scaled, max_scale, decimal_gt};
use crate::crypto::{
    hex_bytes, sec1_key_valid, signature_bytes_valid, ecdsa_sha256_accepts, hex_decode,
    ecdsa_sha256_check, SigCheck, secret_key_valid, compressed_public_key, sha256_of, hex_lower,
    sha256_digest, secp256k1_public_key, hex_encode, lemma_hex_roundtrip, lemma_hex_lower_ascii, hex_char,
};
use crate::models::{Account, CreateWalletReq, Transaction, TransferReq};
use crate::text::{decimal_digits, u64_to_decimal};

verus! {

pub struct Wallet {}

/// Why a signature could not be checked.
#[derive(Clone, Copy, Debug, PartialEq, Eq, Structural)]
pub enum SignatureFault {
    /// The stored public key is no hex text.
    PublicKeyHex,
    /// The stored public key is no SEC1 key.
    PublicKey,
    /// The signature is no hex text.
    SignatureHex,
    /// The signature bytes are no signature.
    Signature,
}

/// The hex public key on record for an account; an account that does not
/// exist has the empty key.
pub open spec fn public_key_of(account: Option<Account>) -> Seq<char> {
    match account {
        Some(a) => a.public_key@,
        None => Seq::empty(),
    }
}

/// The outcome of checking a hex signature of `message` under a hex public
/// key: the key is decoded and parsed first, then the signature.
pub open spec fn signature_verdict(public_key_hex: Seq<char>, signature_hex: Seq<char>, message: Seq<u8>) -> Result<bool, SignatureFault> {
    match hex_bytes(encode_utf8(public_key_hex)) {
        None => Err(SignatureFault::PublicKeyHex),
        Some(key) => if !sec1_key_valid(key) {
            Err(SignatureFault::PublicKey)
        } else {
            match hex_bytes(encode_utf8(signature_hex)) {
                None => Err(SignatureFault::SignatureHex),
                Some(sig) => if !signature_bytes_valid(sig) {
                    Err(SignatureFault::Signature)
                } else {
                    Ok(ecdsa_sha256_accepts(key, message, sig))
                },
            }
        },
    }
}

/// The text that a transfer request is signed over: sender, receiver, amount
/// text and nonce, one after the other.
pub open spec fn transfer_message(req: TransferReq) -> Seq<char> {
    req.sender@ + req.receiver@ + req.amount@ + decimal_digits(req.nonce as nat)
}

/// The sender can afford the transaction: both accounts exist, the amount is
/// not above the sender's recorded balance, and the nonce is the sender's.
pub open spec fn funds_ok(sender: Option<Account>, receiver: Option<Account>, tx: Transaction) -> bool {
    match (sender, receiver) {
        (Some(s), Some(_)) => {
            &&& !(scaled(tx.amount, max_scale(tx.amount, s.balance)) > scaled(
                s.balance,
                max_scale(tx.amount, s.balance),
            ))
            &&& tx.nonce == s.nonce
        },
        _ => false,
    }
}

/// The opening balance of a new wallet: the genesis wallet gets the whole
/// supply of 99900000000000 coins, any other wallet nothing.
pub open spec fn opening_balance(address: Seq<char>) -> (int, int) {
    if address == "genesis"@ {
        (99900000000000, 0)
    } else {
        (0, 0)
    }
}

/// Checks a signature given as hex text over `message` under a public key given
/// as hex text.
fn check_hex_signature(public_key_hex: &str, signature_hex: &str, message: &[u8]) -> (res: Result<bool, SignatureFault>)
    ensures
        res == signature_verdict(public_key_hex@, signature_hex@, message@),
        public_key_hex@.len() == 0 ==> res == Err::<bool, SignatureFault>(SignatureFault::PublicKey),
        // a key and a signature that parse: whether the signature is one of the whole message
        forall|key: Seq<u8>, sig: Seq<u8>|
            hex_bytes(encode_utf8(public_key_hex@)) == Some(key) && hex_bytes(encode_utf8(signature_hex@))
                == Some(sig) && sec1_key_valid(key) && signature_bytes_valid(sig) ==> res == Ok::<
                bool,
                SignatureFault,
            >(#[trigger] ecdsa_sha256_accepts(key, message@, sig)),
{
    let key = match hex_decode(public_key_hex) {
        Some(k) => k,
        None => return Err(SignatureFault::PublicKeyHex),
    };
    match hex_decode(signature_hex) {
        None => {
            let empty: Vec<u8> = Vec::new();
            match ecdsa_sha256_check(key.as_slice(), empty.as_slice(), message) {
                SigCheck::KeyRejected => Err(SignatureFault::PublicKey),
                _ => Err(SignatureFault::SignatureHex),
            }
        },
        Some(sig) => match ecdsa_sha256_check(key.as_slice(), sig.as_slice(), message) {
            SigCheck::KeyRejected => Err(SignatureFault::PublicKey),
            SigCheck::SignatureRejected => Err(SignatureFault::Signature),
            SigCheck::Checked(ok) => Ok(ok),
        },
    }
}

/// Law: where the key and the signature both parse, the verdict is whether
/// the signature is one of the whole message under the key: every byte of the
/// message counts.
pub proof fn lemma_verdict_on_whole_message(
    public_key_hex: Seq<char>,
    signature_hex: Seq<char>,
    message: Seq<u8>,
    key: Seq<u8>,
    sig: Seq<u8>,
)
    requires
        hex_bytes(encode_utf8(public_key_hex)) == Some(key),
        hex_bytes(encode_utf8(signature_hex)) == Some(sig),
        sec1_key_valid(key),
        signature_bytes_valid(sig),
    ensures
        signature_verdict(public_key_hex, signature_hex, message) == Ok::<bool, SignatureFault>(
            ecdsa_sha256_accepts(key, message, sig),
        ),
{
}

impl Wallet {
    /// The compressed public key (hex) whose secret key is the SHA-256 digest
    /// of the seed; `None` where that digest is no valid secret key.
    pub fn generate_compressed_pubkey(seed: &str) -> (res: Option<String>)
        ensures
            match res {
                Some(k) => secret_key_valid(sha256_of(encode_utf8(seed@))) && k@ == hex_lower(
                    compressed_public_key(sha256_of(encode_utf8(seed@))),
                ),
                None => !secret_key_valid(sha256_of(encode_utf8(seed@))),
            },
            // 66 hex digits, the first two `02` or `03` (the compressed-point tag)
            res matches Some(k) ==> k@.len() == 66 && k@[0] == '0' && (k@[1] == '2' || k@[1] == '3'),
            // a generated key is always read back as a key by signature checking
            res matches Some(k) ==> forall|sig: Seq<char>, msg: Seq<u8>|
                #[trigger] signature_verdict(k@, sig, msg) != Err::<bool, SignatureFault>(
                    SignatureFault::PublicKeyHex,
                ) && signature_verdict(k@, sig, msg) != Err::<bool, SignatureFault>(
                    SignatureFault::PublicKey,
                ),
    {
        let hash = sha256_digest(seed.as_bytes());
        match secp256k1_public_key(hash.as_slice()) {
            Some(key) => {
                let text = hex_encode(key.as_slice());
                proof {
                    lemma_hex_roundtrip(key@);
                    lemma_hex_lower_ascii(key@);
                    assert(text@[0] == hex_char(key@[0] as int / 16));
                    assert(text@[1] == hex_char(key@[0] as int % 16));
                }
                Some(text)
            },
            None => None,
        }
    }

    /// The text a transfer request is signed over.
    pub fn transaction_data(req: &TransferReq) -> (res: String)
        ensures
            res@ == transfer_message(*req),
    {
        let mut s = req.sender.clone();
        s.append(req.receiver.as_str());
        s.append(req.amount.as_str());
        let n = u64_to_decimal(req.nonce);
        s.append(n.as_str());
        s
    }

    /// Checks the signature of a transfer request against the public key of
    /// the sender's account (`None` where the sender has no account).
    pub fn verify_transaction_signature(sender: &Option<Account>, req: &TransferReq) -> (res: Result<bool, SignatureFault>)
        ensures
            res == signature_verdict(
                public_key_of(*sender),
                req.signature@,
                encode_utf8(transfer_message(*req)),
            ),
            // no account: the empty key is no key
            sender is None ==> res == Err::<bool, SignatureFault>(SignatureFault::PublicKey),
            // a stored key and a signature that parse: whether the signature is one of the
            // whole signed text
            forall|key: Seq<u8>, sig: Seq<u8>|
                hex_bytes(encode_utf8(public_key_of(*sender))) == Some(key) && hex_bytes(
                    encode_utf8(req.signature@),
                ) == Some(sig) && sec1_key_valid(key) && signature_bytes_valid(sig) ==> res == Ok::<
                    bool,
                    SignatureFault,
                >(#[trigger] ecdsa_sha256_accepts(key, encode_utf8(transfer_message(*req)), sig)),
    {
        let data = Self::transaction_data(req);
        let empty = String::new();
        let key = match sender {
            Some(a) => &a.public_key,
            None => &empty,
        };
        check_hex_signature(key.as_str(), req.signature.as_str(), data.as_str().as_bytes())
    }

    /// Checks a signature of `message` against the public key of the account
    /// (`None` where there is no such account).
    pub fn verify_signature(account: &Option<Account>, message: &str, signature_txt: &str) -> (res: Result<bool, SignatureFault>)
        ensures
            res == signature_verdict(public_key_of(*account), signature_txt@, encode_utf8(message@)),
            // no account: the empty key is no key
            account is None ==> res == Err::<bool, SignatureFault>(SignatureFault::PublicKey),
            // a stored key and a signature that parse: whether the signature is one of the
            // whole message, whatever its length
            forall|key: Seq<u8>, sig: Seq<u8>|
                hex_bytes(encode_utf8(public_key_of(*account))) == Some(key) && hex_bytes(
                    encode_utf8(signature_txt@),
                ) == Some(sig) && sec1_key_valid(key) && signature_bytes_valid(sig) ==> res == Ok::<
                    bool,
                    SignatureFault,
                >(#[trigger] ecdsa_sha256_accepts(key, encode_utf8(message@), sig)),
    {
        let empty = String::new();
        let key = match account {
            Some(a) => &a.public_key,
            None => &empty,
        };
        check_hex_signature(key.as_str(), signature_txt, message.as_bytes())
    }

    /// Whether the sender can afford the transaction (see `funds_ok`).
    pub fn verify_transaction_amount(sender: &Option<Account>, receiver: &Option<Account>, tx: &Transaction) -> (res: bool)
        ensures
            res == funds_ok(*sender, *receiver, *tx),
    {
        match (sender, receiver) {
            (Some(s), Some(_)) => {
                if decimal_gt(&tx.amount, &s.balance) {
                    return false;
                }
                if tx.nonce != s.nonce {
                    return false;
                }
                true
            },
            _ => false,
        }
    }

    /// The account of a new wallet: empty chain, nonce 0, and the opening
    /// balance (the whole supply for the genesis wallet).
    pub fn create_wallet_r(req: CreateWalletReq, id: String, created_at: String) -> (acc: Account)
        ensures
            acc.id == id,
            acc.address == req.address,
            acc.wallet_name == req.wallet_name,
            acc.public_key == req.public_key,
            acc.nonce == 0,
            acc.chain@.len() == 0,
            acc.created_at == created_at,
            acc.balance@ == opening_balance(req.address@),
    {
        let genesis = String::from_str("genesis");
        let balance = if req.address == genesis {
            Amount::new(99900000000000, 0)
        } else {
            Amount::zero()
        };
        Account {
            id,
            address: req.address,
            wallet_name: req.wallet_name,
            public_key: req.public_key,
            nonce: 0,
            chain: Vec::new(),
            created_at,
            balance,
        }
    }
}

} // verus!
