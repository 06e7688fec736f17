//! Hashing, hex encoding and ECDSA (secp256k1) signature checking.
//!
//! SHA-256 comes from `sha2` (and `sha256`), hex text from `hex`, and
//! signature checking from `k256`. The hex contracts state the encoding in
//! full; the hash and the signature check are named results.

use vstd::prelude::*;
use vstd::utf8::{encode_utf8, is_ascii_chars, is_ascii_chars_encode_utf8};
use sha2::{Digest, Sha256};
use k256::ecdsa::{Signature, VerifyingKey};
use k256::ecdsa::signature::DigestVerifier;


verus! {

/// The SHA-256 digest of `data`, as `sha2::Sha256` computes it.
pub uninterp spec fn sha256_of(data: Seq<u8>) -> Seq<u8>;

/// The lower-case hex digit of `n` (`0 <= n < 16`).
pub open spec fn hex_char(n: int) -> char {
    if n < 10 {
        (48 + n) as char
    } else {
        (87 + n) as char
    }
}

/// Lower-case hex text of the bytes, two digits per byte, high digit first.
pub open spec fn hex_lower(bytes: Seq<u8>) -> Seq<char>
    decreases bytes.len(),
{
    if bytes.len() == 0 {
        Seq::empty()
    } else {
        seq![hex_char(bytes[0] as int / 16), hex_char(bytes[0] as int % 16)] + hex_lower(bytes.drop_first())
    }
}

/// The value of a hex digit (either case), or `None` for another byte.
pub open spec fn hex_value(c: u8) -> Option<u8> {
    if 48 <= c <= 57 {
        Some((c - 48) as u8)
    } else if 97 <= c <= 102 {
        Some((c - 87) as u8)
    } else if 65 <= c <= 70 {
        Some((c - 55) as u8)
    } else {
        None
    }
}

/// The bytes that hex text denotes: `None` for an odd length or a byte that
/// is no hex digit.
pub open spec fn hex_bytes(text: Seq<u8>) -> Option<Seq<u8>>
    decreases text.len(),
{
    if text.len() % 2 != 0 {
        None
    } else if text.len() == 0 {
        Some(Seq::empty())
    } else {
        match (hex_value(text[0]), hex_value(text[1]), hex_bytes(text.subrange(2, text.len() as int))) {
            (Some(h), Some(l), Some(rest)) => Some(seq![(h * 16 + l) as u8] + rest),
            _ => None,
        }
    }
}

/// The bytes of a text made of ASCII characters, one per character.
pub open spec fn ascii_bytes(chars: Seq<char>) -> Seq<u8> {
    Seq::new(chars.len(), |i: int| chars[i] as u8)
}

/// Hex text is ASCII, and its UTF-8 bytes are its characters' codes.
pub proof fn lemma_hex_lower_ascii(b: Seq<u8>)
    ensures
        is_ascii_chars(hex_lower(b)),
        encode_utf8(hex_lower(b)) == ascii_bytes(hex_lower(b)),
        hex_lower(b).len() == 2 * b.len(),
    decreases b.len(),
{
    if b.len() > 0 {
        lemma_hex_lower_ascii(b.drop_first());
        let h = hex_lower(b);
        let r = hex_lower(b.drop_first());
        assert forall|i: int| 0 <= i < h.len() implies '\0' <= #[trigger] h[i] <= '\u{7f}' by {
            if i >= 2 {
                assert(h[i] == r[i - 2]);
            }
        }
    }
    is_ascii_chars_encode_utf8(hex_lower(b));
    assert(encode_utf8(hex_lower(b)) =~= ascii_bytes(hex_lower(b)));
}

/// The hex digits of a byte decode back to its two halves.
proof fn lemma_hex_char_value(n: int)
    requires
        0 <= n < 16,
    ensures
        hex_value(hex_char(n) as u8) == Some(n as u8),
{
    if n < 10 {
        assert(((48 + n) as char) as u8 == (48 + n) as u8);
    } else {
        assert(((87 + n) as char) as u8 == (87 + n) as u8);
    }
}

/// Law: hex text that `hex::encode` writes is read back by `hex::decode` as
/// the same bytes.
pub proof fn lemma_hex_roundtrip(b: Seq<u8>)
    ensures
        hex_bytes(encode_utf8(hex_lower(b))) == Some(b),
    decreases b.len(),
{
    lemma_hex_lower_ascii(b);
    if b.len() == 0 {
        assert(ascii_bytes(hex_lower(b)) =~= Seq::<u8>::empty());
    } else {
        let rest = b.drop_first();
        lemma_hex_roundtrip(rest);
        lemma_hex_lower_ascii(rest);
        let t = ascii_bytes(hex_lower(b));
        let tr = ascii_bytes(hex_lower(rest));
        assert(t.subrange(2, t.len() as int) =~= tr);
        lemma_hex_char_value(b[0] as int / 16);
        lemma_hex_char_value(b[0] as int % 16);
        assert(t[0] == hex_char(b[0] as int / 16) as u8);
        assert(t[1] == hex_char(b[0] as int % 16) as u8);
        assert(((b[0] as int / 16) * 16 + b[0] as int % 16) as u8 == b[0]);
        assert(seq![b[0]] + rest =~= b);
    }
}

/// The number whose big-endian base-256 digits are `bytes`.
pub open spec fn be_value(bytes: Seq<u8>) -> nat
    decreases bytes.len(),
{
    if bytes.len() == 0 {
        0
    } else {
        be_value(bytes.drop_last()) * 256 + bytes.last() as nat
    }
}

/// The order `n` of the secp256k1 group (`k256`'s `ORDER`).
pub open spec fn secp256k1_order() -> nat {
    0xFFFFFFFFFFFFFFFFFFFFFFFFFFFFFFFEBAAEDCE6AF48A03BBFD25E8CD0364141nat
}

/// A scalar of the group: nonzero and below its order.
pub open spec fn group_scalar(x: nat) -> bool {
    0 < x < secp256k1_order()
}

/// Whether `k256` accepts the bytes as a secret scalar: 32 bytes whose
/// big-endian value is nonzero and below the group order.
pub open spec fn secret_key_valid(bytes: Seq<u8>) -> bool {
    bytes.len() == 32 && group_scalar(be_value(bytes))
}

/// The compressed SEC1 encoding of the public key of the secret scalar.
pub uninterp spec fn compressed_public_key(secret: Seq<u8>) -> Seq<u8>;

/// Whether `k256` accepts the bytes as a SEC1-encoded public key.
pub uninterp spec fn sec1_key_valid(bytes: Seq<u8>) -> bool;

/// Whether `k256` accepts the bytes as a fixed-width (`r || s`) signature:
/// 64 bytes, each half (big-endian) nonzero and below the group order.
pub open spec fn signature_bytes_valid(bytes: Seq<u8>) -> bool {
    &&& bytes.len() == 64
    &&& group_scalar(be_value(bytes.subrange(0, 32)))
    &&& group_scalar(be_value(bytes.subrange(32, 64)))
}

/// Whether `k256` accepts the signature over the SHA-256 digest of the
/// message under the key (keys and signatures given by their bytes).
pub uninterp spec fn ecdsa_sha256_accepts(key: Seq<u8>, message: Seq<u8>, signature: Seq<u8>) -> bool;

/// Calls `sha2::Sha256::digest`. The digest has 32 bytes.
#[verifier::external_body]
pub(crate) fn sha256_digest(data: &[u8]) -> (res: Vec<u8>)
    ensures
        res@ == sha256_of(data@),
        res@.len() == 32,
{
    Sha256::digest(data).to_vec()
}

/// Calls `sha256::digest` on a text: `hex::encode` of `sha2::Sha256::digest`
/// of its UTF-8 bytes (that is how the `sha256` crate computes it).
#[verifier::external_body]
pub(crate) fn sha256_hex_digest(text: &str) -> (res: String)
    ensures
        res@ == hex_lower(sha256_of(encode_utf8(text@))),
{
    sha256::digest(text)
}

/// Calls `hex::encode`: lower-case hex, two digits per byte.
#[verifier::external_body]
pub(crate) fn hex_encode(data: &[u8]) -> (res: String)
    ensures
        res@ == hex_lower(data@),
{
    hex::encode(data)
}

/// Calls `hex::decode` on the UTF-8 bytes of a text; `None` where it returns
/// an error (odd length or a byte that is no hex digit of either case).
#[verifier::external_body]
pub(crate) fn hex_decode(text: &str) -> (res: Option<Vec<u8>>)
    ensures
        match res {
            Some(v) => hex_bytes(encode_utf8(text@)) == Some(v@),
            None => hex_bytes(encode_utf8(text@)) is None,
        },
{
    match hex::decode(text) {
        Ok(v) => Some(v),
        Err(_) => None,
    }
}

/// Calls `k256::ecdsa::SigningKey::from_bytes` on the 32 bytes and, where it
/// accepts them, returns the compressed SEC1 encoding (33 bytes) of the
/// verifying key (`verifying_key().to_encoded_point(true)`); `None` where it
/// returns an error. The encoding of a verifying key is a valid SEC1 key
/// (`VerifyingKey::from_sec1_bytes` accepts it: it is a point of the curve
/// and not the identity), and as a compressed point its first byte is the
/// tag `2` (even y) or `3` (odd y).
#[verifier::external_body]
pub(crate) fn secp256k1_public_key(secret: &[u8]) -> (res: Option<Vec<u8>>)
    requires
        secret@.len() == 32,
    ensures
        res is Some <==> secret_key_valid(secret@),
        res matches Some(v) ==> v@ == compressed_public_key(secret@) && v@.len() == 33,
        res matches Some(v) ==> sec1_key_valid(v@),
        res matches Some(v) ==> (v@[0] == 2 || v@[0] == 3),
{
    match k256::ecdsa::SigningKey::from_bytes(k256::FieldBytes::from_slice(secret)) {
        Ok(sk) => Some(sk.verifying_key().to_encoded_point(true).as_bytes().to_vec()),
        Err(_) => None,
    }
}

/// The outcome of checking a signature with `k256`.
#[derive(Clone, Copy, Debug, PartialEq, Eq, Structural)]
pub enum SigCheck {
    /// The key bytes are no SEC1 public key.
    KeyRejected,
    /// The key is accepted, the signature bytes are no signature.
    SignatureRejected,
    /// Both are accepted; whether the signature is valid.
    Checked(bool),
}

/// Checks an ECDSA signature over the SHA-256 digest of `message`: calls
/// `k256::ecdsa::VerifyingKey::from_sec1_bytes` on `key`, then
/// `k256::ecdsa::Signature::from_slice` on `signature`, then
/// `DigestVerifier::verify_digest` with a `sha2::Sha256` hasher fed with the
/// message. A key that k256 accepts is 33 or 65 bytes long (a compressed or
/// uncompressed point; the identity is refused), a signature 64 bytes.
#[verifier::external_body]
pub(crate) fn ecdsa_sha256_check(key: &[u8], signature: &[u8], message: &[u8]) -> (res: SigCheck)
    ensures
        (res == SigCheck::KeyRejected) <==> !sec1_key_valid(key@),
        (res == SigCheck::SignatureRejected) <==> (sec1_key_valid(key@) && !signature_bytes_valid(
            signature@,
        )),
        res matches SigCheck::Checked(ok) ==> ok == ecdsa_sha256_accepts(key@, message@, signature@),
        res != SigCheck::KeyRejected ==> (key@.len() == 33 || key@.len() == 65),
        res is Checked ==> signature@.len() == 64,
{
    let key = match VerifyingKey::from_sec1_bytes(key) {
        Ok(k) => k,
        Err(_) => return SigCheck::KeyRejected,
    };
    let sig = match Signature::from_slice(signature) {
        Ok(s) => s,
        Err(_) => return SigCheck::SignatureRejected,
    };
    let mut digest = Sha256::new();
    digest.update(message);
    SigCheck::Checked(key.verify_digest(digest, &sig).is_ok())
}

} // verus!
