//! Block hashes.

use vstd::prelude::*;
use vstd::utf8::encode_utf8;
use crate::crypto::{hex_lower, sha256_of, sha256_digest, hex_encode, lemma_hex_lower_ascii};

verus! {

pub struct ChainX {}

impl ChainX {
    /// The hash of a block, given its serialized (JSON) text: lower-case hex
    /// of the SHA-256 digest of the text's UTF-8 bytes.
    pub fn calculate_block_hash(block_json: &str) -> (res: String)
        ensures
            res@ == hex_lower(sha256_of(encode_utf8(block_json@))),
            res@.len() == 64,
    {
        let digest = sha256_digest(block_json.as_bytes());
        proof {
            lemma_hex_lower_ascii(digest@);
        }
        hex_encode(digest.as_slice())
    }
}

} // verus!
