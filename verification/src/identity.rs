//! The digital-id service: checking a user's password.

use vstd::prelude::*;
use vstd::utf8::encode_utf8;
use crate::crypto::{hex_lower, sha256_of, sha256_hex_digest};
use crate::errors::AppError;
use crate::models::UserID;

verus! {

pub struct DigitalID {}

/// The password hash that is stored for a password: lower-case hex of the
/// SHA-256 digest of its UTF-8 bytes.
pub open spec fn password_hash(password: Seq<char>) -> Seq<char> {
    hex_lower(sha256_of(encode_utf8(password)))
}

impl DigitalID {
    /// Accepts the password when its hash is the one stored for the user;
    /// refuses it with `ValidationError` otherwise.
    pub fn validate_user(user_id: &UserID, password: &str) -> (res: Result<(), AppError>)
        ensures
            res is Ok <==> user_id.password_hash@ == password_hash(password@),
            res is Err ==> res matches Err(AppError::ValidationError),
    {
        let hash = sha256_hex_digest(password);
        if user_id.password_hash != hash {
            return Err(AppError::ValidationError);
        }
        Ok(())
    }
}

} // verus!
