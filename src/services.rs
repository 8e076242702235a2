use vstd::prelude::*;

use argon2::password_hash::rand_core::OsRng;
use argon2::password_hash::{PasswordHasher, SaltString};
use argon2::Argon2;

verus! {

/// The domain services that command handling may call: here, credential hashing.
pub trait TAccountServices {
    /// A hash of the password, or a message on failure.
    fn hash_password(&self, password: String) -> Result<String, String>;
}

/// Credential hashing with Argon2 and a random salt.
#[derive(Debug, Clone, Copy)]
pub struct AccountServices {}

impl AccountServices {
    pub fn new() -> Self {
        AccountServices {  }
    }
}

/// Relies on argon2's `PasswordHasher::hash_password` with default parameters and a salt
/// from `SaltString::generate` over the OS's random source; the PHC string of the hash,
/// or the error's message.
#[verifier::external_body]
fn argon2_hash(password: &String) -> (r: Result<String, String>) {
    let salt = SaltString::generate(&mut OsRng);
    match Argon2::default().hash_password(password.as_bytes(), &salt) {
        Ok(h) => Ok(h.to_string()),
        Err(e) => Err(e.to_string()),
    }
}

impl TAccountServices for AccountServices {
    fn hash_password(&self, password: String) -> Result<String, String> {
        argon2_hash(&password)
    }
}

} // verus!
