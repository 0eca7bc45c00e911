use vstd::prelude::*;
use vstd::utf8::encode_utf8;
use crate::error::AppError;

verus! {

/// The request that starts the registration of a new user.
#[derive(Debug)]
pub struct RegisterStartRequest {
    pub username: String,
    pub display_name: String,
}

/// The length in UTF-8 bytes of a text, as `str::len` reports it.
pub open spec fn byte_len(s: Seq<char>) -> usize {
    encode_utf8(s).len() as usize
}

impl RegisterStartRequest {
    /// Accepts the request where the username takes at least three bytes and
    /// the display name at least two; otherwise fails with a validation
    /// error.
    pub fn validate(&self) -> (r: Result<(), AppError>)
        ensures
            r is Ok <==> byte_len(self.username@) >= 3 && byte_len(self.display_name@) >= 2,
            r matches Err(e) ==> e is ValidationError,
    {
        if self.username.as_str().is_empty() {
            return Err(AppError::ValidationError("Username is required".to_string()));
        }
        if self.username.as_str().len() < 3 {
            return Err(
                AppError::ValidationError(
                    "Username must be at least 3 characters long".to_string(),
                ),
            );
        }
        if self.display_name.as_str().is_empty() {
            return Err(AppError::ValidationError("Display name is required".to_string()));
        }
        if self.display_name.as_str().len() < 2 {
            return Err(
                AppError::ValidationError(
                    "Display name must be at least 2 characters long".to_string(),
                ),
            );
        }
        Ok(())
    }
}

} // verus!
