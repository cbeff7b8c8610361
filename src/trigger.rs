use vstd::prelude::*;
use crate::error::ApiError;

verus! {

/// Whether a manual ingestion trigger may run: with no shared secret
/// configured anyone may trigger; otherwise the presented token must equal
/// the secret.
pub fn authorize_trigger(secret: &String, presented: &String) -> (r: Result<(), ApiError>)
    ensures
        r is Ok <==> (secret@.len() == 0 || presented@ == secret@),
        r matches Err(e) ==> e is Unauthorized,
{
    if secret.as_str().unicode_len() == 0 || *presented == *secret {
        Ok(())
    } else {
        Err(ApiError::Unauthorized("Invalid token".to_string()))
    }
}

} // verus!
