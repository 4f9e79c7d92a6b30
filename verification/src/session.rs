//! The schema rule of session files.
use vstd::prelude::*;

use crate::error::CoreError;
use crate::model::CURRENT_SESSION_SCHEMA;

verus! {

/// Accepts exactly the current session schema; any other version is an
/// unsupported-schema error naming the version found and the one expected.
pub fn check_session_schema(found: u32) -> (result: Result<(), CoreError>)
    ensures
        result is Ok <==> found == CURRENT_SESSION_SCHEMA,
        found != CURRENT_SESSION_SCHEMA ==> (result matches Err(CoreError::UnsupportedSessionSchema { found: f, expected: e }) && f == found && e == CURRENT_SESSION_SCHEMA),
{
    if found != CURRENT_SESSION_SCHEMA {
        return Err(CoreError::UnsupportedSessionSchema { found, expected: CURRENT_SESSION_SCHEMA });
    }
    Ok(())
}

} // verus!
