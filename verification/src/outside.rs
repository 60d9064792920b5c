//! The errors of the websocket and JSON crates, which calls carry through.
use vstd::prelude::*;

verus! {

/// ws's `Error`, which a failed send or receive reports. It is carried
/// through unopened: nothing is claimed of what it holds.
#[verifier::external_type_specification]
#[verifier::external_body]
pub struct ExWsError(ws::Error);

/// serde_json's `Error`, which a failed decoding reports. It is carried
/// through unopened: nothing is claimed of what it holds.
#[verifier::external_type_specification]
#[verifier::external_body]
pub struct ExJsonError(serde_json::Error);

} // verus!
