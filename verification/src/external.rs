//! Outside types that the library's records carry through unchanged.
use vstd::prelude::*;

verus! {

/// A JSON value (`serde_json::Value`), carried as an opaque request option or
/// preset setting.
#[verifier::external_type_specification]
#[verifier::external_body]
pub struct ExJsonValue(serde_json::Value);

/// A UUID (`uuid::Uuid`), carried as a job identifier.
#[verifier::external_type_specification]
#[verifier::external_body]
pub struct ExUuid(uuid::Uuid);

/// `Uuid::clone`: `Uuid` derives `Clone` and `Copy`, so a clone is the same
/// value.
pub assume_specification[ <uuid::Uuid as Clone>::clone ](u: &uuid::Uuid) -> (res: uuid::Uuid)
    ensures
        res == *u,
;

} // verus!
