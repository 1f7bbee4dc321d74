//! Plain response shapes of the read-only query surface.

use vstd::prelude::*;

verus! {

/// Who can mint tokens.
#[derive(Clone, Debug, PartialEq, Eq)]
pub struct MinterResponse {
    pub minter: Option<String>,
}

/// One flag per queried base id: whether the owner holds any token of it.
#[derive(Clone, Debug, PartialEq, Eq)]
pub struct CheckOwnershipResponse {
    pub ownerships: Vec<bool>,
}

/// Token ids grouped under the owners that hold them.
#[derive(Clone, Debug, PartialEq, Eq)]
pub struct OwnableTokensResponse {
    pub tokens: Vec<(String, Vec<String>)>,
}

/// Carried by a versioned migration; holds nothing.
#[derive(Clone, Debug, PartialEq, Eq)]
pub struct MigrateMsg {}

} // verus!
