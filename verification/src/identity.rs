//! Caller identities, and the guard that tells the controller from any other
//! caller.

use ic_cdk::export::candid::Principal;
use vstd::prelude::*;

verus! {

/// The host's identity type. Nothing inside a value is visible to the proofs:
/// an identity is a token that can be copied and compared, no more.
#[verifier::external_type_specification]
#[verifier::external_body]
pub struct ExPrincipal(ic_cdk::export::candid::Principal);

/// `Principal`'s `==`. The type derives `PartialEq` and `Eq` over its length
/// and its byte buffer, so the comparison answers `true` exactly when the two
/// arguments are the same value.
#[verifier::external_body]
pub(crate) fn same_principal(a: &Principal, b: &Principal) -> (same: bool)
    ensures
        same == (*a == *b),
{
    a == b
}

/// The one identity that may change the registry. It is fixed when the guard
/// is made and there is no way to replace it.
pub struct Controller(Principal);

impl View for Controller {
    type V = Principal;

    closed spec fn view(&self) -> Principal {
        self.0
    }
}

impl Controller {
    /// The guard that lets `identity` through, and nobody else.
    pub fn new(identity: Principal) -> (controller: Controller)
        ensures
            controller@ == identity,
    {
        Controller(identity)
    }

    /// Whether `account` is the controller.
    pub fn is_controller(&self, account: &Principal) -> (allowed: bool)
        ensures
            allowed == (*account == self@),
    {
        same_principal(account, &self.0)
    }
}

} // verus!
