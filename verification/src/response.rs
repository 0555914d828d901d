//! How a call on the registry ended: the result, its class, and the text that
//! reports it to the caller.

use vstd::prelude::*;

verus! {

/// The four classes of result.
#[derive(Clone, Copy, Debug, PartialEq, Eq, Structural)]
pub enum ResponseKind {
    /// The operation was carried out.
    Success,
    /// The caller is not the controller.
    AuthDenied,
    /// An argument was malformed or out of bounds.
    ValidationError,
    /// The name is not in the registry.
    NotFound,
}

/// The result of one registry operation.
#[derive(Clone, Copy, Debug, PartialEq, Eq, Structural)]
pub enum Response {
    /// The operation was carried out.
    Success,
    /// A caller other than the controller asked for a change.
    NotAuthorized,
    /// The name of the canister to add is longer than `MAX_NAME_LENGTH`.
    NameTooLong,
    /// An edit named neither a new principal nor a new standard.
    NothingToChange,
    /// The name to remove is not in the registry.
    NoSuchEntry,
    /// The name to edit is not in the registry.
    NoSuchCanister,
}

impl Response {
    /// The class this result belongs to.
    pub open spec fn spec_kind(self) -> ResponseKind {
        match self {
            Response::Success => ResponseKind::Success,
            Response::NotAuthorized => ResponseKind::AuthDenied,
            Response::NameTooLong => ResponseKind::ValidationError,
            Response::NothingToChange => ResponseKind::ValidationError,
            Response::NoSuchEntry => ResponseKind::NotFound,
            Response::NoSuchCanister => ResponseKind::NotFound,
        }
    }

    /// The text that reports this result to a caller.
    pub open spec fn spec_message(self) -> Seq<char> {
        match self {
            Response::Success => "Operation was successful."@,
            Response::NotAuthorized => "You are not authorized to make changes."@,
            Response::NameTooLong => {
                "The name of this canister has exceeded the limitation of 120 characters."@
            },
            Response::NothingToChange => {
                "You should pass at least one of the principal_id or standard parameters."@
            },
            Response::NoSuchEntry => "No such entry exists in the registry."@,
            Response::NoSuchCanister => {
                "The canister you want to change does not exist in the registry."@
            },
        }
    }

    /// The class this result belongs to.
    #[verifier::when_used_as_spec(spec_kind)]
    pub fn kind(self) -> (kind: ResponseKind)
        ensures
            kind == self.spec_kind(),
    {
        match self {
            Response::Success => ResponseKind::Success,
            Response::NotAuthorized => ResponseKind::AuthDenied,
            Response::NameTooLong | Response::NothingToChange => ResponseKind::ValidationError,
            Response::NoSuchEntry | Response::NoSuchCanister => ResponseKind::NotFound,
        }
    }

    /// The text that reports this result to a caller.
    pub fn message(self) -> (text: String)
        ensures
            text@ == self.spec_message(),
    {
        let text = match self {
            Response::Success => "Operation was successful.",
            Response::NotAuthorized => "You are not authorized to make changes.",
            Response::NameTooLong => {
                "The name of this canister has exceeded the limitation of 120 characters."
            },
            Response::NothingToChange => {
                "You should pass at least one of the principal_id or standard parameters."
            },
            Response::NoSuchEntry => "No such entry exists in the registry.",
            Response::NoSuchCanister => {
                "The canister you want to change does not exist in the registry."
            },
        };
        text.to_owned()
    }
}

} // verus!
