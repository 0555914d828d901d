//! The registry canister: a named registry that only its controller may
//! change, and that anyone may read.

use crate::identity::Controller;
use crate::registry::{
    canister_views, edited, enumerates, text_view, CanisterView, NftCanister, Registry,
};
use crate::response::{Response, ResponseKind};
use ic_cdk::export::candid::Principal;
use vstd::prelude::*;
use vstd::string::StrSliceExecFns;

verus! {

/// The longest name, in characters, under which a canister can be added.
pub const MAX_NAME_LENGTH: usize = 120;

/// The canister's state as the contracts see it.
pub struct ServiceView {
    /// The identity that may change the registry.
    pub controller: Principal,
    /// The descriptors by name.
    pub registry: Map<Seq<char>, CanisterView>,
}

impl ServiceView {
    /// The state right after initialisation by `caller`.
    pub open spec fn initial(caller: Principal) -> ServiceView {
        ServiceView { controller: caller, registry: Map::empty() }
    }

    /// Finitely many names are bound, none longer than `MAX_NAME_LENGTH`
    /// characters, and each to a descriptor that carries it.
    pub open spec fn valid(self) -> bool {
        &&& self.registry.dom().finite()
        &&& forall|name: Seq<char>| #[trigger]
            self.registry.contains_key(name) ==> {
                &&& self.registry[name].name == name
                &&& name.len() <= MAX_NAME_LENGTH
            }
    }

    /// Whether `caller` may change the registry.
    pub open spec fn is_controller(self, caller: Principal) -> bool {
        caller == self.controller
    }

    /// What a lookup of `name` gives.
    pub open spec fn lookup(self, name: Seq<char>) -> Option<CanisterView> {
        if self.registry.contains_key(name) {
            Some(self.registry[name])
        } else {
            None
        }
    }

    /// How `add` answers `caller`.
    pub open spec fn add_response(self, caller: Principal, canister: CanisterView) -> Response {
        if !self.is_controller(caller) {
            Response::NotAuthorized
        } else if canister.name.len() > MAX_NAME_LENGTH {
            Response::NameTooLong
        } else {
            Response::Success
        }
    }

    /// The state that `add` leaves.
    pub open spec fn after_add(self, caller: Principal, canister: CanisterView) -> ServiceView {
        if self.add_response(caller, canister) == Response::Success {
            ServiceView { registry: self.registry.insert(canister.name, canister), ..self }
        } else {
            self
        }
    }

    /// How `remove` answers `caller`.
    pub open spec fn remove_response(self, caller: Principal, name: Seq<char>) -> Response {
        if !self.is_controller(caller) {
            Response::NotAuthorized
        } else if !self.registry.contains_key(name) {
            Response::NoSuchEntry
        } else {
            Response::Success
        }
    }

    /// The state that `remove` leaves.
    pub open spec fn after_remove(self, caller: Principal, name: Seq<char>) -> ServiceView {
        if self.remove_response(caller, name) == Response::Success {
            ServiceView { registry: self.registry.remove(name), ..self }
        } else {
            self
        }
    }

    /// How `edit` answers `caller`.
    pub open spec fn edit_response(
        self,
        caller: Principal,
        name: Seq<char>,
        principal_id: Option<Principal>,
        standard: Option<Seq<char>>,
    ) -> Response {
        if !self.is_controller(caller) {
            Response::NotAuthorized
        } else if principal_id is None && standard is None {
            Response::NothingToChange
        } else if !self.registry.contains_key(name) {
            Response::NoSuchCanister
        } else {
            Response::Success
        }
    }

    /// The state that `edit` leaves.
    pub open spec fn after_edit(
        self,
        caller: Principal,
        name: Seq<char>,
        principal_id: Option<Principal>,
        standard: Option<Seq<char>>,
    ) -> ServiceView {
        if self.edit_response(caller, name, principal_id, standard) == Response::Success {
            ServiceView {
                registry: self.registry.insert(
                    name,
                    edited(self.registry[name], principal_id, standard),
                ),
                ..self
            }
        } else {
            self
        }
    }
}

/// The name under which the canister presents itself.
pub fn name() -> (text: String)
    ensures
        text@ == "NFT Registry Canister"@,
{
    "NFT Registry Canister".to_owned()
}

/// The canister's state: the controller, fixed at initialisation, and the
/// registry it guards.
pub struct Service {
    controller: Controller,
    db: Registry,
}

impl View for Service {
    type V = ServiceView;

    closed spec fn view(&self) -> ServiceView {
        ServiceView { controller: self.controller@, registry: self.db@ }
    }
}

impl Service {
    #[verifier::type_invariant]
    spec fn keyed_by_name(&self) -> bool {
        forall|name: Seq<char>| #[trigger]
            self.db@.contains_key(name) ==> {
                &&& self.db@[name].name == name
                &&& name.len() <= MAX_NAME_LENGTH
            }
    }

    /// Starts the canister with an empty registry and `caller` as its
    /// controller.
    pub fn init(caller: Principal) -> (service: Service)
        ensures
            service@ == ServiceView::initial(caller),
    {
        Service { controller: Controller::new(caller), db: Registry::default() }
    }

    /// Whether `account` may change the registry.
    pub fn is_controller(&self, account: &Principal) -> (allowed: bool)
        ensures
            allowed == self@.is_controller(*account),
    {
        self.controller.is_controller(account)
    }

    /// Binds the descriptor's name to the descriptor, replacing what the name
    /// was bound to. Only for the controller, and only for names of at most
    /// `MAX_NAME_LENGTH` characters.
    pub fn add(&mut self, caller: Principal, canister_info: NftCanister) -> (response: Response)
        ensures
            response == old(self)@.add_response(caller, canister_info@),
            final(self)@ == old(self)@.after_add(caller, canister_info@),
            final(self)@.valid(),
    {
        proof {
            use_type_invariant(&*self);
            self.db.lemma_finite_names();
        }
        if !self.is_controller(&caller) {
            return Response::NotAuthorized;
        }
        if canister_info.name.as_str().unicode_len() > MAX_NAME_LENGTH {
            return Response::NameTooLong;
        }
        let name = canister_info.name.clone();
        let mut db = Registry::default();
        std::mem::swap(&mut db, &mut self.db);
        let response = db.add(name, canister_info);
        self.db = db;
        response
    }

    /// Deletes the binding of `name`. Only for the controller.
    pub fn remove(&mut self, caller: Principal, name: String) -> (response: Response)
        ensures
            response == old(self)@.remove_response(caller, name@),
            final(self)@ == old(self)@.after_remove(caller, name@),
            final(self)@.valid(),
    {
        proof {
            use_type_invariant(&*self);
            self.db.lemma_finite_names();
        }
        if !self.is_controller(&caller) {
            return Response::NotAuthorized;
        }
        let mut db = Registry::default();
        std::mem::swap(&mut db, &mut self.db);
        let response = db.remove(&name);
        self.db = db;
        response
    }

    /// Changes one field of the descriptor bound to `name`: the principal
    /// when `principal_id` is given, else the standard. Only for the
    /// controller, and at least one of the two must be given.
    pub fn edit(
        &mut self,
        caller: Principal,
        name: String,
        principal_id: Option<Principal>,
        standard: Option<String>,
    ) -> (response: Response)
        ensures
            response == old(self)@.edit_response(caller, name@, principal_id, text_view(standard)),
            final(self)@ == old(self)@.after_edit(caller, name@, principal_id, text_view(standard)),
            final(self)@.valid(),
    {
        proof {
            use_type_invariant(&*self);
            self.db.lemma_finite_names();
        }
        if !self.is_controller(&caller) {
            return Response::NotAuthorized;
        }
        if principal_id.is_none() && standard.is_none() {
            return Response::NothingToChange;
        }
        let mut db = Registry::default();
        std::mem::swap(&mut db, &mut self.db);
        let response = db.edit(&name, principal_id, standard);
        self.db = db;
        response
    }

    /// The descriptor registered under `name`, if there is one. Open to every
    /// caller.
    pub fn get_canister(&self, name: String) -> (found: Option<&NftCanister>)
        ensures
            self@.valid(),
            match found {
                Some(canister) => {
                    &&& self@.lookup(name@) == Some(canister@)
                    &&& canister.name@ == name@
                    &&& canister.name@.len() <= MAX_NAME_LENGTH
                },
                None => self@.lookup(name@) is None,
            },
    {
        proof {
            use_type_invariant(self);
            self.db.lemma_finite_names();
        }
        self.db.get_canister(&name)
    }

    /// Every registered descriptor, once each, in no particular order. Open
    /// to every caller.
    pub fn get_all(&self) -> (all: Vec<&NftCanister>)
        ensures
            self@.valid(),
            all@.len() == self@.registry.len(),
            forall|i: int|
                0 <= i < all@.len() ==> {
                    &&& self@.lookup((#[trigger] all@[i]).name@) == Some(all@[i]@)
                    &&& all@[i].name@.len() <= MAX_NAME_LENGTH
                },
            forall|i: int, j: int|
                0 <= i < j < all@.len() ==> (#[trigger] all@[i]).name@ != (#[trigger] all@[j])
                    .name@,
            forall|name: Seq<char>| #[trigger]
                self@.registry.contains_key(name) ==> exists|i: int|
                    0 <= i < all@.len() && (#[trigger] all@[i]).name@ == name,
    {
        proof {
            use_type_invariant(self);
            self.db.lemma_finite_names();
        }
        let all = self.db.get_all();
        proof {
            let keys = choose|keys: Seq<Seq<char>>|
                enumerates(keys, canister_views(all@), self.db@);
            assert forall|i: int| 0 <= i < all@.len() implies keys[i] == (#[trigger] all@[i]).name@
                && self@.lookup(all@[i].name@) == Some(all@[i]@) by {
                assert(keys.contains(keys[i]));
            }
            assert forall|name: Seq<char>| #[trigger]
                self@.registry.contains_key(name) implies exists|i: int|
                0 <= i < all@.len() && (#[trigger] all@[i]).name@ == name by {
                assert(keys.contains(name));
            }
        }
        all
    }
}

/// Initialisation gives a valid state, and no operation, whoever calls it
/// and whatever its arguments, leads from a valid state to an invalid one.
pub proof fn lemma_valid_always(
    s: ServiceView,
    caller: Principal,
    canister: CanisterView,
    name: Seq<char>,
    principal_id: Option<Principal>,
    standard: Option<Seq<char>>,
)
    ensures
        ServiceView::initial(caller).valid(),
        s.valid() ==> s.after_add(caller, canister).valid(),
        s.valid() ==> s.after_remove(caller, name).valid(),
        s.valid() ==> s.after_edit(caller, name, principal_id, standard).valid(),
{
}

/// The controller is the caller that initialised the canister, and no
/// operation, whoever calls it and whatever its arguments, puts another in its
/// place.
pub proof fn lemma_controller_fixed(
    s: ServiceView,
    caller: Principal,
    canister: CanisterView,
    name: Seq<char>,
    principal_id: Option<Principal>,
    standard: Option<Seq<char>>,
)
    ensures
        ServiceView::initial(caller).controller == caller,
        s.after_add(caller, canister).controller == s.controller,
        s.after_remove(caller, name).controller == s.controller,
        s.after_edit(caller, name, principal_id, standard).controller == s.controller,
{
}

/// A caller other than the controller is refused every change, and the state
/// stays as it was.
pub proof fn lemma_changes_need_controller(
    s: ServiceView,
    caller: Principal,
    canister: CanisterView,
    name: Seq<char>,
    principal_id: Option<Principal>,
    standard: Option<Seq<char>>,
)
    requires
        caller != s.controller,
    ensures
        s.add_response(caller, canister) == Response::NotAuthorized,
        s.after_add(caller, canister) == s,
        s.remove_response(caller, name) == Response::NotAuthorized,
        s.after_remove(caller, name) == s,
        s.edit_response(caller, name, principal_id, standard) == Response::NotAuthorized,
        s.after_edit(caller, name, principal_id, standard) == s,
        Response::NotAuthorized.spec_kind() == ResponseKind::AuthDenied,
{
}

/// Once the controller has added a descriptor whose name is not too long, a
/// lookup of that name gives the descriptor.
pub proof fn lemma_add_then_get(s: ServiceView, caller: Principal, canister: CanisterView)
    requires
        caller == s.controller,
        canister.name.len() <= MAX_NAME_LENGTH,
    ensures
        s.add_response(caller, canister) == Response::Success,
        s.after_add(caller, canister).lookup(canister.name) == Some(canister),
{
}

/// Adding under a name that is already bound replaces the descriptor and
/// leaves the number of bound names as it was: the second of two additions
/// under one name wins, and adding the same descriptor twice is adding it once.
pub proof fn lemma_add_overwrites(
    s: ServiceView,
    caller: Principal,
    first: CanisterView,
    second: CanisterView,
)
    requires
        s.valid(),
        caller == s.controller,
        first.name == second.name,
        first.name.len() <= MAX_NAME_LENGTH,
    ensures
        ({
            let once = s.after_add(caller, first);
            let twice = once.after_add(caller, second);
            &&& once.add_response(caller, second) == Response::Success
            &&& twice.lookup(second.name) == Some(second)
            &&& twice.registry.len() == once.registry.len()
            &&& twice == s.after_add(caller, second)
        }),
{
    let twice = s.after_add(caller, first).after_add(caller, second);
    assert(twice.registry =~= s.after_add(caller, second).registry);
}

/// Adding under a name longer than `MAX_NAME_LENGTH` is refused as invalid,
/// and the state stays as it was.
pub proof fn lemma_long_name_refused(s: ServiceView, caller: Principal, canister: CanisterView)
    requires
        caller == s.controller,
        canister.name.len() > MAX_NAME_LENGTH,
    ensures
        s.add_response(caller, canister) == Response::NameTooLong,
        s.after_add(caller, canister) == s,
        Response::NameTooLong.spec_kind() == ResponseKind::ValidationError,
{
}

/// Removing a name that is not bound reports that it was not found and
/// changes nothing.
pub proof fn lemma_remove_absent(s: ServiceView, caller: Principal, name: Seq<char>)
    requires
        caller == s.controller,
        !s.registry.contains_key(name),
    ensures
        s.remove_response(caller, name) == Response::NoSuchEntry,
        s.after_remove(caller, name) == s,
        Response::NoSuchEntry.spec_kind() == ResponseKind::NotFound,
{
}

/// Whether or not the first removal found the name, a second removal of the
/// same name reports that it was not found and changes nothing.
pub proof fn lemma_remove_twice(s: ServiceView, caller: Principal, name: Seq<char>)
    requires
        caller == s.controller,
    ensures
        ({
            let once = s.after_remove(caller, name);
            &&& !once.registry.contains_key(name)
            &&& once.remove_response(caller, name) == Response::NoSuchEntry
            &&& once.after_remove(caller, name) == once
        }),
{
}

/// An edit that names neither a principal nor a standard is refused as
/// invalid, whether or not the name is bound, and the state stays as it was.
pub proof fn lemma_edit_needs_a_field(s: ServiceView, caller: Principal, name: Seq<char>)
    requires
        caller == s.controller,
    ensures
        s.edit_response(caller, name, None, None) == Response::NothingToChange,
        s.after_edit(caller, name, None, None) == s,
        Response::NothingToChange.spec_kind() == ResponseKind::ValidationError,
{
}

/// An edit that gives only a principal changes the principal of the named
/// descriptor and nothing else: not its name, not its standard, no other
/// binding, not the controller.
pub proof fn lemma_edit_principal_only(
    s: ServiceView,
    caller: Principal,
    name: Seq<char>,
    principal_id: Principal,
)
    requires
        caller == s.controller,
        s.registry.contains_key(name),
    ensures
        s.edit_response(caller, name, Some(principal_id), None) == Response::Success,
        ({
            let t = s.after_edit(caller, name, Some(principal_id), None);
            &&& t.controller == s.controller
            &&& t.registry.dom() == s.registry.dom()
            &&& t.registry[name] == CanisterView { principal_id, ..s.registry[name] }
            &&& forall|other: Seq<char>| other != name ==> t.registry[other] == s.registry[other]
        }),
{
}

/// An edit that gives only a standard changes the standard of the named
/// descriptor and nothing else: not its name, not its principal, no other
/// binding, not the controller.
pub proof fn lemma_edit_standard_only(
    s: ServiceView,
    caller: Principal,
    name: Seq<char>,
    standard: Seq<char>,
)
    requires
        caller == s.controller,
        s.registry.contains_key(name),
    ensures
        s.edit_response(caller, name, None, Some(standard)) == Response::Success,
        ({
            let t = s.after_edit(caller, name, None, Some(standard));
            &&& t.controller == s.controller
            &&& t.registry.dom() == s.registry.dom()
            &&& t.registry[name] == CanisterView { standard, ..s.registry[name] }
            &&& forall|other: Seq<char>| other != name ==> t.registry[other] == s.registry[other]
        }),
{
}

/// An edit that gives both a principal and a standard changes the principal
/// alone: the standard it was given is dropped.
pub proof fn lemma_edit_principal_first(
    s: ServiceView,
    caller: Principal,
    name: Seq<char>,
    principal_id: Principal,
    standard: Seq<char>,
)
    ensures
        s.after_edit(caller, name, Some(principal_id), Some(standard)) == s.after_edit(
            caller,
            name,
            Some(principal_id),
            None,
        ),
{
}

} // verus!
