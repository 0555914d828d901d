//! The named registry: canister names mapped to canister descriptors. The map
//! here asks for no caller and checks no name; the guarded operations are in
//! `nft`.

use crate::assoc::{
    distinct_keys, has_key, lemma_binding_at, lemma_finite_dom, lemma_push, lemma_size,
    lemma_swap_remove, lemma_update, position, to_map,
};
use crate::response::Response;
use ic_cdk::export::candid::Principal;
use vstd::prelude::*;

verus! {

/// What the registry records about one canister.
#[derive(Debug, PartialEq)]
pub struct NftCanister {
    /// The identity of the canister.
    pub principal_id: Principal,
    /// The name under which the canister is registered.
    pub name: String,
    /// The token standard that the canister follows.
    pub standard: String,
}

/// A descriptor as the contracts see it: its strings as character sequences.
pub struct CanisterView {
    pub principal_id: Principal,
    pub name: Seq<char>,
    pub standard: Seq<char>,
}

impl View for NftCanister {
    type V = CanisterView;

    open spec fn view(&self) -> CanisterView {
        CanisterView { principal_id: self.principal_id, name: self.name@, standard: self.standard@ }
    }
}

impl Clone for NftCanister {
    fn clone(&self) -> (copy: NftCanister)
        ensures
            copy == *self,
    {
        NftCanister {
            principal_id: self.principal_id,
            name: self.name.clone(),
            standard: self.standard.clone(),
        }
    }
}

/// The characters of an optional string.
pub open spec fn text_view(text: Option<String>) -> Option<Seq<char>> {
    match text {
        Some(s) => Some(s@),
        None => None,
    }
}

/// The descriptor `canister` after an edit. A new principal, when given, is
/// the only change; a new standard is applied only when no principal is given.
pub open spec fn edited(
    canister: CanisterView,
    principal_id: Option<Principal>,
    standard: Option<Seq<char>>,
) -> CanisterView {
    match (principal_id, standard) {
        (Some(p), _) => CanisterView { principal_id: p, ..canister },
        (None, Some(s)) => CanisterView { standard: s, ..canister },
        (None, None) => canister,
    }
}

/// `values` lists the bindings of `m` once each, in the order of `keys`.
pub open spec fn enumerates(
    keys: Seq<Seq<char>>,
    values: Seq<CanisterView>,
    m: Map<Seq<char>, CanisterView>,
) -> bool {
    &&& keys.len() == values.len()
    &&& keys.no_duplicates()
    &&& forall|k: Seq<char>| m.contains_key(k) <==> keys.contains(k)
    &&& forall|i: int| 0 <= i < keys.len() ==> values[i] == m[#[trigger] keys[i]]
}

/// The views of a vector of borrowed descriptors.
pub open spec fn canister_views(canisters: Seq<&NftCanister>) -> Seq<CanisterView> {
    Seq::new(canisters.len(), |i: int| canisters[i]@)
}

struct Entry {
    key: String,
    canister: NftCanister,
}

spec fn bindings(entries: Seq<Entry>) -> Seq<(Seq<char>, CanisterView)> {
    Seq::new(entries.len(), |i: int| (entries[i].key@, entries[i].canister@))
}

/// A map from names to descriptors. Its entries are kept in a vector in which
/// no name occurs twice.
pub struct Registry {
    entries: Vec<Entry>,
}

impl View for Registry {
    type V = Map<Seq<char>, CanisterView>;

    closed spec fn view(&self) -> Map<Seq<char>, CanisterView> {
        to_map(bindings(self.entries@))
    }
}

fn index_of(entries: &Vec<Entry>, name: &String) -> (found: Option<usize>)
    ensures
        match found {
            Some(i) => i < entries.len() && entries[i as int].key@ == name@,
            None => !has_key(bindings(entries@), name@),
        },
{
    let mut i: usize = 0;
    while i < entries.len()
        invariant
            i <= entries.len(),
            forall|j: int| 0 <= j < i ==> (#[trigger] entries[j]).key@ != name@,
        decreases entries.len() - i,
    {
        if entries[i].key == *name {
            return Some(i);
        }
        i += 1;
    }
    assert forall|j: int| 0 <= j < entries.len() implies (#[trigger] bindings(entries@)[j]).0
        != name@ by {}
    None
}

impl Default for Registry {
    fn default() -> (registry: Registry)
        ensures
            registry@ == Map::<Seq<char>, CanisterView>::empty(),
    {
        Registry { entries: Vec::new() }
    }
}

impl Registry {
    #[verifier::type_invariant]
    spec fn names_distinct(&self) -> bool {
        distinct_keys(bindings(self.entries@))
    }

    /// A registry holds finitely many names.
    pub proof fn lemma_finite_names(&self)
        ensures
            self@.dom().finite(),
    {
        lemma_finite_dom(bindings(self.entries@));
    }

    /// Binds `name` to `canister_info`, in place of what `name` was bound to.
    pub fn add(&mut self, name: String, canister_info: NftCanister) -> (response: Response)
        ensures
            response == Response::Success,
            final(self)@ == old(self)@.insert(name@, canister_info@),
    {
        proof {
            use_type_invariant(&*self);
        }
        let mut entries: Vec<Entry> = Vec::new();
        std::mem::swap(&mut entries, &mut self.entries);
        let ghost before = bindings(entries@);
        match index_of(&entries, &name) {
            Some(i) => {
                entries[i].canister = canister_info;
                proof {
                    lemma_update(before, i as int, canister_info@);
                    assert(bindings(entries@) =~= before.update(i as int, (name@, canister_info@)));
                }
            },
            None => {
                entries.push(Entry { key: name, canister: canister_info });
                proof {
                    lemma_push(before, name@, canister_info@);
                    assert(bindings(entries@) =~= before.push((name@, canister_info@)));
                }
            },
        }
        self.entries = entries;
        Response::Success
    }

    /// Deletes the binding of `name`, if there is one.
    pub fn remove(&mut self, name: &String) -> (response: Response)
        ensures
            old(self)@.contains_key(name@) ==> {
                &&& response == Response::Success
                &&& final(self)@ == old(self)@.remove(name@)
            },
            !old(self)@.contains_key(name@) ==> {
                &&& response == Response::NoSuchEntry
                &&& final(self)@ == old(self)@
            },
    {
        proof {
            use_type_invariant(&*self);
        }
        let mut entries: Vec<Entry> = Vec::new();
        std::mem::swap(&mut entries, &mut self.entries);
        let ghost before = bindings(entries@);
        let response = match index_of(&entries, name) {
            Some(i) => {
                entries.swap_remove(i);
                proof {
                    lemma_swap_remove(before, i as int);
                    assert(bindings(entries@) =~= before.update(i as int, before.last())
                        .drop_last());
                }
                Response::Success
            },
            None => Response::NoSuchEntry,
        };
        self.entries = entries;
        response
    }

    /// Changes one field of the descriptor bound to `name`: the principal
    /// when `principal_id` is given, else the standard. Where the name is
    /// bound and neither is given, nothing is changed and the edit is
    /// reported as invalid.
    pub fn edit(
        &mut self,
        name: &String,
        principal_id: Option<Principal>,
        standard: Option<String>,
    ) -> (response: Response)
        ensures
            !old(self)@.contains_key(name@) ==> {
                &&& response == Response::NoSuchCanister
                &&& final(self)@ == old(self)@
            },
            old(self)@.contains_key(name@) && principal_id is None && standard is None ==> {
                &&& response == Response::NothingToChange
                &&& final(self)@ == old(self)@
            },
            old(self)@.contains_key(name@) && (principal_id is Some || standard is Some) ==> {
                &&& response == Response::Success
                &&& final(self)@ == old(self)@.insert(
                    name@,
                    edited(old(self)@[name@], principal_id, text_view(standard)),
                )
            },
    {
        proof {
            use_type_invariant(&*self);
        }
        let mut entries: Vec<Entry> = Vec::new();
        std::mem::swap(&mut entries, &mut self.entries);
        let ghost before = bindings(entries@);
        let response = match index_of(&entries, name) {
            Some(i) => {
                let ghost after = edited(before[i as int].1, principal_id, text_view(standard));
                let changed = match principal_id {
                    Some(p) => {
                        entries[i].canister.principal_id = p;
                        true
                    },
                    None => match standard {
                        Some(s) => {
                            entries[i].canister.standard = s;
                            true
                        },
                        None => false,
                    },
                };
                if changed {
                    proof {
                        lemma_update(before, i as int, after);
                        assert(bindings(entries@) =~= before.update(i as int, (name@, after)));
                    }
                    Response::Success
                } else {
                    Response::NothingToChange
                }
            },
            None => Response::NoSuchCanister,
        };
        self.entries = entries;
        response
    }

    /// The descriptor bound to `name`, if there is one.
    pub fn get_canister(&self, name: &String) -> (found: Option<&NftCanister>)
        ensures
            match found {
                Some(canister) => self@.contains_key(name@) && canister@ == self@[name@],
                None => !self@.contains_key(name@),
            },
    {
        proof {
            use_type_invariant(self);
        }
        match index_of(&self.entries, name) {
            Some(i) => {
                proof {
                    lemma_binding_at(bindings(self.entries@), i as int);
                }
                Some(&self.entries[i].canister)
            },
            None => None,
        }
    }

    /// Every descriptor in the registry, once for each name bound.
    pub fn get_all(&self) -> (all: Vec<&NftCanister>)
        ensures
            all@.len() == self@.dom().len(),
            exists|keys: Seq<Seq<char>>| enumerates(keys, canister_views(all@), self@),
    {
        proof {
            use_type_invariant(self);
        }
        let mut all: Vec<&NftCanister> = Vec::new();
        let mut i: usize = 0;
        while i < self.entries.len()
            invariant
                i <= self.entries.len(),
                all@.len() == i,
                forall|j: int| 0 <= j < i ==> all@[j]@ == (#[trigger] self.entries@[j]).canister@,
            decreases self.entries.len() - i,
        {
            all.push(&self.entries[i].canister);
            i += 1;
        }
        proof {
            let s = bindings(self.entries@);
            lemma_size(s);
            let keys = Seq::new(s.len(), |j: int| s[j].0);
            assert forall|k: Seq<char>| self@.contains_key(k) implies keys.contains(k) by {
                assert(keys[position(s, k)] == k);
            }
            assert(enumerates(keys, canister_views(all@), self@));
        }
        all
    }
}

} // verus!
