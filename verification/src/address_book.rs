//! The address book: for each caller, names mapped to the canisters that the
//! caller gave them. Every caller reads and changes its own entries only.

use crate::assoc::{
    distinct_keys, has_key, lemma_binding_at, lemma_finite_dom, lemma_push, lemma_size,
    lemma_swap_remove, lemma_update, position, to_map,
};
use crate::identity::same_principal;
use ic_cdk::export::candid::Principal;
use vstd::prelude::*;

verus! {

/// The answer to a lookup: the name that was asked for, and the canister it
/// stands for in the caller's entries, if any.
#[derive(Debug, PartialEq)]
pub struct GetAddressResult {
    /// The name that was asked for.
    pub canister_name: String,
    /// The canister that the caller has bound the name to, if any.
    pub canister_id: Option<Principal>,
}

impl Clone for GetAddressResult {
    fn clone(&self) -> (copy: GetAddressResult)
        ensures
            copy == *self,
    {
        GetAddressResult {
            canister_name: self.canister_name.clone(),
            canister_id: self.canister_id,
        }
    }
}

/// What `owner` has bound `name` to in `book`.
pub open spec fn resolve(
    book: Map<(Principal, Seq<char>), Principal>,
    owner: Principal,
    name: Seq<char>,
) -> Option<Principal> {
    if book.contains_key((owner, name)) {
        Some(book[(owner, name)])
    } else {
        None
    }
}

/// The entries of `owner` in `book`: its names, each with its canister.
pub open spec fn addresses_of(
    book: Map<(Principal, Seq<char>), Principal>,
    owner: Principal,
) -> Map<Seq<char>, Principal> {
    Map::new(
        |name: Seq<char>| book.contains_key((owner, name)),
        |name: Seq<char>| book[(owner, name)],
    )
}

/// `book` without the entries of `owner`.
pub open spec fn without_owner(
    book: Map<(Principal, Seq<char>), Principal>,
    owner: Principal,
) -> Map<(Principal, Seq<char>), Principal> {
    Map::new(
        |key: (Principal, Seq<char>)| book.contains_key(key) && key.0 != owner,
        |key: (Principal, Seq<char>)| book[key],
    )
}

spec fn address_views(addresses: Seq<(String, Principal)>) -> Seq<(Seq<char>, Principal)> {
    Seq::new(addresses.len(), |i: int| (addresses[i].0@, addresses[i].1))
}

/// The name under which the canister presents itself.
pub fn name() -> (text: String)
    ensures
        text@ == "DAB"@,
{
    "DAB".to_owned()
}

struct Address {
    owner: Principal,
    name: String,
    canister_id: Principal,
}

spec fn bindings(entries: Seq<Address>) -> Seq<((Principal, Seq<char>), Principal)> {
    Seq::new(entries.len(), |i: int| ((entries[i].owner, entries[i].name@), entries[i].canister_id))
}

/// A map from pairs of owner and name to canisters. Its entries are kept in
/// a vector in which no pair of owner and name occurs twice.
pub struct AddressBook {
    entries: Vec<Address>,
}

impl View for AddressBook {
    type V = Map<(Principal, Seq<char>), Principal>;

    closed spec fn view(&self) -> Map<(Principal, Seq<char>), Principal> {
        to_map(bindings(self.entries@))
    }
}

fn index_of(entries: &Vec<Address>, account: &Principal, name: &String) -> (found: Option<usize>)
    ensures
        match found {
            Some(i) => {
                &&& i < entries.len()
                &&& entries[i as int].owner == *account
                &&& entries[i as int].name@ == name@
            },
            None => !has_key(bindings(entries@), (*account, name@)),
        },
{
    let mut i: usize = 0;
    while i < entries.len()
        invariant
            i <= entries.len(),
            forall|j: int|
                0 <= j < i ==> !((#[trigger] entries[j]).owner == *account && entries[j].name@
                    == name@),
        decreases entries.len() - i,
    {
        if same_principal(&entries[i].owner, account) && entries[i].name == *name {
            return Some(i);
        }
        i += 1;
    }
    assert forall|j: int| 0 <= j < entries.len() implies (#[trigger] bindings(entries@)[j]).0 != (
        *account,
        name@,
    ) by {}
    None
}

impl Default for AddressBook {
    fn default() -> (book: AddressBook)
        ensures
            book@ == Map::<(Principal, Seq<char>), Principal>::empty(),
    {
        AddressBook { entries: Vec::new() }
    }
}

impl AddressBook {
    #[verifier::type_invariant]
    spec fn keys_distinct(&self) -> bool {
        distinct_keys(bindings(self.entries@))
    }

    /// An address book holds finitely many entries.
    pub proof fn lemma_finite_entries(&self)
        ensures
            self@.dom().finite(),
    {
        lemma_finite_dom(bindings(self.entries@));
    }

    /// Binds `canister_name` to `canister_id` among the entries of `account`,
    /// in place of what the name was bound to there.
    pub fn add_address(&mut self, account: Principal, canister_name: String, canister_id: Principal)
        ensures
            final(self)@ == old(self)@.insert((account, canister_name@), canister_id),
    {
        proof {
            use_type_invariant(&*self);
        }
        let mut entries: Vec<Address> = Vec::new();
        std::mem::swap(&mut entries, &mut self.entries);
        let ghost before = bindings(entries@);
        match index_of(&entries, &account, &canister_name) {
            Some(i) => {
                entries[i].canister_id = canister_id;
                proof {
                    lemma_update(before, i as int, canister_id);
                    assert(bindings(entries@) =~= before.update(
                        i as int,
                        ((account, canister_name@), canister_id),
                    ));
                }
            },
            None => {
                entries.push(Address { owner: account, name: canister_name, canister_id });
                proof {
                    lemma_push(before, (account, canister_name@), canister_id);
                    assert(bindings(entries@) =~= before.push(
                        ((account, canister_name@), canister_id),
                    ));
                }
            },
        }
        self.entries = entries;
    }

    /// Deletes the binding of `canister_name` among the entries of
    /// `account`; does nothing where there is none.
    pub fn remove_address(&mut self, account: Principal, canister_name: String)
        ensures
            final(self)@ == old(self)@.remove((account, canister_name@)),
    {
        proof {
            use_type_invariant(&*self);
        }
        let mut entries: Vec<Address> = Vec::new();
        std::mem::swap(&mut entries, &mut self.entries);
        let ghost before = bindings(entries@);
        if let Some(i) = index_of(&entries, &account, &canister_name) {
            entries.swap_remove(i);
            proof {
                lemma_swap_remove(before, i as int);
                assert(bindings(entries@) =~= before.update(i as int, before.last()).drop_last());
            }
        }
        self.entries = entries;
    }

    /// What `account` has bound `canister_name` to, together with the name
    /// asked for. The book stays as it is.
    pub fn get_address(&mut self, account: Principal, canister_name: String) -> (result:
        GetAddressResult)
        ensures
            final(self)@ == old(self)@,
            result.canister_name@ == canister_name@,
            result.canister_id == resolve(old(self)@, account, canister_name@),
    {
        proof {
            use_type_invariant(&*self);
        }
        let canister_id = match index_of(&self.entries, &account, &canister_name) {
            Some(i) => {
                proof {
                    lemma_binding_at(bindings(self.entries@), i as int);
                }
                Some(self.entries[i].canister_id)
            },
            None => None,
        };
        GetAddressResult { canister_name, canister_id }
    }

    /// Deletes every entry of `account`, and no entry of anyone else.
    pub fn remove_all(&mut self, account: Principal)
        ensures
            final(self)@ == without_owner(old(self)@, account),
    {
        proof {
            use_type_invariant(&*self);
        }
        let mut entries: Vec<Address> = Vec::new();
        std::mem::swap(&mut entries, &mut self.entries);
        let ghost before = to_map(bindings(entries@));
        let mut i: usize = 0;
        while i < entries.len()
            invariant
                i <= entries.len(),
                distinct_keys(bindings(entries@)),
                forall|j: int| 0 <= j < i ==> (#[trigger] entries[j]).owner != account,
                forall|key: (Principal, Seq<char>)| #[trigger]
                    to_map(bindings(entries@)).contains_key(key) ==> before.contains_key(key)
                        && before[key] == to_map(bindings(entries@))[key],
                forall|key: (Principal, Seq<char>)|
                    before.contains_key(key) && key.0 != account ==> #[trigger] to_map(
                        bindings(entries@),
                    ).contains_key(key),
            decreases entries.len() - i,
        {
            if same_principal(&entries[i].owner, &account) {
                let ghost current = bindings(entries@);
                entries.swap_remove(i);
                proof {
                    lemma_swap_remove(current, i as int);
                    assert(bindings(entries@) =~= current.update(i as int, current.last())
                        .drop_last());
                }
            } else {
                i += 1;
            }
        }
        proof {
            let left = bindings(entries@);
            assert forall|key: (Principal, Seq<char>)| to_map(left).contains_key(key) implies key.0
                != account by {
                assert(entries[position(left, key)].owner != account);
            }
            assert(to_map(left) =~= without_owner(before, account));
        }
        self.entries = entries;
    }

    /// Every entry of `account`: each of its names once, with the canister
    /// the name stands for, in no particular order. The book stays as it is.
    pub fn get_all(&mut self, account: Principal) -> (all: Vec<(String, Principal)>)
        ensures
            final(self)@ == old(self)@,
            all@.len() == addresses_of(old(self)@, account).len(),
            forall|k: int|
                0 <= k < all@.len() ==> resolve(old(self)@, account, (#[trigger] all@[k]).0@)
                    == Some(all@[k].1),
            forall|k: int, l: int|
                0 <= k < l < all@.len() ==> (#[trigger] all@[k]).0@ != (#[trigger] all@[l]).0@,
            forall|name: Seq<char>| #[trigger]
                old(self)@.contains_key((account, name)) ==> exists|k: int|
                    0 <= k < all@.len() && (#[trigger] all@[k]).0@ == name,
    {
        proof {
            use_type_invariant(&*self);
        }
        let ghost held = bindings(self.entries@);
        let ghost mut from: Seq<int> = Seq::empty();
        let mut all: Vec<(String, Principal)> = Vec::new();
        let mut i: usize = 0;
        while i < self.entries.len()
            invariant
                i <= self.entries.len(),
                held == bindings(self.entries@),
                distinct_keys(held),
                from.len() == all@.len(),
                forall|k: int|
                    0 <= k < all@.len() ==> 0 <= (#[trigger] from[k]) < i && held[from[k]] == (
                        (account, all@[k].0@),
                        all@[k].1,
                    ),
                forall|j: int|
                    0 <= j < i && (#[trigger] held[j]).0.0 == account ==> exists|k: int|
                        0 <= k < from.len() && #[trigger] from[k] == j,
                forall|k: int, l: int|
                    0 <= k < l < from.len() ==> (#[trigger] from[k]) != (#[trigger] from[l]),
            decreases self.entries.len() - i,
        {
            if same_principal(&self.entries[i].owner, &account) {
                let ghost earlier = from;
                all.push((self.entries[i].name.clone(), self.entries[i].canister_id));
                proof {
                    from = earlier.push(i as int);
                    assert forall|j: int|
                        0 <= j < i + 1 && (#[trigger] held[j]).0.0 == account implies exists|k: int|
                        0 <= k < from.len() && #[trigger] from[k] == j by {
                        if j < i {
                            let k = choose|k: int|
                                0 <= k < earlier.len() && #[trigger] earlier[k] == j;
                            assert(from[k] == j);
                        } else {
                            assert(from[earlier.len() as int] == j);
                        }
                    }
                }
            }
            i += 1;
        }
        proof {
            let found = address_views(all@);
            assert forall|k: int, l: int| 0 <= k < l < found.len() implies (#[trigger] found[k]).0
                != (#[trigger] found[l]).0 by {
                assert(held[from[k]].0 != held[from[l]].0);
            }
            let mine = addresses_of(self@, account);
            assert forall|name: Seq<char>| has_key(found, name) <==> mine.contains_key(name) by {
                if has_key(found, name) {
                    let k = position(found, name);
                    lemma_binding_at(held, from[k]);
                }
                if mine.contains_key(name) {
                    let j = position(held, (account, name));
                    let k = choose|k: int| 0 <= k < from.len() && #[trigger] from[k] == j;
                    assert(found[k].0 == name);
                }
            }
            assert forall|name: Seq<char>| has_key(found, name) implies #[trigger] to_map(
                found,
            )[name] == mine[name] by {
                let k = position(found, name);
                lemma_binding_at(held, from[k]);
            }
            assert(to_map(found) =~= mine);
            lemma_size(found);
            assert forall|k: int| 0 <= k < all@.len() implies resolve(
                self@,
                account,
                (#[trigger] all@[k]).0@,
            ) == Some(all@[k].1) by {
                lemma_binding_at(held, from[k]);
            }
            assert forall|k: int, l: int| 0 <= k < l < all@.len() implies (#[trigger] all@[k]).0@
                != (#[trigger] all@[l]).0@ by {
                assert(found[k].0 != found[l].0);
            }
            assert forall|name: Seq<char>| #[trigger]
                self@.contains_key((account, name)) implies exists|k: int|
                0 <= k < all@.len() && (#[trigger] all@[k]).0@ == name by {
                assert(mine.contains_key(name));
                assert(found[position(found, name)].0 == name);
            }
        }
        all
    }
}

/// What an owner adds under a name is what the owner then finds under it, and
/// what an owner removes is gone.
pub proof fn lemma_own_entries(
    book: Map<(Principal, Seq<char>), Principal>,
    owner: Principal,
    name: Seq<char>,
    canister_id: Principal,
)
    ensures
        resolve(book.insert((owner, name), canister_id), owner, name) == Some(canister_id),
        resolve(book.remove((owner, name)), owner, name) is None,
        resolve(without_owner(book, owner), owner, name) is None,
        addresses_of(without_owner(book, owner), owner) == Map::<Seq<char>, Principal>::empty(),
{
    assert(addresses_of(without_owner(book, owner), owner) =~= Map::<
        Seq<char>,
        Principal,
    >::empty());
}

/// Whatever one owner adds or removes, be it one entry or all of its own,
/// every other owner finds what it found before, under every name.
pub proof fn lemma_owners_apart(
    book: Map<(Principal, Seq<char>), Principal>,
    owner: Principal,
    name: Seq<char>,
    canister_id: Principal,
    other: Principal,
    any: Seq<char>,
)
    requires
        other != owner,
    ensures
        resolve(book.insert((owner, name), canister_id), other, any) == resolve(book, other, any),
        resolve(book.remove((owner, name)), other, any) == resolve(book, other, any),
        resolve(without_owner(book, owner), other, any) == resolve(book, other, any),
        addresses_of(book.insert((owner, name), canister_id), other) == addresses_of(book, other),
        addresses_of(book.remove((owner, name)), other) == addresses_of(book, other),
        addresses_of(without_owner(book, owner), other) == addresses_of(book, other),
{
    assert(addresses_of(book.insert((owner, name), canister_id), other) =~= addresses_of(
        book,
        other,
    ));
    assert(addresses_of(book.remove((owner, name)), other) =~= addresses_of(book, other));
    assert(addresses_of(without_owner(book, owner), other) =~= addresses_of(book, other));
}

} // verus!
