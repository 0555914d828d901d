#![allow(deprecated)]

use dab::address_book::{name, AddressBook, GetAddressResult};
use ic_kit::mock_principals;
use ic_kit::Principal;

fn sorted(mut entries: Vec<(String, Principal)>) -> Vec<(String, Principal)> {
    entries.sort();
    entries
}

#[test]
fn address_book_presents_its_name() {
    assert_eq!(name(), String::from("DAB"));
}

#[test]
fn owners_do_not_see_each_other() {
    let alice = mock_principals::alice();
    let bob = mock_principals::bob();
    let target = mock_principals::xtc();
    let mut book = AddressBook::default();

    book.add_address(alice, String::from("x"), target);

    assert_eq!(
        book.get_address(bob, String::from("x")),
        GetAddressResult {
            canister_name: String::from("x"),
            canister_id: None,
        }
    );
    assert_eq!(
        book.get_address(alice, String::from("x")),
        GetAddressResult {
            canister_name: String::from("x"),
            canister_id: Some(target),
        }
    );
}

#[test]
fn same_name_under_two_owners_is_two_entries() {
    let alice = mock_principals::alice();
    let bob = mock_principals::bob();
    let mut book = AddressBook::default();

    book.add_address(alice, String::from("x"), mock_principals::xtc());
    book.add_address(bob, String::from("x"), mock_principals::john());

    assert_eq!(
        book.get_address(alice, String::from("x")).canister_id,
        Some(mock_principals::xtc())
    );
    assert_eq!(
        book.get_address(bob, String::from("x")).canister_id,
        Some(mock_principals::john())
    );

    book.remove_address(alice, String::from("x"));
    assert_eq!(book.get_address(alice, String::from("x")).canister_id, None);
    assert_eq!(
        book.get_address(bob, String::from("x")).canister_id,
        Some(mock_principals::john())
    );
}

#[test]
fn add_address_overwrites() {
    let alice = mock_principals::alice();
    let mut book = AddressBook::default();

    book.add_address(alice, String::from("x"), mock_principals::xtc());
    book.add_address(alice, String::from("x"), mock_principals::john());

    assert_eq!(
        book.get_address(alice, String::from("x")).canister_id,
        Some(mock_principals::john())
    );
    assert_eq!(
        book.get_all(alice),
        vec![(String::from("x"), mock_principals::john())]
    );
}

#[test]
fn names_of_any_length_are_taken() {
    let alice = mock_principals::alice();
    let mut book = AddressBook::default();
    let long = "n".repeat(500);

    book.add_address(alice, long.clone(), mock_principals::xtc());
    book.add_address(alice, String::new(), mock_principals::john());

    assert_eq!(
        book.get_address(alice, long.clone()),
        GetAddressResult {
            canister_name: long,
            canister_id: Some(mock_principals::xtc()),
        }
    );
    assert_eq!(
        book.get_address(alice, String::new()).canister_id,
        Some(mock_principals::john())
    );
}

#[test]
fn remove_address_of_an_absent_name_does_nothing() {
    let alice = mock_principals::alice();
    let bob = mock_principals::bob();
    let mut book = AddressBook::default();

    book.remove_address(alice, String::from("x"));
    assert!(book.get_all(alice).is_empty());

    book.add_address(alice, String::from("x"), mock_principals::xtc());
    book.remove_address(alice, String::from("y"));
    book.remove_address(bob, String::from("x"));

    assert_eq!(
        book.get_all(alice),
        vec![(String::from("x"), mock_principals::xtc())]
    );
    assert!(book.get_all(bob).is_empty());
}

#[test]
fn get_address_always_carries_the_name_asked_for() {
    let alice = mock_principals::alice();
    let mut book = AddressBook::default();
    let miss = book.get_address(alice, String::from("nothing here"));
    assert_eq!(miss.canister_name, "nothing here");
    assert_eq!(miss.canister_id, None);

    book.add_address(alice, String::from("here"), mock_principals::xtc());
    let hit = book.get_address(alice, String::from("here"));
    assert_eq!(hit.canister_name, "here");
    assert_eq!(hit.canister_id, Some(mock_principals::xtc()));
    assert_eq!(hit.clone(), hit);
}

#[test]
fn get_all_lists_the_entries_of_one_owner() {
    let alice = mock_principals::alice();
    let bob = mock_principals::bob();
    let john = mock_principals::john();
    let mut book = AddressBook::default();
    assert!(book.get_all(alice).is_empty());

    book.add_address(alice, String::from("b"), mock_principals::xtc());
    book.add_address(bob, String::from("a"), alice);
    book.add_address(alice, String::from("a"), john);
    book.add_address(bob, String::from("c"), john);
    book.add_address(alice, String::from("c"), bob);
    book.add_address(alice, String::from("b"), bob);

    assert_eq!(
        sorted(book.get_all(alice)),
        vec![
            (String::from("a"), john),
            (String::from("b"), bob),
            (String::from("c"), bob),
        ]
    );
    assert_eq!(
        sorted(book.get_all(bob)),
        vec![(String::from("a"), alice), (String::from("c"), john)]
    );
    assert!(book.get_all(john).is_empty());

    // listing changes nothing
    assert_eq!(book.get_all(alice).len(), 3);
    assert_eq!(
        book.get_address(alice, String::from("a")).canister_id,
        Some(john)
    );
}

#[test]
fn remove_all_clears_one_owner() {
    let alice = mock_principals::alice();
    let bob = mock_principals::bob();
    let john = mock_principals::john();
    let mut book = AddressBook::default();

    book.add_address(alice, String::from("a"), john);
    book.add_address(bob, String::from("a"), alice);
    book.add_address(alice, String::from("b"), john);
    book.add_address(alice, String::from("c"), bob);
    book.add_address(bob, String::from("b"), john);
    book.add_address(john, String::from("a"), john);

    book.remove_all(alice);

    assert!(book.get_all(alice).is_empty());
    for name in ["a", "b", "c"] {
        assert_eq!(book.get_address(alice, String::from(name)).canister_id, None);
    }
    assert_eq!(
        sorted(book.get_all(bob)),
        vec![(String::from("a"), alice), (String::from("b"), john)]
    );
    assert_eq!(book.get_all(john), vec![(String::from("a"), john)]);

    // nothing is left to remove
    book.remove_all(alice);
    assert!(book.get_all(alice).is_empty());
    assert_eq!(book.get_all(bob).len(), 2);

    // the owner can start over
    book.add_address(alice, String::from("a"), bob);
    assert_eq!(book.get_all(alice), vec![(String::from("a"), bob)]);
}

#[test]
fn remove_all_with_the_owner_at_both_ends() {
    let alice = mock_principals::alice();
    let bob = mock_principals::bob();
    let mut book = AddressBook::default();

    book.add_address(alice, String::from("first"), bob);
    book.add_address(bob, String::from("middle"), alice);
    book.add_address(alice, String::from("last"), bob);
    book.add_address(alice, String::from("very last"), bob);

    book.remove_all(alice);
    assert!(book.get_all(alice).is_empty());
    assert_eq!(book.get_all(bob), vec![(String::from("middle"), alice)]);

    book.remove_all(bob);
    assert!(book.get_all(bob).is_empty());
}

#[test]
fn identities_are_told_apart_by_value() {
    let mut book = AddressBook::default();
    let one = Principal::from_slice(&[1, 2, 3]);
    let same = Principal::from_slice(&[1, 2, 3]);
    let longer = Principal::from_slice(&[1, 2, 3, 0]);
    let empty = Principal::management_canister();

    book.add_address(one, String::from("x"), empty);
    assert_eq!(book.get_address(same, String::from("x")).canister_id, Some(empty));
    assert_eq!(book.get_address(longer, String::from("x")).canister_id, None);
    assert_eq!(book.get_address(empty, String::from("x")).canister_id, None);
}
