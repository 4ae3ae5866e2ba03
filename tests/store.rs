use cosmwasm_std::MemoryStorage;
use cw_cyph::contract::{
    entries_from_pairs, execute, instantiate, query_all, try_add, try_delete, try_edit,
};
use cw_cyph::error::ContractError;
use cw_cyph::msg::{Entry, ExecuteMsg, InstantiateMsg};
use cw_cyph::state::{replace_existing, CredentialReader, CredentialStore};

fn entry(name: &str, password: &str) -> Entry {
    Entry { name: name.to_string(), password: password.to_string() }
}

fn listed(storage: &MemoryStorage, owner: &str) -> Vec<Entry> {
    query_all(&CredentialReader { storage }, owner).unwrap().entries
}

fn names(storage: &MemoryStorage, owner: &str) -> Vec<String> {
    listed(storage, owner).into_iter().map(|e| e.name).collect()
}

#[test]
fn add_edit_delete_scenario() {
    let mut storage = MemoryStorage::new();
    let add = ExecuteMsg::Add { name: "google".to_string(), password: "abcd1234!".to_string() };
    execute(&mut CredentialStore { storage: &mut storage }, "someone", add).unwrap();
    assert_eq!(listed(&storage, "someone"), vec![entry("google", "abcd1234!")]);

    let edit = ExecuteMsg::Edit { name: "google".to_string(), password: "abc".to_string() };
    execute(&mut CredentialStore { storage: &mut storage }, "someone", edit).unwrap();
    assert_eq!(listed(&storage, "someone"), vec![entry("google", "abc")]);

    let delete = ExecuteMsg::Delete { name: "google".to_string() };
    execute(&mut CredentialStore { storage: &mut storage }, "someone", delete).unwrap();
    assert_eq!(listed(&storage, "someone"), Vec::<Entry>::new());
}

#[test]
fn listing_is_ordered_by_encoded_name() {
    let mut storage = MemoryStorage::new();
    for name in ["zeta", "\u{e9}t\u{e9}", "alpha", "Beta", "al"] {
        try_add(&mut CredentialStore { storage: &mut storage }, "someone", name.to_string(), format!("pw-{}", name)).unwrap();
    }
    assert_eq!(names(&storage, "someone"), vec!["Beta", "al", "alpha", "zeta", "\u{e9}t\u{e9}"]);
    let entries = listed(&storage, "someone");
    assert_eq!(entries[2], entry("alpha", "pw-alpha"));
}

#[test]
fn owners_are_kept_apart() {
    let mut storage = MemoryStorage::new();
    try_add(&mut CredentialStore { storage: &mut storage }, "some", "mail".to_string(), "x".to_string()).unwrap();
    try_add(&mut CredentialStore { storage: &mut storage }, "someone", "bank".to_string(), "y".to_string()).unwrap();
    try_add(&mut CredentialStore { storage: &mut storage }, "someone", "mail".to_string(), "z".to_string()).unwrap();
    assert_eq!(listed(&storage, "some"), vec![entry("mail", "x")]);
    assert_eq!(
        listed(&storage, "someone"),
        vec![entry("bank", "y"), entry("mail", "z")]
    );
    assert_eq!(listed(&storage, "nobody"), Vec::<Entry>::new());
}

#[test]
fn add_twice_keeps_first_value() {
    let mut storage = MemoryStorage::new();
    try_add(&mut CredentialStore { storage: &mut storage }, "someone", "google".to_string(), "first".to_string()).unwrap();
    let res = try_add(&mut CredentialStore { storage: &mut storage }, "someone", "google".to_string(), "second".to_string());
    assert!(matches!(res, Err(ContractError::KeyAlreadyExists {})));
    assert_eq!(listed(&storage, "someone"), vec![entry("google", "first")]);
}

#[test]
fn same_name_for_another_owner_is_accepted() {
    let mut storage = MemoryStorage::new();
    try_add(&mut CredentialStore { storage: &mut storage }, "alice", "google".to_string(), "a".to_string()).unwrap();
    try_add(&mut CredentialStore { storage: &mut storage }, "bob", "google".to_string(), "b".to_string()).unwrap();
    assert_eq!(listed(&storage, "alice"), vec![entry("google", "a")]);
    assert_eq!(listed(&storage, "bob"), vec![entry("google", "b")]);
}

#[test]
fn edit_missing_leaves_store_unchanged() {
    let mut storage = MemoryStorage::new();
    try_add(&mut CredentialStore { storage: &mut storage }, "someone", "bank".to_string(), "1".to_string()).unwrap();
    let res = try_edit(&mut CredentialStore { storage: &mut storage }, "someone", "google".to_string(), "2".to_string());
    assert!(matches!(res, Err(ContractError::KeyDoesntExist {})));
    let res = try_edit(&mut CredentialStore { storage: &mut storage }, "other", "bank".to_string(), "2".to_string());
    assert!(matches!(res, Err(ContractError::KeyDoesntExist {})));
    assert_eq!(listed(&storage, "someone"), vec![entry("bank", "1")]);
    assert_eq!(listed(&storage, "other"), Vec::<Entry>::new());
}

#[test]
fn edit_keeps_position_and_other_entries() {
    let mut storage = MemoryStorage::new();
    for (n, p) in [("a", "1"), ("b", "2"), ("c", "3")] {
        try_add(&mut CredentialStore { storage: &mut storage }, "someone", n.to_string(), p.to_string()).unwrap();
    }
    try_edit(&mut CredentialStore { storage: &mut storage }, "someone", "b".to_string(), "new".to_string()).unwrap();
    assert_eq!(
        listed(&storage, "someone"),
        vec![entry("a", "1"), entry("b", "new"), entry("c", "3")]
    );
}

#[test]
fn delete_missing_fails() {
    let mut storage = MemoryStorage::new();
    try_add(&mut CredentialStore { storage: &mut storage }, "someone", "bank".to_string(), "1".to_string()).unwrap();
    let res = try_delete(&mut CredentialStore { storage: &mut storage }, "someone", "google".to_string());
    assert!(matches!(res, Err(ContractError::KeyDoesntExist {})));
    assert_eq!(listed(&storage, "someone"), vec![entry("bank", "1")]);
}

#[test]
fn delete_removes_only_that_entry() {
    let mut storage = MemoryStorage::new();
    for (n, p) in [("a", "1"), ("b", "2"), ("c", "3")] {
        try_add(&mut CredentialStore { storage: &mut storage }, "someone", n.to_string(), p.to_string()).unwrap();
    }
    try_delete(&mut CredentialStore { storage: &mut storage }, "someone", "b".to_string()).unwrap();
    assert_eq!(
        listed(&storage, "someone"),
        vec![entry("a", "1"), entry("c", "3")]
    );
    let res = try_delete(&mut CredentialStore { storage: &mut storage }, "someone", "b".to_string());
    assert!(matches!(res, Err(ContractError::KeyDoesntExist {})));
}

#[test]
fn empty_name_and_value_are_entries() {
    let mut storage = MemoryStorage::new();
    try_add(&mut CredentialStore { storage: &mut storage }, "someone", String::new(), String::new()).unwrap();
    assert_eq!(listed(&storage, "someone"), vec![entry("", "")]);
    try_edit(&mut CredentialStore { storage: &mut storage }, "someone", String::new(), "v".to_string()).unwrap();
    assert_eq!(listed(&storage, "someone"), vec![entry("", "v")]);
}

#[test]
fn instantiate_twice_keeps_entries() {
    let mut storage = MemoryStorage::new();
    instantiate(&mut CredentialStore { storage: &mut storage }, InstantiateMsg {}).unwrap();
    try_add(&mut CredentialStore { storage: &mut storage }, "someone", "google".to_string(), "pw".to_string()).unwrap();
    instantiate(&mut CredentialStore { storage: &mut storage }, InstantiateMsg {}).unwrap();
    assert_eq!(listed(&storage, "someone"), vec![entry("google", "pw")]);
}

#[test]
fn entries_from_pairs_keeps_order() {
    let pairs = vec![
        ("b".to_string(), "2".to_string()),
        ("a".to_string(), "1".to_string()),
    ];
    assert_eq!(entries_from_pairs(&pairs), vec![entry("b", "2"), entry("a", "1")]);
    assert_eq!(entries_from_pairs(&Vec::new()), Vec::<Entry>::new());
}

#[test]
fn replace_existing_decides_on_presence() {
    assert!(matches!(
        replace_existing(None, "x".to_string()),
        Err(ContractError::KeyDoesntExist {})
    ));
    match replace_existing(Some("old".to_string()), "new".to_string()) {
        Ok(v) => assert_eq!(v, "new"),
        Err(_) => panic!("an existing value is replaced"),
    }
}
