use uref_share::entry_points::{Access, EntryKind, EntryPointDecl, ParameterDecl, ValueType};
use uref_share::{locked, locked_with_share, share};

fn names(eps: &[EntryPointDecl]) -> Vec<&str> {
    eps.iter().map(|e| e.name.as_str()).collect()
}

fn params(e: &EntryPointDecl) -> Vec<(&str, ValueType)> {
    e.params.iter().map(|p| (p.name.as_str(), p.value_type)).collect()
}

fn groups(e: &EntryPointDecl) -> Option<Vec<String>> {
    match &e.access {
        Access::Public => None,
        Access::Groups(labels) => Some(labels.clone()),
    }
}

#[test]
fn broker_entry_points() {
    let eps = share::get_entry_points();
    assert_eq!(names(&eps), vec!["retrieve_uref", "store_uref"]);
    assert!(params(&eps[0]).is_empty());
    assert_eq!(eps[0].ret, ValueType::Token);
    assert_eq!(
        params(&eps[1]),
        vec![("uref", ValueType::Token), ("account_pubkey", ValueType::PublicKey)]
    );
    assert_eq!(eps[1].ret, ValueType::Unit);
    for e in &eps {
        assert!(e.access.is_public());
        assert_eq!(e.kind, EntryKind::Contract);
    }
}

#[test]
fn resource_entry_points() {
    let eps = locked::get_entry_points();
    assert_eq!(names(&eps), vec!["group_access_only", "get_access"]);
    assert!(params(&eps[0]).is_empty());
    assert_eq!(eps[0].ret, ValueType::Token);
    assert_eq!(groups(&eps[0]), Some(vec!["admin".to_string()]));
    assert_eq!(eps[0].kind, EntryKind::Contract);
    assert_eq!(params(&eps[1]), vec![("share_contract", ValueType::Token)]);
    assert_eq!(eps[1].ret, ValueType::Unit);
    assert!(eps[1].access.is_public());
    assert_eq!(eps[1].kind, EntryKind::Session);
}

#[test]
fn integrated_entry_points() {
    let eps = locked_with_share::get_entry_points();
    assert_eq!(
        names(&eps),
        vec!["group_access_only", "get_access", "retrieve_urefs", "append_urefs"]
    );
    assert_eq!(groups(&eps[0]), Some(vec!["admin".to_string()]));
    assert_eq!(eps[0].kind, EntryKind::Contract);
    assert_eq!(params(&eps[1]), vec![("urefs", ValueType::TokenList)]);
    assert_eq!(eps[1].kind, EntryKind::Session);
    assert!(params(&eps[2]).is_empty());
    assert_eq!(eps[2].kind, EntryKind::Contract);
    assert_eq!(
        params(&eps[3]),
        vec![("urefs", ValueType::TokenList), ("account_pubkeys", ValueType::PublicKeyList)]
    );
    assert_eq!(eps[3].kind, EntryKind::Contract);
    for e in &eps {
        assert_eq!(e.ret, ValueType::Unit);
    }
    for e in &eps[1..] {
        assert!(e.access.is_public());
    }
}

#[test]
fn only_the_gated_entry_point_is_restricted() {
    for eps in [locked::get_entry_points(), locked_with_share::get_entry_points()] {
        for e in &eps {
            assert_eq!(e.access.is_public(), e.name != "group_access_only");
        }
    }
}

#[test]
fn declarations_hold_what_they_were_built_from() {
    let p = ParameterDecl::new("amount", ValueType::TokenList);
    assert_eq!(p.name, "amount");
    assert_eq!(p.value_type, ValueType::TokenList);
    let e = EntryPointDecl::new(
        "run",
        vec![p],
        ValueType::PublicKey,
        Access::group("staff"),
        EntryKind::Session,
    );
    assert_eq!(e.name, "run");
    assert_eq!(params(&e), vec![("amount", ValueType::TokenList)]);
    assert_eq!(e.ret, ValueType::PublicKey);
    assert_eq!(groups(&e), Some(vec!["staff".to_string()]));
    assert!(!e.access.is_public());
    assert_eq!(e.kind, EntryKind::Session);
}
