use cw_indexer::error::ContractError;
use cw_indexer::group::helpers::{validate_name, validate_unique_members};
use cw_indexer::group::msg::MemberNamed;
use cw_indexer::text::{reversed, split_at_dots, str_lt};

fn member(addr: &str, name: &str, weight: u64) -> MemberNamed {
    MemberNamed { addr: addr.to_string(), name: name.to_string(), weight }
}

#[test]
fn unique_members_are_sorted_and_accepted() {
    let mut members = vec![member("carol", "c", 1), member("alice", "a", 2), member("bob", "b", 3)];
    assert_eq!(validate_unique_members(&mut members), Ok(()));
    let addrs: Vec<&str> = members.iter().map(|m| m.addr.as_str()).collect();
    assert_eq!(addrs, vec!["alice", "bob", "carol"]);
    assert_eq!(members[0], member("alice", "a", 2));
}

#[test]
fn duplicate_member_is_reported() {
    let mut members = vec![
        member("zed", "z1", 1),
        member("bob", "b1", 1),
        member("zed", "z2", 2),
        member("bob", "b2", 2),
        member("amy", "a", 1),
    ];
    assert_eq!(
        validate_unique_members(&mut members),
        Err(ContractError::DuplicateMember { member: "bob".to_string() })
    );
    // sorted by address, equal addresses in their first order
    assert_eq!(
        members,
        vec![
            member("amy", "a", 1),
            member("bob", "b1", 1),
            member("bob", "b2", 2),
            member("zed", "z1", 1),
            member("zed", "z2", 2),
        ]
    );
}

#[test]
fn empty_and_single_member_lists() {
    let mut none: Vec<MemberNamed> = vec![];
    assert_eq!(validate_unique_members(&mut none), Ok(()));
    let mut one = vec![member("solo", "s", 1)];
    assert_eq!(validate_unique_members(&mut one), Ok(()));
}

#[test]
fn sorting_is_by_code_point() {
    let mut members = vec![member("b", "", 0), member("B", "", 0), member("ab", "", 0), member("a", "", 0)];
    assert_eq!(validate_unique_members(&mut members), Ok(()));
    let addrs: Vec<&str> = members.iter().map(|m| m.addr.as_str()).collect();
    assert_eq!(addrs, vec!["B", "a", "ab", "b"]);
}

#[test]
fn group_name_rules() {
    assert_eq!(validate_name("abc"), Ok(()));
    assert_eq!(validate_name("ab"), Err(ContractError::NameTooShort { length: 2, min_length: 3 }));
    let long = "a".repeat(65);
    assert_eq!(validate_name(&long), Err(ContractError::NameTooLong { length: 65, max_length: 64 }));
    assert_eq!(validate_name(&"a".repeat(64)), Ok(()));
    assert_eq!(validate_name("two words"), Err(ContractError::InvalidCharacter { c: ' ' }));
}

#[test]
fn text_helpers() {
    assert!(str_lt("abc", "abd"));
    assert!(str_lt("ab", "abc"));
    assert!(!str_lt("abc", "abc"));
    assert!(!str_lt("b", "abc"));
    assert_eq!(split_at_dots("a.b.c"), vec!["a", "b", "c"]);
    assert_eq!(split_at_dots(""), vec![""]);
    assert_eq!(split_at_dots(".x."), vec!["", "x", ""]);
    assert_eq!(
        reversed(vec!["a".to_string(), "b".to_string(), "c".to_string()]),
        vec!["c", "b", "a"]
    );
}
