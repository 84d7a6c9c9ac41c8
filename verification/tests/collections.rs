use soroban_sdk::Env;
use swipe_governance::bytes::ByteString;
use swipe_governance::collections::{Amounts, IdList};

#[test]
fn a_list_keeps_its_items_in_order() {
    let env = Env::default();
    let mut list = IdList::new(&env);
    assert!(list.is_empty());
    list.push_back(7);
    list.push_back(u64::MAX);
    let copy = list.clone();
    list.push_back(7);
    assert_eq!(list.len(), 3);
    assert_eq!(copy.len(), 2);
    assert_eq!(list.get(0), Some(7));
    assert_eq!(list.get(1), Some(u64::MAX));
    assert_eq!(list.get(2), Some(7));
    assert_eq!(list.get(3), None);
    assert_eq!(copy.get(2), None);
}

#[test]
fn amounts_are_found_again() {
    let env = Env::default();
    let mut amounts = Amounts::new(&env);
    assert_eq!(amounts.get(1), None);
    assert_eq!(amounts.amount(1), 0);
    amounts.set(1, i128::MIN);
    amounts.set(u64::MAX, i128::MAX);
    amounts.set(1, -5);
    assert_eq!(amounts.get(1), Some(-5));
    assert_eq!(amounts.amount(u64::MAX), i128::MAX);
    assert_eq!(amounts.get(2), None);
}

#[test]
fn byte_strings_give_their_bytes() {
    let s = ByteString::new(vec![0, 255]);
    assert_eq!(s.len(), 2);
    assert!(!s.is_empty());
    assert_eq!(s.get(1), Some(255));
    assert_eq!(s.get(2), None);
    assert_eq!(s.as_slice(), &[0, 255]);
    assert_eq!(s.clone(), s);
    assert!(ByteString::new(Vec::new()).is_empty());
}
