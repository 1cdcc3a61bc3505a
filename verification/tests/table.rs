use paywow::address::Address;
use paywow::table::Table;

#[test]
fn table_keeps_one_value_per_key() {
    let mut table: Table<u32> = Table::new();
    assert!(!table.contains_key(&"a".to_string()));
    assert_eq!(table.get(&"a".to_string()), None);
    table.set("a".to_string(), 1);
    table.set("b".to_string(), 2);
    table.set("a".to_string(), 3);
    assert!(table.contains_key(&"a".to_string()));
    assert_eq!(table.get(&"a".to_string()), Some(&3));
    assert_eq!(table.get(&"b".to_string()), Some(&2));
    assert_eq!(table.get(&"".to_string()), None);
}

#[test]
fn table_remove_takes_the_value_out() {
    let mut table: Table<u32> = Table::new();
    table.set("a".to_string(), 1);
    table.set("b".to_string(), 2);
    table.set("c".to_string(), 3);
    assert_eq!(table.remove(&"b".to_string()), Some(2));
    assert_eq!(table.remove(&"b".to_string()), None);
    assert_eq!(table.get(&"a".to_string()), Some(&1));
    assert_eq!(table.get(&"c".to_string()), Some(&3));
    assert_eq!(table.remove(&"a".to_string()), Some(1));
    assert_eq!(table.remove(&"c".to_string()), Some(3));
    assert!(!table.contains_key(&"c".to_string()));
}

#[test]
fn address_equality_is_by_key() {
    let a = Address::from_str("GABC");
    let b = Address::new("GABC".to_string());
    let c = Address::from_str("GABD");
    assert_eq!(a, b);
    assert!(a.same(&b));
    assert!(!a.same(&c));
    assert!(a != c);
    assert_eq!(a.key(), "GABC");
    assert_eq!(a.clone(), a);
}
