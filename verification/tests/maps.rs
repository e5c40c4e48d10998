use wireguard_tunnel::assoc::{AssocMap, Key};
use wireguard_tunnel::stats::Stats;
use wireguard_tunnel::wire::Value;

fn k(s: &str) -> String {
    s.to_string()
}

#[test]
fn new_map_is_empty() {
    let map: AssocMap<String, Value> = AssocMap::new();
    assert!(map.is_empty());
    assert_eq!(map.len(), 0);
    assert!(map.get(&k("a")).is_none());
    assert!(!map.contains_key(&k("a")));
}

#[test]
fn insert_then_get() {
    let mut map: AssocMap<String, Value> = AssocMap::new();
    map.insert(k("a"), Value::U32(1));
    map.insert(k("b"), Value::Bool(true));
    assert_eq!(map.get(&k("a")), Some(&Value::U32(1)));
    assert_eq!(map.get(&k("b")), Some(&Value::Bool(true)));
    assert_eq!(map.get(&k("c")), None);
    assert_eq!(map.len(), 2);
    assert!(!map.is_empty());
    assert!(map.contains_key(&k("b")));
}

#[test]
fn insert_replaces_and_keeps_the_place() {
    let mut map: AssocMap<String, Value> = AssocMap::new();
    map.insert(k("a"), Value::U32(1));
    map.insert(k("b"), Value::U32(2));
    map.insert(k("c"), Value::U32(3));
    map.insert(k("a"), Value::U32(10));
    assert_eq!(map.len(), 3);
    assert_eq!(map.get(&k("a")), Some(&Value::U32(10)));
    assert_eq!(map.entry(0), (&k("a"), &Value::U32(10)));
    assert_eq!(map.entry(1), (&k("b"), &Value::U32(2)));
    assert_eq!(map.entry(2), (&k("c"), &Value::U32(3)));
}

#[test]
fn keys_are_compared_exactly() {
    let mut map: AssocMap<String, Value> = AssocMap::new();
    map.insert(k("mtu"), Value::U32(1));
    assert!(map.get(&k("MTU")).is_none());
    assert!(map.get(&k("mtu ")).is_none());
    assert!(map.get(&k("")).is_none());
}

#[test]
fn byte_keys() {
    let mut a = [0u8; 32];
    let mut b = [0u8; 32];
    assert!(a.same_key(&b));
    b[31] = 1;
    assert!(!a.same_key(&b));
    a[31] = 1;
    assert!(a.same_key(&b));
    a[0] = 7;
    assert!(!a.same_key(&b));
    let mut map: AssocMap<[u8; 32], Stats> = AssocMap::new();
    map.insert(a, Stats { tx_bytes: 1, rx_bytes: 2 });
    map.insert(b, Stats { tx_bytes: 3, rx_bytes: 4 });
    assert_eq!(map.get(&a), Some(&Stats { tx_bytes: 1, rx_bytes: 2 }));
    assert_eq!(map.get(&b), Some(&Stats { tx_bytes: 3, rx_bytes: 4 }));
    assert_eq!(map.len(), 2);
}

#[test]
fn string_keys() {
    assert!(k("ipv4").same_key(&k("ipv4")));
    assert!(!k("ipv4").same_key(&k("ipv6")));
}
