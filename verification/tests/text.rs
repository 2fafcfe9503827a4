use rathole::protocol::SocketAddr;
use rathole::table::Table;
use rathole::text::{chars_of, decimal_text, str_le, text_of};

#[test]
fn numbers_are_written_in_decimal() {
    for n in [0, 9, 10, 99, 100, 65536, u64::MAX] {
        assert_eq!(decimal_text(n), n.to_string());
    }
}

#[test]
fn strings_are_taken_apart_and_put_together() {
    for s in ["", "a", "grüße — ☃"] {
        let chars = chars_of(s);
        assert_eq!(chars, s.chars().collect::<Vec<char>>());
        assert_eq!(text_of(&chars), s);
    }
}

#[test]
fn strings_are_ordered_by_their_bytes() {
    let list = ["", "Z", "a", "aa", "b", "é", "☃"];
    for (i, a) in list.iter().enumerate() {
        for (j, b) in list.iter().enumerate() {
            assert_eq!(str_le(a, b), i <= j);
            assert_eq!(str_le(a, b), a <= b);
        }
    }
}

#[test]
fn tables_keep_one_value_for_each_key() {
    let mut t: Table<String, u32> = Table::new();
    assert_eq!(t.insert("a".to_string(), 1), None);
    assert_eq!(t.insert("b".to_string(), 2), None);
    assert_eq!(t.insert("a".to_string(), 3), Some(1));
    assert_eq!(t.len(), 2);
    assert_eq!(t.get(&"a".to_string()), Some(&3));
    let i = t.find(&"b".to_string()).unwrap();
    assert_eq!(t.key_at(i), "b");
    *t.value_at_mut(i) = 5;
    assert_eq!(*t.value_at(i), 5);
    assert_eq!(t.remove(&"a".to_string()), Some(3));
    assert_eq!(t.remove(&"a".to_string()), None);
    assert_eq!(t.len(), 1);
}

#[test]
fn tables_tell_addresses_and_digests_apart() {
    let v4 = SocketAddr::V4 { ip: [0; 4], port: 1 };
    let v6 = SocketAddr::V6 { ip: [0; 16], port: 1 };
    let mut t: Table<SocketAddr, u32> = Table::default();
    t.insert(v4, 4);
    t.insert(v6, 6);
    assert_eq!((t.get(&v4), t.get(&v6)), (Some(&4), Some(&6)));

    let mut d: Table<[u8; 32], u32> = Table::new();
    d.insert([1; 32], 1);
    assert_eq!(d.get(&[2; 32]), None);
    assert_eq!(d.get(&[1; 32]), Some(&1));
}
