use feagi_data_deserializer::areas::{AreaMap, AreaOutput};
use feagi_data_deserializer::text::{decimal, trim_trailing_nul};

fn area(x: i32) -> AreaOutput {
    AreaOutput { x_array: vec![x], y_array: vec![x + 1], z_array: vec![x + 2], p_array: vec![7] }
}

#[test]
fn decimal_writes_numbers() {
    assert_eq!(decimal(0), "0");
    assert_eq!(decimal(7), "7");
    assert_eq!(decimal(10), "10");
    assert_eq!(decimal(255), "255");
    assert_eq!(decimal(1_234_567_890), "1234567890");
    assert_eq!(decimal(u32::MAX as u64), "4294967295");
    assert_eq!(decimal(u64::MAX), "18446744073709551615");
    for n in [9u64, 99, 100, 101, 999, 1000, 9_999_999] {
        assert_eq!(decimal(n), format!("{}", n));
    }
}

#[test]
fn trimming_removes_only_nul_at_the_end() {
    assert_eq!(trim_trailing_nul("abc\0\0"), "abc");
    assert_eq!(trim_trailing_nul("abc"), "abc");
    assert_eq!(trim_trailing_nul("\0abc\0"), "\0abc");
    assert_eq!(trim_trailing_nul("a\0b\0\0\0"), "a\0b");
    assert_eq!(trim_trailing_nul("\0\0\0"), "");
    assert_eq!(trim_trailing_nul(""), "");
    assert_eq!(trim_trailing_nul("é\u{fffd}\0"), "é\u{fffd}");
    assert_eq!(trim_trailing_nul("abc \0"), "abc ");
}

#[test]
fn area_map_keeps_one_entry_per_id() {
    let mut m = AreaMap::new();
    assert!(m.is_empty());
    assert_eq!(m.len(), 0);
    assert!(m.get("a").is_none());
    m.insert("a".to_string(), area(1));
    m.insert("b".to_string(), area(2));
    assert_eq!(m.len(), 2);
    assert_eq!(m.get("a"), Some(&area(1)));
    assert_eq!(m.get("b"), Some(&area(2)));
    m.insert("a".to_string(), area(3));
    assert_eq!(m.len(), 2);
    assert!(!m.is_empty());
    assert_eq!(m.get("a"), Some(&area(3)));
    assert_eq!(m.get("b"), Some(&area(2)));
    assert_eq!(m.entry(0).id, "a");
    assert_eq!(m.entry(0).area, area(3));
    assert_eq!(m.entry(1).id, "b");
    assert!(m.get("").is_none());
    m.insert(String::new(), area(4));
    assert_eq!(m.get(""), Some(&area(4)));
    assert_eq!(m.len(), 3);
}
