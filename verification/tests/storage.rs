use lemon_colonies_client::storage::{read_field, write_field, Inner, Storage};

fn field(s: &str) -> Vec<u8> {
    let mut v = (s.len() as u32).to_le_bytes().to_vec();
    v.extend_from_slice(s.as_bytes());
    v
}

#[test]
fn write_field_prefixes_the_byte_length() {
    let mut out = vec![9u8];
    write_field(&mut out, "ab");
    assert_eq!(out, vec![9, 2, 0, 0, 0, b'a', b'b']);
    let mut out = Vec::new();
    write_field(&mut out, "ä");
    assert_eq!(out, vec![2, 0, 0, 0, 0xc3, 0xa4]);
}

#[test]
fn read_field_reads_what_write_field_wrote() {
    let mut out = Vec::new();
    write_field(&mut out, "hello");
    write_field(&mut out, "");
    assert_eq!(read_field(&out, 0), Some(("hello".to_string(), 9)));
    assert_eq!(read_field(&out, 9), Some((String::new(), 13)));
    assert_eq!(read_field(&out, 13), None);
}

#[test]
fn read_field_refuses_short_or_invalid_fields() {
    assert_eq!(read_field(&[1, 0, 0], 0), None);
    assert_eq!(read_field(&[3, 0, 0, 0, b'a', b'b'], 0), None);
    assert_eq!(read_field(&[1, 0, 0, 0, 0xff], 0), None);
    assert_eq!(read_field(&[0, 0, 0, 0], 1), None);
    assert_eq!(read_field(&[0, 0, 0, 0], 100), None);
    assert_eq!(read_field(&[0, 0, 0, 0], usize::MAX), None);
}

#[test]
fn get_after_set_and_remove() {
    let mut s = Storage::open(&[]);
    assert!(s.is_empty());
    assert_eq!(s.get("settings"), None);
    s.set("settings", "{}");
    s.set("ui_state", "x");
    assert_eq!(s.get("settings"), Some("{}".to_string()));
    s.set("settings", "{\"a\":1}");
    assert_eq!(s.get("settings"), Some("{\"a\":1}".to_string()));
    assert_eq!(s.len(), 2);
    assert_eq!(s.key(0), Some("settings".to_string()));
    assert_eq!(s.key(1), Some("ui_state".to_string()));
    assert_eq!(s.key(2), None);
    s.remove("settings");
    assert_eq!(s.get("settings"), None);
    assert_eq!(s.get("ui_state"), Some("x".to_string()));
    assert_eq!(s.len(), 1);
    s.remove("missing");
    assert_eq!(s.len(), 1);
    let image = s.clear();
    assert!(image.is_empty());
    assert_eq!(s.len(), 0);
    assert!(s.is_empty());
}

#[test]
fn set_gives_the_image_of_the_whole_store() {
    let mut s = Storage::open(&[]);
    s.set("k", "v");
    let image = s.set("key2", "värde");
    let mut expected = field("k");
    expected.extend(field("v"));
    expected.extend(field("key2"));
    expected.extend(field("värde"));
    assert_eq!(image, expected);
    assert_eq!(s.save(), expected);
    let image = s.remove("k");
    let mut expected = field("key2");
    expected.extend(field("värde"));
    assert_eq!(image, expected);
}

#[test]
fn open_reads_back_a_saved_image() {
    let mut s = Storage::open(&[]);
    s.set("a", "1");
    s.set("bb", "");
    s.set("ccc", "three");
    let reopened = Storage::open(&s.save());
    assert_eq!(reopened.len(), 3);
    assert_eq!(reopened.get("a"), Some("1".to_string()));
    assert_eq!(reopened.get("bb"), Some(String::new()));
    assert_eq!(reopened.get("ccc"), Some("three".to_string()));
    assert_eq!(reopened.save(), s.save());
}

#[test]
fn open_stops_at_the_first_damaged_entry() {
    let mut data = field("a");
    data.extend(field("1"));
    data.extend(field("b"));
    data.extend([5, 0, 0, 0, b'x']);
    let s = Storage::open(&data);
    assert_eq!(s.len(), 1);
    assert_eq!(s.get("a"), Some("1".to_string()));
    assert_eq!(s.get("b"), None);
}

#[test]
fn open_keeps_the_last_value_of_a_repeated_key() {
    let mut data = field("a");
    data.extend(field("1"));
    data.extend(field("b"));
    data.extend(field("2"));
    data.extend(field("a"));
    data.extend(field("3"));
    let s = Storage::open(&data);
    assert_eq!(s.len(), 2);
    assert_eq!(s.get("a"), Some("3".to_string()));
    assert_eq!(s.key(0), Some("a".to_string()));
    assert_eq!(s.key(1), Some("b".to_string()));
}

#[test]
fn inner_load_adds_to_existing_entries() {
    let mut inner = Inner::new();
    inner.set("x", "0");
    let mut data = field("y");
    data.extend(field("1"));
    inner.load(&data);
    assert_eq!(inner.len(), 2);
    assert_eq!(inner.get("x"), Some("0".to_string()));
    assert_eq!(inner.get("y"), Some("1".to_string()));
    inner.remove("x");
    assert_eq!(inner.key(0), Some("y".to_string()));
    inner.clear();
    assert_eq!(inner.len(), 0);
    assert!(inner.save().is_empty());
}

#[test]
fn a_saved_image_with_a_damaged_tail_reopens_to_the_saved_entries() {
    let mut s = Storage::open(&[]);
    s.set("k", "v");
    s.set("name", "lemon");
    for tail in [vec![], vec![1, 2], vec![9, 0, 0, 0, b'x'], field("only_a_key")] {
        let mut data = s.save();
        data.extend(tail);
        let reopened = Storage::open(&data);
        assert_eq!(reopened.save(), s.save());
        assert_eq!(reopened.get("name"), Some("lemon".to_string()));
    }
}

#[test]
fn enumerated_keys_are_distinct() {
    let mut s = Storage::open(&[]);
    s.set("x", "1");
    s.set("y", "2");
    s.set("x", "3");
    assert_eq!(s.len(), 2);
    let keys: Vec<String> = (0..s.len()).map(|i| s.key(i).unwrap()).collect();
    assert_eq!(keys, vec!["x".to_string(), "y".to_string()]);
    assert_eq!(s.key(2), None);
    assert_eq!(s.remove("absent"), s.save());
    assert_eq!(s.len(), 2);
}
