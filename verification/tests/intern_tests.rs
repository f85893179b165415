use xlsxlite::shared_string::SharedStrings;

#[test]
fn interning_is_idempotent() {
    let mut table = SharedStrings::new();
    let mut first = String::from("X");
    let id1 = table.add_string(&mut first);
    let mut second = String::from("X");
    let id2 = table.add_string(&mut second);
    assert_eq!(id1, id2);
    assert_eq!(table.total_count(), 2);
    assert_eq!(table.unique_count(), 1);
}

#[test]
fn interning_rewrites_the_value_to_the_id() {
    let mut table = SharedStrings::new();
    let mut text = String::from("hello");
    let id = table.add_string(&mut text);
    assert_eq!(id, 1);
    assert_eq!(text, "1");
    let mut other = String::from("world");
    let id2 = table.add_string(&mut other);
    assert_eq!(id2, 2);
    assert_eq!(other, "2");
    let mut again = String::from("hello");
    let id3 = table.add_string(&mut again);
    assert_eq!(id3, 1);
    assert_eq!(again, "1");
    assert_eq!(table.total_count(), 3);
    assert_eq!(table.unique_count(), 2);
}

#[test]
fn shared_string_part_lists_texts_in_id_order() {
    let mut table = SharedStrings::new();
    let mut a = String::from("bravo");
    let mut b = String::from("alpha");
    table.add_string(&mut a);
    table.add_string(&mut b);
    let xml = table.to_xml();
    let bravo = xml.find("bravo").unwrap();
    let alpha = xml.find("alpha").unwrap();
    assert!(bravo < alpha);
    assert!(xml.contains("count=\"2\""));
    assert!(xml.contains("uniqueCount=\"2\""));
}
