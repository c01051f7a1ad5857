use mintick_nft::ids::{
    id_is_event, id_is_object, item_id_string, series_id_of_item, series_id_string, SeriesKind,
};
use mintick_nft::text::{decimal_string, find_text, prefix_before};

#[test]
fn decimal_string_renders_numbers() {
    assert_eq!(decimal_string(0), "0");
    assert_eq!(decimal_string(7), "7");
    assert_eq!(decimal_string(10), "10");
    assert_eq!(decimal_string(1709), "1709");
    assert_eq!(decimal_string(u128::MAX), "340282366920938463463374607431768211455");
}

#[test]
fn prefix_before_splits_at_first_delimiter() {
    assert_eq!(prefix_before(&"1|5:3".to_string(), '|'), "1");
    assert_eq!(prefix_before(&"1|5:3".to_string(), ':'), "1|5");
    assert_eq!(prefix_before(&"a:b:c".to_string(), ':'), "a");
    assert_eq!(prefix_before(&"nodelimiter".to_string(), ':'), "nodelimiter");
    assert_eq!(prefix_before(&":x".to_string(), ':'), "");
    assert_eq!(prefix_before(&"".to_string(), ':'), "");
}

#[test]
fn series_identifiers_have_kind_and_sequence() {
    assert_eq!(series_id_string(SeriesKind::Event, 1), "1|1");
    assert_eq!(series_id_string(SeriesKind::Companion, 12), "2|12");
    assert_eq!(series_id_string(SeriesKind::Object, 305), "3|305");
}

#[test]
fn item_identifiers_follow_the_wire_format() {
    assert_eq!(item_id_string(&"1|5".to_string(), 1), "1|5:1");
    assert_eq!(item_id_string(&"2|7".to_string(), 42), "2|7:42");
    assert_eq!(series_id_of_item(&"2|7:42".to_string()), "2|7");
}

#[test]
fn kinds_are_read_from_the_tag() {
    assert!(id_is_event(&"1|5".to_string()));
    assert!(id_is_event(&"1|abc".to_string()));
    assert!(id_is_event(&"1".to_string()));
    assert!(!id_is_event(&"2|5".to_string()));
    assert!(!id_is_event(&"11|5".to_string()));
    assert!(!id_is_event(&"".to_string()));
    assert!(id_is_object(&"2|5:1".to_string()));
    assert!(id_is_object(&"3|5:1".to_string()));
    assert!(!id_is_object(&"1|5:1".to_string()));
}

#[test]
fn find_text_gives_first_position() {
    let list = vec!["a".to_string(), "b".to_string(), "a".to_string()];
    assert_eq!(find_text(&list, &"a".to_string()), Some(0));
    assert_eq!(find_text(&list, &"b".to_string()), Some(1));
    assert_eq!(find_text(&list, &"c".to_string()), None);
}
