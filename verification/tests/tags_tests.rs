use cyberpunk::strmap::StringMap;
use cyberpunk::tags::{compose_tags, create_tags, valid_tag_name, TagError, MAX_TAG_VALUE_LENGTH};

#[test]
fn test_create_tags_with_valid_tags() {
    let mut custom_tags = StringMap::new();
    custom_tags.insert("artist".to_string(), "Test Artist".to_string());
    custom_tags.insert("album".to_string(), "Test Album".to_string());

    let result = create_tags(&custom_tags).unwrap();

    assert!(result.contains_key("processor"));
    assert!(result.contains_key("timestamp"));
    assert!(result.contains_key("host"));
    assert!(result.contains_key("version"));

    assert_eq!(result.get("artist").unwrap(), "Test Artist");
    assert_eq!(result.get("album").unwrap(), "Test Album");
}

#[test]
fn test_create_tags_with_invalid_tag_name() {
    let mut custom_tags = StringMap::new();
    custom_tags.insert("invalid-tag".to_string(), "Value".to_string());

    let result = create_tags(&custom_tags);
    assert!(matches!(result, Err(TagError::InvalidTagName(_))));
}

#[test]
fn test_create_tags_with_long_value() {
    let mut custom_tags = StringMap::new();
    custom_tags.insert(
        "long_value".to_string(),
        "a".repeat(MAX_TAG_VALUE_LENGTH + 1),
    );

    let result = create_tags(&custom_tags);
    assert!(matches!(result, Err(TagError::InvalidTagValue { .. })));
}

#[test]
fn test_create_tags_empty_custom_tags() {
    let custom_tags = StringMap::new();
    let result = create_tags(&custom_tags).unwrap();

    assert_eq!(result.len(), 4);
    assert!(result.contains_key("processor"));
    assert!(result.contains_key("timestamp"));
    assert!(result.contains_key("host"));
    assert!(result.contains_key("version"));
}

#[test]
fn composed_tags_are_exact() {
    let mut custom = StringMap::new();
    custom.insert("artist".to_string(), "A".to_string());
    custom.insert("host".to_string(), "mine".to_string());
    let tags = compose_tags(&custom, "2024-01-01T00:00:00+00:00", "box").unwrap();
    assert_eq!(tags.len(), 5);
    assert_eq!(tags.key_at(0), "processor");
    assert_eq!(tags.value_at(0), "Cyberpunk");
    assert_eq!(tags.key_at(1), "timestamp");
    assert_eq!(tags.value_at(1), "2024-01-01T00:00:00+00:00");
    assert_eq!(tags.key_at(2), "host");
    assert_eq!(tags.value_at(2), "mine");
    assert_eq!(tags.key_at(3), "version");
    assert_eq!(tags.value_at(3), "0.1.0");
    assert_eq!(tags.key_at(4), "artist");
    assert_eq!(tags.value_at(4), "A");
}

#[test]
fn the_first_invalid_tag_is_reported() {
    let mut custom = StringMap::new();
    custom.insert("fine".to_string(), "x".to_string());
    custom.insert("too_long".to_string(), "b".repeat(257));
    custom.insert("bad name".to_string(), "y".to_string());
    match compose_tags(&custom, "t", "h") {
        Err(TagError::InvalidTagValue { name, value }) => {
            assert_eq!(name, "too_long");
            assert_eq!(value.len(), 257);
        }
        _ => panic!("the long value comes first"),
    }
    let mut custom = StringMap::new();
    custom.insert("bad name".to_string(), "c".repeat(300));
    match compose_tags(&custom, "t", "h") {
        Err(TagError::InvalidTagName(msg)) => assert_eq!(msg, "Invalid tag name: bad name"),
        _ => panic!("the name is checked before the value"),
    }
    let mut custom = StringMap::new();
    custom.insert("edge".to_string(), "d".repeat(256));
    assert!(compose_tags(&custom, "t", "h").is_ok());
    let mut custom = StringMap::new();
    custom.insert("wide".to_string(), "\u{e9}".repeat(129));
    assert!(matches!(
        compose_tags(&custom, "t", "h"),
        Err(TagError::InvalidTagValue { .. })
    ));
}

#[test]
fn tag_names_are_ascii_words() {
    assert!(valid_tag_name("artist"));
    assert!(valid_tag_name("Track_01"));
    assert!(valid_tag_name("_"));
    assert!(!valid_tag_name(""));
    assert!(!valid_tag_name("invalid-tag"));
    assert!(!valid_tag_name("caf\u{e9}"));
    assert!(!valid_tag_name("a b"));
}
