use cyberpunk::normalize::{escape, normalize, SafeCharsType};
use std::collections::HashSet;

#[test]
fn test_default_safe_chars() {
    let safe_chars = SafeCharsType::Default;

    assert!(!safe_chars.should_escape(b'a'));
    assert!(!safe_chars.should_escape(b'Z'));
    assert!(!safe_chars.should_escape(b'0'));
    assert!(!safe_chars.should_escape(b'9'));

    assert!(!safe_chars.should_escape(b'/'));
    assert!(!safe_chars.should_escape(b'-'));
    assert!(!safe_chars.should_escape(b'_'));
    assert!(!safe_chars.should_escape(b'.'));
    assert!(!safe_chars.should_escape(b'~'));

    assert!(safe_chars.should_escape(b' '));
    assert!(safe_chars.should_escape(b'!'));
    assert!(safe_chars.should_escape(b'@'));
    assert!(safe_chars.should_escape(b'#'));
    assert!(safe_chars.should_escape(b'$'));
}

#[test]
fn test_custom_safe_chars() {
    let mut set = HashSet::new();
    set.insert(b'!');
    set.insert(b'*');
    let safe_chars = SafeCharsType::Custom(set);

    assert!(!safe_chars.should_escape(b'a'));
    assert!(!safe_chars.should_escape(b'/'));
    assert!(!safe_chars.should_escape(b'-'));

    assert!(!safe_chars.should_escape(b'!'));
    assert!(!safe_chars.should_escape(b'*'));

    assert!(safe_chars.should_escape(b' '));
    assert!(safe_chars.should_escape(b'@'));
    assert!(safe_chars.should_escape(b'#'));
}

#[test]
fn test_noop_safe_chars() {
    let safe_chars = SafeCharsType::Noop;

    assert!(!safe_chars.should_escape(b'a'));
    assert!(!safe_chars.should_escape(b' '));
    assert!(!safe_chars.should_escape(b'!'));
    assert!(!safe_chars.should_escape(b'@'));
}

#[test]
fn test_safe_chars_from_str() {
    let safe_chars: SafeCharsType = "".into();
    assert_eq!(safe_chars, SafeCharsType::Default);

    let safe_chars: SafeCharsType = "--".into();
    assert_eq!(safe_chars, SafeCharsType::Noop);

    let safe_chars: SafeCharsType = "!*".into();
    let mut expected = HashSet::new();
    expected.insert(b'!');
    expected.insert(b'*');
    assert_eq!(safe_chars, SafeCharsType::Custom(expected));
}

#[test]
fn test_escape_function() {
    let result = escape("hello world", |c| c == b' ');
    assert_eq!(result, "hello+world");

    let result = escape("hello world", |c| {
        c == b'a' || c == b'e' || c == b'i' || c == b'o' || c == b'u'
    });
    assert_eq!(result, "h%65ll%6F w%6Frld");

    let result = escape("hello world", |_| false);
    assert_eq!(result, "hello world");

    let result = escape("ab", |_| true);
    assert_eq!(result, "%61%62");
}

#[test]
fn test_normalize() {
    let result = normalize("hello world", &SafeCharsType::Default);
    assert_eq!(result, "hello+world");

    let mut set = HashSet::new();
    set.insert(b' ');
    let result = normalize("hello world", &SafeCharsType::Custom(set));
    assert_eq!(result, "hello world");

    let result = normalize("hello world!@#", &SafeCharsType::Noop);
    assert_eq!(result, "hello world!@#");

    let result = normalize("/hello/world/", &SafeCharsType::Default);
    assert_eq!(result, "hello/world");

    let result = normalize("hello\r\nworld", &SafeCharsType::Default);
    assert_eq!(result, "helloworld");

    let result = normalize("hello\nworld", &SafeCharsType::Default);
    assert_eq!(result, "helloworld");

    let result = normalize("hello\rworld", &SafeCharsType::Default);
    assert_eq!(result, "helloworld");

    let result = normalize("hello\u{000B}world", &SafeCharsType::Default);
    assert_eq!(result, "helloworld");

    let result = normalize("hello\u{2028}world", &SafeCharsType::Default);
    assert_eq!(result, "helloworld");
}

#[test]
fn normalize_trims_a_slashed_key() {
    assert_eq!(normalize("/a/b/", &SafeCharsType::Default), "a/b");
    assert_eq!(normalize("///", &SafeCharsType::Default), "");
    assert_eq!(normalize("", &SafeCharsType::Default), "");
    assert_eq!(normalize("//a//b//", &SafeCharsType::Noop), "a//b");
}

#[test]
fn normalize_removes_every_line_break() {
    let key = "a\rb\nc\u{000B}d\u{000C}e\u{0085}f\u{2028}g\u{2029}h";
    for mode in [SafeCharsType::Default, SafeCharsType::Noop] {
        let out = normalize(key, &mode);
        assert_eq!(out, "abcdefgh");
    }
    // A character whose bytes end in 0x85 is no line break and is kept whole.
    assert_eq!(normalize("\u{0145}", &SafeCharsType::Noop), "\u{0145}");
}

#[test]
fn normalize_escapes_bytes_in_upper_case_hex() {
    assert_eq!(normalize("a%b", &SafeCharsType::Default), "a%25b");
    assert_eq!(normalize("a+b", &SafeCharsType::Default), "a%2Bb");
    assert_eq!(normalize("caf\u{e9}", &SafeCharsType::Default), "caf%C3%A9");
    assert_eq!(normalize("\u{20ac}", &SafeCharsType::Default), "%E2%82%AC");
    assert_eq!(normalize("\u{1F600}", &SafeCharsType::Default), "%F0%9F%98%80");
    assert_eq!(normalize("caf\u{e9}", &SafeCharsType::Noop), "caf\u{e9}");
    assert_eq!(normalize("my audio!@#.mp3", &SafeCharsType::Default), "my+audio%21%40%23.mp3");
}

#[test]
fn normalize_is_idempotent_where_escapes_are_safe() {
    // Nothing is escaped.
    let once = normalize("/dir/song-1_a.b~c/", &SafeCharsType::Default);
    assert_eq!(normalize(&once, &SafeCharsType::Default), once);
    // Nothing is ever escaped under Noop.
    let once = normalize("/a b%c\n/", &SafeCharsType::Noop);
    assert_eq!(normalize(&once, &SafeCharsType::Noop), once);
    // The signs of escaping are themselves safe.
    let mode: SafeCharsType = "%+".into();
    let once = normalize("a b!c", &mode);
    assert_eq!(once, "a+b%21c");
    assert_eq!(normalize(&once, &mode), once);
    // Under Default they are not, and the law does not hold.
    let once = normalize("a b", &SafeCharsType::Default);
    assert_eq!(once, "a+b");
    assert_eq!(normalize(&once, &SafeCharsType::Default), "a%2Bb");
}

#[test]
fn modes_are_cloned_and_defaulted() {
    assert_eq!(SafeCharsType::default(), SafeCharsType::Default);
    let mode: SafeCharsType = "!*".to_string().into();
    assert_eq!(mode.clone(), mode);
    assert_eq!(SafeCharsType::Noop.clone(), SafeCharsType::Noop);
    assert_eq!(SafeCharsType::from_text("--"), SafeCharsType::Noop);
}
