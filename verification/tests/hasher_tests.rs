use cyberpunk::blob::AudioFormat;
use cyberpunk::decimal::Decimal;
use cyberpunk::hasher::{
    compute_hash, digest_result_storage_hasher, digest_storage_hasher,
    suffix_result_storage_hasher, verdict_result, verify_hash, AuthError, Verdict,
};
use cyberpunk::params::Params;

#[test]
fn test_compute_and_verify_hash() {
    let test_path = "my/test/path".to_string();
    let hash = compute_hash(&test_path).unwrap();
    verify_hash(&hash, &test_path).unwrap();
}

#[test]
fn test_verify_hash_with_invalid_input() {
    let test_path = "my/test/path".to_string();
    let hash = compute_hash(&test_path).unwrap();
    let result = verify_hash(&hash, "wrong/path");
    assert!(result.is_err());
    if let Err(e) = result {
        assert!(matches!(e, AuthError::InvalidCredentials(_)));
    }
}

#[test]
fn test_verify_hash_with_invalid_hash_format() {
    let result = verify_hash("not-a-valid-hash-format", "some/path");
    assert!(result.is_err());
}

#[test]
fn test_hash_consistency() {
    let test_path = "consistent/test/path".to_string();
    let hash1 = compute_hash(&test_path).unwrap();
    let hash2 = compute_hash(&test_path).unwrap();
    verify_hash(&hash1, &test_path).unwrap();
    verify_hash(&hash2, &test_path).unwrap();
}

#[test]
fn test_digest_result_storage_hasher() {
    let p = Params {
        key: "test.mp3".to_string(),
        format: Some(AudioFormat::Mp3),
        quality: Decimal::parse("0.5"),
        ..Default::default()
    };

    let result = digest_result_storage_hasher(&p);

    assert!(result.len() >= 36);
    assert_eq!(result.chars().nth(2).unwrap(), '/');
    assert_eq!(result.chars().nth(5).unwrap(), '/');
}

#[test]
fn test_suffix_result_storage_hasher() {
    let p = Params {
        key: "test.mp3".to_string(),
        format: Some(AudioFormat::Wav),
        sample_rate: Some(44100),
        ..Default::default()
    };

    let result = suffix_result_storage_hasher(&p);

    assert!(result.starts_with("test."));
    assert!(result.ends_with(".wav"));

    let parts: Vec<&str> = result.split('.').collect();
    assert_eq!(parts.len(), 3);
    assert_eq!(parts[0], "test");
    assert_eq!(parts[2], "wav");

    assert_eq!(parts[1].len(), 20);
    assert!(parts[1].chars().all(|c| c.is_ascii_hexdigit()));
}

#[test]
fn test_suffix_result_storage_hasher_with_format() {
    let p = Params {
        key: "example.mp3".to_string(),
        format: Some(AudioFormat::Ogg),
        quality: Decimal::parse("0.8"),
        ..Default::default()
    };

    let result = suffix_result_storage_hasher(&p);

    assert!(result.starts_with("example."));
    assert!(result.ends_with(".ogg"));

    let parts: Vec<&str> = result.split('.').collect();
    assert_eq!(parts.len(), 3);
    assert_eq!(parts[0], "example");
    assert_eq!(parts[2], "ogg");

    assert_eq!(parts[1].len(), 20);
    assert!(parts[1].chars().all(|c| c.is_ascii_hexdigit()));
}

#[test]
fn test_suffix_result_storage_hasher_with_filters() {
    let p = Params {
        key: "input.mp3".to_string(),
        format: Some(AudioFormat::Mp3),
        volume: Decimal::parse("1.5"),
        lowpass: Decimal::parse("1000.0"),
        ..Default::default()
    };

    let result = suffix_result_storage_hasher(&p);

    assert!(result.starts_with("input."));
    assert!(result.ends_with(".mp3"));

    let parts: Vec<&str> = result.split('.').collect();
    assert_eq!(parts.len(), 3);
    assert_eq!(parts[0], "input");
    assert_eq!(parts[2], "mp3");

    assert_eq!(parts[1].len(), 20);
    assert!(parts[1].chars().all(|c| c.is_ascii_hexdigit()));
}

#[test]
fn digest_path_of_foo_is_the_known_sha1() {
    // SHA-1("foo") = 0beec7b5ea3f0fdbc95d0dd47f3c5bc275da8a33
    assert_eq!(
        digest_storage_hasher("foo"),
        "0b/ee/c7b5ea3f0fdbc95d0dd47f3c5bc275da8a33"
    );
    // SHA-1("") = da39a3ee5e6b4b0d3255bfef95601890afd80709
    assert_eq!(
        digest_storage_hasher(""),
        "da/39/a3ee5e6b4b0d3255bfef95601890afd80709"
    );
}

#[test]
fn digest_result_has_the_shape_of_a_digest_path() {
    let p = Params {
        key: "a b/c.mp3".to_string(),
        codec: Some("libmp3lame".to_string()),
        ..Default::default()
    };
    let result = digest_result_storage_hasher(&p);
    assert_eq!(result.len(), 42);
    for (i, c) in result.chars().enumerate() {
        if i == 2 || i == 5 {
            assert_eq!(c, '/');
        } else {
            assert!(c.is_ascii_digit() || ('a'..='f').contains(&c));
        }
    }
    assert_eq!(result, digest_storage_hasher(&p.to_string()));
}

#[test]
fn suffix_result_of_a_known_record() {
    // canonical string "x.mp3?"; SHA-1 starts 0x... computed by the digest path
    let p = Params { key: "x.mp3".to_string(), ..Default::default() };
    let digest = digest_storage_hasher("x.mp3?").replace('/', "");
    let expected = format!("x.{}.mp3", &digest[..20]);
    assert_eq!(suffix_result_storage_hasher(&p), expected);
}

#[test]
fn suffix_result_strips_the_scheme_and_honours_directories() {
    let with_url = Params {
        key: "https://example.com/dir.d/song".to_string(),
        ..Default::default()
    };
    let digest = digest_storage_hasher(&with_url.to_string()).replace('/', "");
    assert_eq!(
        suffix_result_storage_hasher(&with_url),
        format!("example.com/dir.d/song.{}", &digest[..20])
    );

    let plain_http = Params {
        key: "http://example.com/song.flac".to_string(),
        format: Some(AudioFormat::Opus),
        ..Default::default()
    };
    let digest = digest_storage_hasher(&plain_http.to_string()).replace('/', "");
    assert_eq!(
        suffix_result_storage_hasher(&plain_http),
        format!("example.com/song.{}.opus", &digest[..20])
    );

    let no_suffix = Params { key: "song".to_string(), ..Default::default() };
    let digest = digest_storage_hasher("song?").replace('/', "");
    assert_eq!(
        suffix_result_storage_hasher(&no_suffix),
        format!("song.{}", &digest[..20])
    );
}

#[test]
fn equal_records_have_equal_fingerprints() {
    let make = || Params {
        key: "input.mp3".to_string(),
        format: Some(AudioFormat::Mp3),
        volume: Decimal::parse("1.5"),
        ..Default::default()
    };
    assert_eq!(
        suffix_result_storage_hasher(&make()),
        suffix_result_storage_hasher(&make())
    );
    assert_eq!(
        digest_result_storage_hasher(&make()),
        digest_result_storage_hasher(&make())
    );
}

#[test]
fn verdicts_map_to_results() {
    assert!(verdict_result(Verdict::Accepted).is_ok());
    match verdict_result(Verdict::Rejected) {
        Err(AuthError::InvalidCredentials(m)) => assert_eq!(m, "Invalid hash"),
        _ => panic!("a rejection must be invalid credentials"),
    }
    match verdict_result(Verdict::Malformed) {
        Err(AuthError::UnexpectedError(m)) => {
            assert_eq!(m, "Failed to parse hash in PHC string format.")
        }
        _ => panic!("a malformed signature must be an unexpected error"),
    }
    match verify_hash("not-a-valid-hash-format", "some/path") {
        Err(AuthError::UnexpectedError(_)) => {}
        _ => panic!("a malformed signature must be an unexpected error"),
    }
}

#[test]
fn signatures_are_argon2id_phc_strings() {
    let hash = compute_hash("a/path").unwrap();
    assert!(hash.starts_with("$argon2id$v=19$m=15000,t=2,p=1$"));
    assert_ne!(hash, compute_hash("a/path").unwrap());
}

#[test]
fn signatures_with_other_costs_are_refused_unhashed() {
    for text in [
        "$argon2id$v=19$m=19456,t=2,p=536870912$c29tZXNhbHQ$aGFzaGhhc2hoYXNo",
        "$argon2id$v=19$m=4294967295,t=2,p=1$c29tZXNhbHQ$aGFzaGhhc2hoYXNo",
        "$argon2i$v=19$m=15000,t=2,p=1$c29tZXNhbHQ$aGFzaGhhc2hoYXNo",
        "$argon2id$v=16$m=15000,t=2,p=1$c29tZXNhbHQ$aGFzaGhhc2hoYXNo",
        "$argon2id$v=19$m=15000,t=2,p=1",
        "",
    ] {
        match verify_hash(text, "some/path") {
            Err(AuthError::UnexpectedError(m)) => {
                assert_eq!(m, "Failed to parse hash in PHC string format.")
            }
            _ => panic!("a foreign signature must be refused as malformed"),
        }
    }
    // The head alone is right, the rest is not a salt and a hash.
    assert!(verify_hash("$argon2id$v=19$m=15000,t=2,p=1$", "some/path").is_err());
    assert!(verify_hash("$argon2id$v=19$m=15000,t=2,p=1$!$!", "some/path").is_err());
}

#[test]
fn fingerprints_do_not_depend_on_the_order_of_tags() {
    let with_tags = |pairs: &[(&str, &str)]| {
        let mut tags = cyberpunk::strmap::StringMap::new();
        for (k, v) in pairs {
            tags.insert(k.to_string(), v.to_string());
        }
        Params { key: "k.mp3".to_string(), tags: Some(tags), ..Default::default() }
    };
    let one = with_tags(&[("a", "1"), ("b", "2"), ("ab", "3")]);
    let other = with_tags(&[("b", "2"), ("ab", "3"), ("a", "1")]);
    assert_eq!(one.to_string(), "k.mp3?tag_a=1&tag_ab=3&tag_b=2");
    assert_eq!(other.to_string(), "k.mp3?tag_a=1&tag_ab=3&tag_b=2");
    assert_eq!(
        suffix_result_storage_hasher(&one),
        suffix_result_storage_hasher(&other)
    );
    assert_eq!(
        digest_result_storage_hasher(&one),
        digest_result_storage_hasher(&other)
    );
    let read_one = Params::from_str("/k.mp3?tag_a=1&tag_b=2").unwrap();
    let read_other = Params::from_str("/k.mp3?tag_b=2&tag_a=1").unwrap();
    assert_eq!(read_one.to_string(), read_other.to_string());
}
