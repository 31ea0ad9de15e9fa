use cyberpunk::decimal::Decimal;
use cyberpunk::metadata::{extract_metadata, ProbeFormat, ProbeReport, ProbeStream};

fn text(s: &str) -> Option<String> {
    Some(s.to_string())
}

fn tag(k: &str, v: Option<&str>) -> (String, Option<String>) {
    (k.to_string(), v.map(|s| s.to_string()))
}

#[test]
fn metadata_comes_from_the_container_and_the_first_audio_stream() {
    let report = ProbeReport {
        format: Some(ProbeFormat {
            format_name: text("mp3"),
            duration: text("12.345000"),
            bit_rate: text("128000"),
            size: text("197520"),
            tags: vec![tag("title", Some("T")), tag("artist", Some("A")), tag("n", None)],
        }),
        streams: vec![
            ProbeStream {
                codec_type: text("video"),
                sample_rate: text("1"),
                channels: Some(9),
                codec_name: text("mjpeg"),
                tags: vec![tag("title", Some("cover"))],
            },
            ProbeStream {
                codec_type: text("audio"),
                sample_rate: text("44100"),
                channels: Some(2),
                codec_name: text("mp3"),
                tags: vec![tag("artist", Some("B")), tag("encoder", Some("Lavf"))],
            },
            ProbeStream {
                codec_type: text("audio"),
                sample_rate: text("8000"),
                channels: Some(1),
                codec_name: text("pcm"),
                tags: vec![tag("title", Some("second"))],
            },
        ],
    };
    let m = extract_metadata(&report).unwrap();
    assert_eq!(m.format, "mp3");
    assert_eq!(m.duration, Some(Decimal::from_millionths(12_345_000)));
    assert_eq!(m.bit_rate, Some(128000));
    assert_eq!(m.size, Some(197520));
    assert_eq!(m.sample_rate, Some(44100));
    assert_eq!(m.channels, Some(2));
    assert_eq!(m.codec, text("mp3"));
    assert_eq!(m.tags.len(), 3);
    assert_eq!(m.tags.get("title").unwrap(), "T");
    assert_eq!(m.tags.get("artist").unwrap(), "B");
    assert_eq!(m.tags.get("encoder").unwrap(), "Lavf");
}

#[test]
fn missing_parts_are_unknown_or_absent() {
    let report = ProbeReport {
        format: Some(ProbeFormat {
            format_name: None,
            duration: text("N/A"),
            bit_rate: None,
            size: text("12x"),
            tags: vec![],
        }),
        streams: vec![ProbeStream {
            codec_type: text("Audio"),
            sample_rate: text("44100"),
            channels: Some(2),
            codec_name: text("mp3"),
            tags: vec![],
        }],
    };
    let m = extract_metadata(&report).unwrap();
    assert_eq!(m.format, "unknown");
    assert_eq!(m.duration, None);
    assert_eq!(m.bit_rate, None);
    assert_eq!(m.size, None);
    assert_eq!(m.sample_rate, None);
    assert_eq!(m.channels, None);
    assert_eq!(m.codec, None);
    assert!(m.tags.is_empty());
}

#[test]
fn a_report_without_format_is_refused() {
    let report = ProbeReport { format: None, streams: vec![] };
    assert_eq!(
        extract_metadata(&report).err(),
        Some("No format information found".to_string())
    );
}
