use cyberpunk::blob::{AudioBuffer, AudioFormat};

#[test]
fn test_audio_buffer() {
    // MP3 test data
    let mp3_data = {
        let mut data = vec![0xFF, 0xFB];
        data.extend_from_slice(&[0; 1024]);
        data
    };

    let buffer = AudioBuffer::from_bytes(mp3_data);
    assert_eq!(buffer.format(), AudioFormat::Mp3);
    assert_eq!(buffer.mime_type(), "audio/mpeg");
    assert_eq!(buffer.len(), 1026);
    assert!(!buffer.is_empty());
}

#[test]
fn header_sniffing_follows_the_magic_table() {
    assert_eq!(AudioFormat::from_header(&[0xFF, 0xFB, 0x00]), AudioFormat::Mp3);
    assert_eq!(AudioFormat::from_header(b"RIFF...."), AudioFormat::Wav);
    assert_eq!(AudioFormat::from_header(b"fLaC"), AudioFormat::Flac);
    assert_eq!(AudioFormat::from_header(b"OggS data"), AudioFormat::Ogg);
    assert_eq!(AudioFormat::from_header(b"ftypM4A "), AudioFormat::M4a);
    assert_eq!(AudioFormat::from_header(b"OpusHead"), AudioFormat::Opus);
    assert_eq!(AudioFormat::from_header(b"ftypM4A"), AudioFormat::Unknown);
    assert_eq!(AudioFormat::from_header(&[0xFF]), AudioFormat::Unknown);
    assert_eq!(AudioFormat::from_header(&[]), AudioFormat::Unknown);
    assert_eq!(AudioFormat::from_header(b"RIFf"), AudioFormat::Unknown);
}

#[test]
fn extensions_and_mime_types() {
    assert_eq!(AudioFormat::Mp3.extension(), "mp3");
    assert_eq!(AudioFormat::Wav.extension(), "wav");
    assert_eq!(AudioFormat::Flac.extension(), "flac");
    assert_eq!(AudioFormat::Ogg.extension(), "ogg");
    assert_eq!(AudioFormat::M4a.extension(), "m4a");
    assert_eq!(AudioFormat::Opus.extension(), "opus");
    assert_eq!(AudioFormat::Unknown.extension(), "");
    assert_eq!(AudioFormat::Wav.mime_type(), "audio/wav");
    assert_eq!(AudioFormat::Flac.mime_type(), "audio/flac");
    assert_eq!(AudioFormat::Ogg.mime_type(), "audio/ogg");
    assert_eq!(AudioFormat::M4a.mime_type(), "audio/mp4");
    assert_eq!(AudioFormat::Opus.mime_type(), "audio/opus");
    assert_eq!(AudioFormat::Unknown.mime_type(), "application/octet-stream");
    assert_eq!(AudioFormat::Ogg.to_string(), "ogg");
}

#[test]
fn format_round_trips_through_its_text() {
    for f in [
        AudioFormat::Mp3,
        AudioFormat::Wav,
        AudioFormat::Flac,
        AudioFormat::Ogg,
        AudioFormat::M4a,
        AudioFormat::Opus,
        AudioFormat::Unknown,
    ] {
        assert_eq!(AudioFormat::from_str(&f.to_string()), Ok(f));
    }
}

#[test]
fn format_names_ignore_letter_case() {
    assert_eq!(AudioFormat::from_str("MP3"), Ok(AudioFormat::Mp3));
    assert_eq!(AudioFormat::from_str("Flac"), Ok(AudioFormat::Flac));
    assert_eq!(AudioFormat::from_str(""), Ok(AudioFormat::Unknown));
    assert_eq!(
        AudioFormat::from_str("aiff"),
        Err("Unknown audio format: aiff".to_string())
    );
    assert_eq!(AudioFormat::from_extension("WAV"), AudioFormat::Wav);
    assert_eq!(AudioFormat::from_extension("txt"), AudioFormat::Unknown);
    assert_eq!(AudioFormat::from_extension(""), AudioFormat::Unknown);
}

#[test]
fn file_buffers_fall_back_to_the_suffix() {
    let sniffed = AudioBuffer::from_file("song.wav", b"OggS....".to_vec());
    assert_eq!(sniffed.format(), AudioFormat::Ogg);
    let by_suffix = AudioBuffer::from_file("/data/song.FLAC", vec![1, 2, 3]);
    assert_eq!(by_suffix.format(), AudioFormat::Flac);
    let none = AudioBuffer::from_file("/data/song", vec![1, 2, 3]);
    assert_eq!(none.format(), AudioFormat::Unknown);
    let bare = AudioBuffer::from_file("mp3", vec![]);
    assert_eq!(bare.format(), AudioFormat::Unknown);
    assert!(bare.is_empty());
    let dotted = AudioBuffer::from_file(".mp3", vec![]);
    assert_eq!(dotted.format(), AudioFormat::Mp3);
    let trailing = AudioBuffer::from_file("song.", vec![9]);
    assert_eq!(trailing.format(), AudioFormat::Unknown);
    let in_directory = AudioBuffer::from_file("dir.wav/song", vec![9]);
    assert_eq!(in_directory.format(), AudioFormat::Unknown);
}

#[test]
fn buffers_keep_their_bytes() {
    let buffer = AudioBuffer::from_bytes_with_format(vec![9, 8, 7], AudioFormat::Opus);
    assert_eq!(buffer.format(), AudioFormat::Opus);
    assert_eq!(buffer.extension(), "opus");
    assert_eq!(buffer.as_slice(), &[9, 8, 7]);
    assert_eq!(buffer.len(), 3);
    let bytes = buffer.into_bytes();
    assert_eq!(bytes.as_ref(), &[9, 8, 7]);
}
