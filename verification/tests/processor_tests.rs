use cyberpunk::blob::{AudioBuffer, AudioFormat};
use cyberpunk::config::ProcessorSettings;
use cyberpunk::decimal::Decimal;
use cyberpunk::endpoint::{Endpoint, Transformation};
use cyberpunk::params::Params;
use cyberpunk::processor::{merge_tags, probe_arguments, process_audio, Processor};
use cyberpunk::strmap::StringMap;

#[test]
fn the_argument_vector_is_assembled_in_order() {
    let input = AudioBuffer::from_bytes_with_format(vec![1], AudioFormat::Flac);
    let mut request_tags = StringMap::new();
    request_tags.insert("artist".to_string(), "Me".to_string());
    request_tags.insert("host".to_string(), "theirs".to_string());
    let params = Params {
        key: "x".to_string(),
        format: Some(AudioFormat::Wav),
        volume: Decimal::parse("0.5"),
        tags: Some(request_tags),
        ..Default::default()
    };
    let mut process_tags = StringMap::new();
    process_tags.insert("processor".to_string(), "Cyberpunk".to_string());
    process_tags.insert("host".to_string(), "ours".to_string());

    let job = process_audio(&input, &params, "/tmp/w", &process_tags);

    assert_eq!(job.input_path, "/tmp/w/in.flac");
    assert_eq!(job.output_path, "/tmp/w/out.wav");
    assert_eq!(job.output_format, AudioFormat::Wav);
    assert_eq!(
        job.arguments,
        vec![
            "-i",
            "/tmp/w/in.flac",
            "-y",
            "-metadata",
            "processor=Cyberpunk",
            "-metadata",
            "host=theirs",
            "-metadata",
            "artist=Me",
            "-f",
            "wav",
            "-filter:a",
            "volume=0.50",
            "/tmp/w/out.wav"
        ]
    );
}

#[test]
fn the_output_defaults_to_mp3() {
    let input = AudioBuffer::from_bytes(vec![]);
    let none = Params { key: "x".to_string(), ..Default::default() };
    let job = process_audio(&input, &none, "d", &StringMap::new());
    assert_eq!(job.input_path, "d/in.");
    assert_eq!(job.output_path, "d/out.mp3");
    assert_eq!(job.arguments, vec!["-i", "d/in.", "-y", "d/out.mp3"]);
    let unknown = Params {
        key: "x".to_string(),
        format: Some(AudioFormat::Unknown),
        ..Default::default()
    };
    let job = process_audio(&input, &unknown, "d", &StringMap::new());
    assert_eq!(job.output_path, "d/out.mp3");
    assert_eq!(job.output_format, AudioFormat::Mp3);
}

#[test]
fn a_run_ends_in_a_buffer_or_a_failure() {
    let input = AudioBuffer::from_bytes(vec![]);
    let params = Params {
        key: "x".to_string(),
        format: Some(AudioFormat::Ogg),
        ..Default::default()
    };
    let job = process_audio(&input, &params, "d", &StringMap::new());
    let done = job.finish(true, Some(vec![1, 2])).unwrap();
    assert_eq!(done.format(), AudioFormat::Ogg);
    assert_eq!(done.as_slice(), &[1, 2]);
    assert_eq!(job.finish(false, Some(vec![1])).err(), Some("FFmpeg failed".to_string()));
    assert_eq!(job.finish(false, None).err(), Some("FFmpeg failed".to_string()));
    assert_eq!(
        job.finish(true, None).err(),
        Some("FFmpeg produced no output".to_string())
    );
}

#[test]
fn the_limit_is_the_setting_or_the_cpu_count() {
    let mut config = ProcessorSettings::default();
    assert_eq!(
        Processor::with_cpus(&config, 8, StringMap::new()).unwrap().max_concurrent,
        8
    );
    assert_eq!(
        Processor::with_cpus(&config, 0, StringMap::new()).err(),
        Some("Concurrency should be non-zero".to_string())
    );
    config.concurrency = Some(3);
    assert_eq!(
        Processor::with_cpus(&config, 8, StringMap::new()).unwrap().max_concurrent,
        3
    );
    assert_eq!(Processor::new(&config, StringMap::new()).unwrap().max_concurrent, 3);
    config.concurrency = Some(0);
    assert!(Processor::with_cpus(&config, 8, StringMap::new()).is_err());
    assert!(Processor::new(&config, StringMap::new()).is_err());
    config.concurrency = None;
    if let Ok(p) = Processor::new(&config, StringMap::new()) {
        assert!(p.max_concurrent > 0);
    }
}

#[test]
fn request_tags_win_over_process_tags() {
    let mut ours = StringMap::new();
    ours.insert("a".to_string(), "1".to_string());
    ours.insert("b".to_string(), "2".to_string());
    let mut theirs = StringMap::new();
    theirs.insert("b".to_string(), "3".to_string());
    theirs.insert("c".to_string(), "4".to_string());
    let merged = merge_tags(&ours, &Some(theirs));
    assert_eq!(merged.len(), 3);
    assert_eq!(merged.get("a").unwrap(), "1");
    assert_eq!(merged.get("b").unwrap(), "3");
    assert_eq!(merged.get("c").unwrap(), "4");
    assert_eq!(merged.key_at(1), "b");
    assert_eq!(merge_tags(&ours, &None).len(), 2);
}

#[test]
fn the_probe_is_asked_for_json() {
    assert_eq!(
        probe_arguments("/tmp/input.mp3"),
        vec![
            "-v",
            "quiet",
            "-print_format",
            "json",
            "-show_format",
            "-show_streams",
            "/tmp/input.mp3"
        ]
    );
}

#[test]
fn concatenation_jobs() {
    let job = cyberpunk::endpoint::concat("a.mp3", "b.mp3");
    assert_eq!(job.merge_list, "file 'a.mp3'\nfile 'b.mp3'\n");
    assert_eq!(job.list_path, "./testdata/input.txt");
    assert_eq!(job.output, "concat.mp3");
    assert_eq!(
        job.arguments,
        vec![
            "-loglevel",
            "error",
            "-y",
            "-f",
            "concat",
            "-safe",
            "0",
            "-i",
            "testdata/input.txt",
            "-c",
            "copy",
            "./testdata/concat.mp3"
        ]
    );
    let empty = Endpoint::new();
    assert_eq!(empty.audio, "");
    assert!(empty.process().unwrap().is_empty());
    let endpoint = Endpoint {
        audio: "first.mp3",
        pipeline: vec![
            Transformation::Concat("second.mp3".to_string()),
            Transformation::Concat("third.mp3".to_string()),
        ],
    };
    let jobs = endpoint.process().unwrap();
    assert_eq!(jobs.len(), 2);
    assert_eq!(jobs[0].merge_list, "file 'first.mp3'\nfile 'second.mp3'\n");
    assert_eq!(jobs[1].merge_list, "file 'first.mp3'\nfile 'third.mp3'\n");
}
