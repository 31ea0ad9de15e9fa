use cyberpunk::blob::{AudioBuffer, AudioFormat};
use cyberpunk::hasher::{compute_hash, suffix_result_storage_hasher};
use cyberpunk::metadata::{ProbeFormat, ProbeReport};
use cyberpunk::params::Params;
use cyberpunk::pipeline::{
    authorize, cache_key, cached_response, content_type, meta_path, signature_segment, Action,
    Event, Pipeline, Stage,
};
use cyberpunk::processor::{Admission, AdmissionEvent};

fn begin(path: &str, query: &str) -> (Pipeline, Action) {
    Pipeline::start(path, query, "GET", None).expect("the request is accepted")
}

fn body_text(action: &Action) -> (u16, String) {
    match action {
        Action::Respond { response, .. } => (
            response.status,
            String::from_utf8(response.body.clone()).unwrap(),
        ),
        _ => panic!("a response was expected"),
    }
}

#[test]
fn cache_keys_name_route_method_and_fingerprint() {
    assert_eq!(cache_key(false, "GET", "a.0123.mp3"), "req_cache:GET:a.0123.mp3");
    assert_eq!(cache_key(true, "HEAD", "h"), "meta_cache:HEAD:h");
    assert!(meta_path("/meta/unsafe/a.mp3"));
    assert!(!meta_path("/unsafe/meta"));
}

#[test]
fn the_signature_is_the_first_segment() {
    assert_eq!(signature_segment("/unsafe/a/b.mp3"), Some("unsafe".to_string()));
    assert_eq!(signature_segment("/meta/abc/b.mp3"), Some("abc".to_string()));
    assert_eq!(signature_segment("/meta/meta/x"), Some("x".to_string()));
    assert_eq!(signature_segment("/sig"), Some("sig".to_string()));
    assert_eq!(signature_segment("/"), Some("".to_string()));
    assert_eq!(signature_segment("sig/a"), None);
    assert_eq!(signature_segment(""), None);
    assert_eq!(signature_segment("/meta"), None);
}

#[test]
fn unsafe_paths_pass_and_signed_paths_are_verified() {
    assert_eq!(authorize("/unsafe/a.mp3", "a.mp3?"), Ok(()));
    assert_eq!(
        authorize("nothing", "a.mp3?"),
        Err((400, "Failed to parse URI hash".to_string()))
    );
    // A well-formed signature that names other costs is not hashed against.
    assert_eq!(
        authorize(
            "/$argon2id$v=19$m=19456,t=2,p=536870912$c29tZXNhbHQ$aGFzaGhhc2hoYXNo/a.mp3",
            "a.mp3?"
        ),
        Err((
            400,
            "Failed to verify hash: Failed to parse hash in PHC string format.".to_string()
        ))
    );
    assert_eq!(
        authorize("/bogus/a.mp3", "a.mp3?"),
        Err((
            400,
            "Failed to verify hash: Failed to parse hash in PHC string format.".to_string()
        ))
    );
    let signature = compute_hash("a.mp3?format=wav").unwrap();
    // A PHC string holds `/`-free segments only where its base64 does; the
    // check works on the first segment, so sign until one fits.
    let mut signature = signature;
    while signature.contains('/') {
        signature = compute_hash("a.mp3?format=wav").unwrap();
    }
    let path = format!("/{}/a.mp3", signature);
    assert_eq!(authorize(&path, "a.mp3?format=wav"), Ok(()));
    assert_eq!(
        authorize(&path, "a.mp3?format=ogg"),
        Err((400, "Failed to verify hash: Invalid hash".to_string()))
    );
}

#[test]
fn a_request_starts_with_the_response_cache() {
    let (pipeline, action) = begin("/unsafe/audio/test.mp3", "format=wav&volume=0.8");
    assert_eq!(pipeline.stage, Stage::Cache);
    assert!(!pipeline.meta);
    assert_eq!(pipeline.params.key, "test.mp3");
    assert_eq!(pipeline.params.format, Some(AudioFormat::Wav));
    let expected = suffix_result_storage_hasher(&Params {
        key: "test.mp3".to_string(),
        format: Some(AudioFormat::Wav),
        volume: cyberpunk::decimal::Decimal::parse("0.8"),
        ..Default::default()
    });
    assert_eq!(pipeline.result_key, expected);
    assert_eq!(pipeline.cache_key, format!("req_cache:GET:{}", expected));
    match action {
        Action::LookupCache { key } => assert_eq!(key, pipeline.cache_key),
        _ => panic!("the cache is asked first"),
    }
    let (meta, _) = begin("/meta/unsafe/test.mp3", "");
    assert!(meta.meta);
    assert!(meta.cache_key.starts_with("meta_cache:GET:test."));
}

#[test]
fn bad_requests_are_refused_at_the_start() {
    let r = Pipeline::start("/unsafe/", "", "GET", None).err().unwrap();
    assert_eq!(r.status, 400);
    assert_eq!(r.body, b"Failed to parse params: Invalid audio path".to_vec());
    let r = Pipeline::start("/bogus/a.mp3", "", "GET", None).err().unwrap();
    assert_eq!(r.status, 400);
    assert_eq!(
        r.body,
        b"Failed to verify hash: Failed to parse hash in PHC string format.".to_vec()
    );
    let r = Pipeline::start("a.mp3", "", "GET", None).err().unwrap();
    assert_eq!(r.status, 400);
    assert_eq!(r.body, b"Failed to parse URI hash".to_vec());
}

#[test]
fn a_cache_hit_is_served_with_ranges() {
    let entry: Vec<u8> = vec![7; 1000];
    let (pipeline, _) = Pipeline::start(
        "/unsafe/test.mp3",
        "",
        "GET",
        Some("bytes=0-99".to_string()),
    )
    .unwrap();
    let (pipeline, action) = pipeline.next(Event::CacheHit(entry));
    assert_eq!(pipeline.stage, Stage::Done);
    match action {
        Action::Respond { response, cache } => {
            assert!(cache.is_none());
            assert_eq!(response.status, 206);
            assert_eq!(response.header("content-length").unwrap(), "100");
            assert_eq!(response.header("content-range").unwrap(), "bytes 0-99/1000");
            assert_eq!(response.header("content-type").unwrap(), "audio/mpeg");
            assert_eq!(response.body.len(), 100);
        }
        _ => panic!("a response was expected"),
    }
}

#[test]
fn content_types_are_sniffed_or_defaulted() {
    assert_eq!(content_type(None), "audio/mpeg");
    assert_eq!(content_type(Some("audio/x-wav".to_string())), "audio/x-wav");
    let unknown = cached_response(vec![1, 2, 3, 4], None);
    assert_eq!(unknown.header("content-type").unwrap(), "audio/mpeg");
    let flac = cached_response(b"fLaC\0\0\0\x22".to_vec(), None);
    assert_eq!(flac.header("content-type").unwrap(), "audio/x-flac");
    assert_eq!(flac.status, 200);
}

#[test]
fn a_stored_result_is_served_and_cached() {
    let (pipeline, _) = begin("/unsafe/test.mp3", "format=ogg");
    let (pipeline, action) = pipeline.next(Event::CacheMiss);
    assert_eq!(pipeline.stage, Stage::Stored);
    match &action {
        Action::LookupResult { key } => assert_eq!(key, &pipeline.result_key),
        _ => panic!("the result storage is asked second"),
    }
    let blob = AudioBuffer::from_bytes(b"OggS-data".to_vec());
    let key = pipeline.cache_key.clone();
    let (pipeline, action) = pipeline.next(Event::ResultHit(blob));
    assert_eq!(pipeline.stage, Stage::Done);
    match action {
        Action::Respond { response, cache } => {
            assert_eq!(response.status, 200);
            assert_eq!(response.header("content-type").unwrap(), "audio/ogg");
            assert_eq!(response.body, b"OggS-data".to_vec());
            let write = cache.unwrap();
            assert_eq!(write.key, key);
            assert_eq!(write.ttl, 3600);
        }
        _ => panic!("a response was expected"),
    }
}

#[test]
fn a_miss_fetches_processes_persists_and_serves() {
    let (pipeline, _) = begin("/unsafe/test.mp3", "format=wav");
    let (pipeline, _) = pipeline.next(Event::CacheMiss);
    let (pipeline, action) = pipeline.next(Event::ResultMiss);
    assert_eq!(pipeline.stage, Stage::Source);
    match &action {
        Action::LoadSource { key } => assert_eq!(key, "test.mp3"),
        _ => panic!("the source is loaded from storage"),
    }
    let source = AudioBuffer::from_bytes(vec![0xFF, 0xFB, 0]);
    let (pipeline, action) = pipeline.next(Event::SourceLoaded(source));
    assert_eq!(pipeline.stage, Stage::Process);
    match &action {
        Action::Process { input } => assert_eq!(input.format(), AudioFormat::Mp3),
        _ => panic!("the transcoder runs next"),
    }
    let done = AudioBuffer::from_bytes_with_format(b"RIFFdata".to_vec(), AudioFormat::Wav);
    let (pipeline, action) = pipeline.next(Event::Processed(done));
    assert_eq!(pipeline.stage, Stage::Persist);
    let blob = match action {
        Action::StoreResult { key, blob } => {
            assert_eq!(key, pipeline.result_key);
            blob
        }
        _ => panic!("the result is persisted"),
    };
    let (pipeline, action) = pipeline.next(Event::Persisted(blob));
    assert_eq!(pipeline.stage, Stage::Done);
    match action {
        Action::Respond { response, cache } => {
            assert_eq!(response.status, 200);
            assert_eq!(response.header("content-type").unwrap(), "audio/wav");
            assert_eq!(response.body, b"RIFFdata".to_vec());
            assert_eq!(cache.unwrap().ttl, 3600);
        }
        _ => panic!("a response was expected"),
    }
}

#[test]
fn url_keys_are_fetched() {
    let params = Params {
        key: "https://example.com/a.mp3".to_string(),
        ..Default::default()
    };
    let pipeline = Pipeline {
        meta: false,
        result_key: suffix_result_storage_hasher(&params),
        params,
        cache_key: "k".to_string(),
        range: None,
        stage: Stage::Stored,
    };
    let (pipeline, action) = pipeline.next(Event::ResultMiss);
    match &action {
        Action::FetchUrl { url } => assert_eq!(url, "https://example.com/a.mp3"),
        _ => panic!("a URL is fetched"),
    }
    let (_, action) = pipeline.next(Event::SourceFetched(b"fLaC".to_vec()));
    match &action {
        Action::Process { input } => assert_eq!(input.format(), AudioFormat::Flac),
        _ => panic!("the transcoder runs next"),
    }
}

#[test]
fn failures_map_to_statuses() {
    let at = |stage: Stage| {
        let (mut p, _) = begin("/unsafe/test.mp3", "");
        p.stage = stage;
        p
    };
    let (_, a) = at(Stage::Source).next(Event::SourceMissing("gone".to_string()));
    assert_eq!(body_text(&a), (404, "Failed to fetch audio: gone".to_string()));
    let (_, a) = at(Stage::Source).next(Event::SourceBroken("reset".to_string()));
    assert_eq!(body_text(&a), (500, "Failed to fetch audio: reset".to_string()));
    let (_, a) = at(Stage::Process).next(Event::ProcessFailed("FFmpeg failed".to_string()));
    assert_eq!(
        body_text(&a),
        (500, "Failed to process audio: FFmpeg failed".to_string())
    );
    let (_, a) = at(Stage::Persist).next(Event::PersistFailed("disk".to_string()));
    assert_eq!(
        body_text(&a),
        (500, "Failed to save result audio: disk".to_string())
    );
    let (_, a) = at(Stage::Probe).next(Event::ProbeFailed("exit 1".to_string()));
    assert_eq!(
        body_text(&a),
        (500, "Failed to extract metadata: exit 1".to_string())
    );
    let (p, a) = at(Stage::Cache).next(Event::ResultMiss);
    assert_eq!(p.stage, Stage::Done);
    assert_eq!(body_text(&a), (500, "Unexpected event".to_string()));
    let (_, a) = at(Stage::Done).next(Event::CacheMiss);
    assert_eq!(body_text(&a), (500, "Unexpected event".to_string()));
}

#[test]
fn descriptions_are_probed_and_not_persisted() {
    let (pipeline, _) = begin("/meta/unsafe/test.mp3", "");
    let (pipeline, _) = pipeline.next(Event::CacheMiss);
    let (pipeline, _) = pipeline.next(Event::ResultMiss);
    let (pipeline, _) = pipeline.next(Event::SourceLoaded(AudioBuffer::from_bytes(vec![1])));
    let (pipeline, action) = pipeline.next(Event::Processed(AudioBuffer::from_bytes(vec![2])));
    assert_eq!(pipeline.stage, Stage::Probe);
    assert!(matches!(action, Action::Probe { .. }));
    let report = ProbeReport {
        format: Some(ProbeFormat {
            format_name: Some("mp3".to_string()),
            duration: None,
            bit_rate: None,
            size: None,
            tags: vec![],
        }),
        streams: vec![],
    };
    let (pipeline, action) = pipeline.next(Event::Probed(report));
    assert_eq!(pipeline.stage, Stage::Done);
    match action {
        Action::RespondMeta { metadata, cache } => {
            assert_eq!(metadata.format, "mp3");
            let write = cache.unwrap();
            assert!(write.key.starts_with("meta_cache:GET:test."));
            assert_eq!(write.ttl, 3600);
        }
        _ => panic!("a description was expected"),
    }
    let (cached, _) = begin("/meta/unsafe/test.mp3", "");
    let document = b"{\"format\":\"mp3\"}".to_vec();
    let (cached, action) = cached.next(Event::CacheHit(document.clone()));
    assert_eq!(cached.stage, Stage::Done);
    match action {
        Action::Respond { response, cache } => {
            assert!(cache.is_none());
            assert_eq!(response.status, 200);
            assert_eq!(response.header("content-type").unwrap(), "application/json");
            assert_eq!(response.body, document);
        }
        _ => panic!("the cached description was expected"),
    }
    let (mut again, _) = begin("/meta/unsafe/test.mp3", "");
    again.stage = Stage::Probe;
    let (_, action) = again.next(Event::Probed(ProbeReport { format: None, streams: vec![] }));
    assert_eq!(
        body_text(&action),
        (
            500,
            "Failed to extract metadata: No format information found".to_string()
        )
    );
    let (mut stored, _) = begin("/meta/unsafe/test.mp3", "");
    stored.stage = Stage::Stored;
    let (stored, action) = stored.next(Event::ResultHit(AudioBuffer::from_bytes(vec![3])));
    assert_eq!(stored.stage, Stage::Probe);
    assert!(matches!(action, Action::Probe { .. }));
}

#[test]
fn runs_in_flight_never_exceed_the_limit() {
    let mut door = Admission::new(2);
    assert_eq!(door.limit(), 2);
    assert!(door.try_acquire());
    assert!(door.try_acquire());
    assert!(!door.try_acquire());
    assert_eq!(door.in_flight(), 2);
    door.release();
    assert_eq!(door.in_flight(), 1);
    assert!(door.try_acquire());
    assert!(!door.try_acquire());
    door.release();
    door.release();
    door.release();
    assert_eq!(door.in_flight(), 0);
    let mut closed = Admission::new(0);
    assert!(!closed.try_acquire());
    assert_eq!(closed.in_flight(), 0);
    assert_ne!(AdmissionEvent::Arrive, AdmissionEvent::Leave);
}
