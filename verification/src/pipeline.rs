//! The request pipeline: what to do next for a request, given what has
//! happened so far.
//!
//! The pipeline itself does no I/O. It answers each event (a cache lookup
//! that hit or missed, a source that was fetched, a transcoder run that
//! ended) with the next action for its caller to perform, up to the
//! response.

use vstd::prelude::*;
use vstd::utf8::encode_utf8;
use crate::blob::{sniffed_format, AudioBuffer};
use crate::hasher::{
    signature_verdict, suffix_path, suffix_result_storage_hasher, verify_hash, AuthError, Verdict,
};
use crate::metadata::{describes, extract_metadata, AudioMetadata, ProbeReport};
use crate::params::{
    canonical_of, last_segment, params_read, query_read, without_leading, Params,
};
use crate::response::{is_cached, is_error, is_full, is_json, Response};
use crate::text::{
    chars_of, copy_of, find_first, first_index_of, has_prefix, lemma_first_index_of, push_str,
    same_text, slice_of, starts_with, string_of,
};

verus! {

/// How long a response stays in the response cache, in seconds.
pub const CACHE_TTL: u64 = 3600;

/// The content type that `infer` recognises in a byte string, if any.
pub uninterp spec fn sniffed_mime(data: Seq<u8>) -> Option<Seq<char>>;

/// Recognises the content type of `data` from its first bytes.
///
/// Trusted: names what `infer::get` finds, written out as its MIME type.
#[verifier::external_body]
fn sniff_mime(data: &[u8]) -> (r: Option<String>)
    ensures
        match r {
            Some(m) => sniffed_mime(data@) == Some(m@),
            None => sniffed_mime(data@) is None,
        },
{
    infer::get(data).map(|kind| kind.mime_type().to_string())
}

/// What the pipeline is waiting for.
#[derive(Debug, Clone, Copy, PartialEq, Eq, Structural)]
pub enum Stage {
    /// The answer of the response cache.
    Cache,
    /// The answer of the result storage.
    Stored,
    /// The source audio.
    Source,
    /// The end of the transcoder run.
    Process,
    /// The result to be persisted.
    Persist,
    /// The report of the probe.
    Probe,
    /// Nothing: the response has been given.
    Done,
}

/// What to put into the response cache along with a response.
#[derive(Debug)]
pub struct CacheWrite {
    pub key: String,
    pub ttl: u64,
}

/// What the caller is to do next.
#[derive(Debug)]
pub enum Action {
    /// Look `key` up in the response cache.
    LookupCache { key: String },
    /// Look `key` up in the result storage.
    LookupResult { key: String },
    /// Fetch the source from `url`.
    FetchUrl { url: String },
    /// Load the source `key` from the source storage.
    LoadSource { key: String },
    /// Run the transcoder on `input`.
    Process { input: AudioBuffer },
    /// Persist `blob` under `key` in the result storage.
    StoreResult { key: String, blob: AudioBuffer },
    /// Run the probe on `blob`.
    Probe { blob: AudioBuffer },
    /// Send `response`, after putting its body into the response cache
    /// where `cache` says so.
    Respond { response: Response, cache: Option<CacheWrite> },
    /// Send the description of the processed file as a JSON document, after
    /// putting that document into the response cache where `cache` says so.
    RespondMeta { metadata: AudioMetadata, cache: Option<CacheWrite> },
}

/// What has happened.
#[derive(Debug)]
pub enum Event {
    CacheHit(Vec<u8>),
    /// The response cache has no entry, or could not be asked.
    CacheMiss,
    ResultHit(AudioBuffer),
    ResultMiss,
    /// The source was fetched from its URL.
    SourceFetched(Vec<u8>),
    /// The source was loaded from storage.
    SourceLoaded(AudioBuffer),
    /// The source is not there.
    SourceMissing(String),
    /// The source was found, and reading it failed.
    SourceBroken(String),
    Processed(AudioBuffer),
    ProcessFailed(String),
    /// The result was persisted; the blob comes back.
    Persisted(AudioBuffer),
    PersistFailed(String),
    Probed(ProbeReport),
    ProbeFailed(String),
}

/// The state of one request.
#[derive(Debug)]
pub struct Pipeline {
    /// Whether the request asks for a description in place of the audio.
    pub meta: bool,
    pub params: Params,
    pub cache_key: String,
    pub result_key: String,
    /// The value of the `Range` header of the request, if it has one.
    pub range: Option<String>,
    pub stage: Stage,
}

/// Whether a request path asks for a description.
pub open spec fn is_meta_path(path: Seq<char>) -> bool {
    has_prefix(path, "/meta"@)
}

/// The key of a response in the response cache.
pub open spec fn cache_key_of(meta: bool, method: Seq<char>, hash: Seq<char>) -> Seq<char> {
    (if meta {
        "meta_cache"@
    } else {
        "req_cache"@
    }) + ":"@ + method + ":"@ + hash
}

/// The first segment of a request path, which holds the signature: what
/// stands between the `/` after any leading `/meta` and the next `/`.
/// A path that does not go on with `/` there has none.
pub open spec fn signature_of(path: Seq<char>) -> Option<Seq<char>> {
    let rest = without_leading(path, "/meta"@);
    if rest.len() > 0 && rest[0] == '/' {
        let tail = rest.drop_first();
        Some(tail.take(first_index_of(tail, '/')))
    } else {
        None
    }
}

/// Whether a key is a URL to fetch.
pub open spec fn is_url(key: Seq<char>) -> bool {
    has_prefix(key, "https://"@) || has_prefix(key, "http://"@)
}

/// The content type of a cached entry: what is recognised in it, or the
/// default.
pub open spec fn content_type_of(sniffed: Option<Seq<char>>) -> Seq<char> {
    match sniffed {
        Some(m) => m,
        None => "audio/mpeg"@,
    }
}

/// Why a request is not authorised, if it is not. A path without a
/// signature segment is refused. The segment `unsafe` lets every request
/// pass. Any other segment must be accepted as a signature of the
/// canonical string.
pub open spec fn authorisation_failure(path: Seq<char>, canonical: Seq<char>) -> Option<Seq<char>> {
    match signature_of(path) {
        None => Some("Failed to parse URI hash"@),
        Some(signature) => if signature == "unsafe"@ {
            None
        } else {
            match signature_verdict(signature, encode_utf8(canonical)) {
                Verdict::Accepted => None,
                Verdict::Rejected => Some("Failed to verify hash: "@ + "Invalid hash"@),
                Verdict::Malformed => Some(
                    "Failed to verify hash: "@ + "Failed to parse hash in PHC string format."@,
                ),
            }
        },
    }
}

/// Whether `r` is what authorising a request comes to: a refusal is a bad
/// request with the reason as its message.
pub open spec fn is_authorised(r: Result<(), (u16, String)>, path: Seq<char>, canonical: Seq<char>) -> bool {
    match authorisation_failure(path, canonical) {
        Some(reason) => r matches Err(e) && e.0 == 400 && e.1@ == reason,
        None => r is Ok,
    }
}

/// The path that the record is read from: the request path without a
/// leading `/params` or `/meta`.
pub open spec fn record_path(path: Seq<char>) -> Seq<char> {
    without_leading(without_leading(path, "/params"@), "/meta"@)
}

/// Whether `r` is how the pipeline starts on a request. A path without a
/// last segment and a request that is not authorised are refused as bad
/// requests. Otherwise the record is read, its fingerprints are taken, and
/// the response cache is asked first.
pub open spec fn starts(
    r: Result<(Pipeline, Action), Response>,
    path: Seq<char>,
    query: Seq<char>,
    method: Seq<char>,
    range: Option<Seq<char>>,
) -> bool {
    let from = record_path(path);
    if last_segment(from).len() == 0 {
        r matches Err(response) && is_error(
            response,
            400,
            "Failed to parse params: "@ + "Invalid audio path"@,
        )
    } else {
        let p = params_read(from, query_read(query));
        match authorisation_failure(path, canonical_of(p)) {
            Some(reason) => r matches Err(response) && is_error(response, 400, reason),
            None => {
                &&& r matches Ok(started)
                &&& started.0.meta == is_meta_path(path)
                &&& started.0.params@ == p
                &&& started.0.result_key@ == suffix_path(p)
                &&& started.0.cache_key@ == cache_key_of(
                    is_meta_path(path),
                    method,
                    suffix_path(p),
                )
                &&& range_view(started.0.range) == range
                &&& started.0.stage == Stage::Cache
                &&& started.1 matches Action::LookupCache { key }
                &&& key@ == started.0.cache_key@
            },
        }
    }
}

/// `prefix` followed by `message`.
fn prefixed_message(prefix: &str, message: &str) -> (r: String)
    ensures
        r@ == prefix@ + message@,
{
    let mut out: Vec<char> = Vec::new();
    push_str(&mut out, prefix);
    push_str(&mut out, message);
    string_of(&out)
}

/// Whether a request path asks for a description.
pub fn meta_path(path: &str) -> (r: bool)
    ensures
        r == is_meta_path(path@),
{
    let c = chars_of(path);
    starts_with(&c, "/meta")
}

/// The key of a response in the response cache.
pub fn cache_key(meta: bool, method: &str, hash: &str) -> (r: String)
    ensures
        r@ == cache_key_of(meta, method@, hash@),
{
    let mut out: Vec<char> = Vec::new();
    if meta {
        push_str(&mut out, "meta_cache");
    } else {
        push_str(&mut out, "req_cache");
    }
    push_str(&mut out, ":");
    push_str(&mut out, method);
    push_str(&mut out, ":");
    push_str(&mut out, hash);
    string_of(&out)
}

/// The signature segment of a request path, if it has one.
pub fn signature_segment(path: &str) -> (r: Option<String>)
    ensures
        match r {
            Some(s) => signature_of(path@) == Some(s@),
            None => signature_of(path@) is None,
        },
{
    let c = chars_of(path);
    let rest = crate::params::strip_leading(&c, "/meta");
    if rest.len() > 0 && rest[0] == '/' {
        let tail = slice_of(&rest, 1, rest.len());
        assert(tail@ == rest@.drop_first());
        proof {
            lemma_first_index_of(tail@, '/');
        }
        let end = find_first(&tail, '/');
        let segment = slice_of(&tail, 0, end);
        Some(string_of(&segment))
    } else {
        None
    }
}

/// Authorises a request: checks the signature segment of its path against
/// the canonical string of its record.
pub fn authorize(path: &str, canonical: &str) -> (r: Result<(), (u16, String)>)
    ensures
        is_authorised(r, path@, canonical@),
{
    match signature_segment(path) {
        None => Err((400, copy_of("Failed to parse URI hash"))),
        Some(signature) => {
            if same_text(signature.as_str(), "unsafe") {
                return Ok(());
            }
            match verify_hash(signature.as_str(), canonical) {
                Ok(()) => Ok(()),
                Err(AuthError::InvalidCredentials(m)) => Err(
                    (400, prefixed_message("Failed to verify hash: ", m.as_str())),
                ),
                Err(AuthError::UnexpectedError(m)) => Err(
                    (400, prefixed_message("Failed to verify hash: ", m.as_str())),
                ),
            }
        },
    }
}

/// The content type of a cached entry, given what was recognised in it.
pub fn content_type(sniffed: Option<String>) -> (r: String)
    ensures
        r@ == content_type_of(
            match sniffed {
                Some(m) => Some(m@),
                None => None,
            },
        ),
{
    match sniffed {
        Some(m) => m,
        None => copy_of("audio/mpeg"),
    }
}

/// The response that serves a cached entry: its content type is what is
/// recognised in it, and a `Range` header is honoured.
pub fn cached_response(bytes: Vec<u8>, range: Option<&str>) -> (r: Response)
    ensures
        is_cached(
            r,
            bytes@,
            content_type_of(sniffed_mime(bytes@)),
            match range {
                Some(h) => Some(h@),
                None => None,
            },
        ),
{
    let kind = content_type(sniff_mime(bytes.as_slice()));
    Response::cached(bytes, kind.as_str(), range)
}

/// Whether `action` is a refusal with the given status and message, and
/// nothing to cache.
pub open spec fn refuses(action: Action, status: u16, message: Seq<char>) -> bool {
    action matches Action::Respond { response, cache } && is_error(response, status, message)
        && cache is None
}

/// Whether `action` serves `blob` whole, and has the response cached under
/// `key` for an hour.
pub open spec fn serves(action: Action, blob: AudioBuffer, key: Seq<char>) -> bool {
    action matches Action::Respond { response, cache } && is_full(
        response,
        blob.bytes(),
        blob.format_of().mime_text(),
    ) && (cache matches Some(w) && w.key@ == key && w.ttl == 3600)
}

/// The text of an optional string.
pub open spec fn range_view(o: Option<String>) -> Option<Seq<char>> {
    match o {
        Some(s) => Some(s@),
        None => None,
    }
}

/// Whether `after` is `before` at another stage.
pub open spec fn moved(before: Pipeline, after: Pipeline, stage: Stage) -> bool {
    &&& after.meta == before.meta
    &&& after.params@ == before.params@
    &&& after.cache_key@ == before.cache_key@
    &&& after.result_key@ == before.result_key@
    &&& range_view(after.range) == range_view(before.range)
    &&& after.stage == stage
}

/// Whether `action` asks for the source of the record.
pub open spec fn asks_source(action: Action, key: Seq<char>) -> bool {
    if is_url(key) {
        action matches Action::FetchUrl { url } && url@ == key
    } else {
        action matches Action::LoadSource { key: k } && k@ == key
    }
}

/// Whether `after` and `action` answer `event` in the state `before`.
///
/// Each stage has the events it waits for: the response cache answers with
/// a hit or a miss, the result storage likewise, the source is there, is
/// missing or breaks, the transcoder and the storing end well or badly,
/// and so does the probe. Any other event at a stage ends the request with
/// an internal error.
pub open spec fn follows(before: Pipeline, event: Event, after: Pipeline, action: Action) -> bool {
    match (before.stage, event) {
        (Stage::Cache, Event::CacheHit(bytes)) => {
            &&& moved(before, after, Stage::Done)
            &&& action matches Action::Respond { response, cache }
            &&& cache is None
            &&& if before.meta {
                is_json(response, bytes@)
            } else {
                is_cached(
                    response,
                    bytes@,
                    content_type_of(sniffed_mime(bytes@)),
                    range_view(before.range),
                )
            }
        },
        (Stage::Cache, Event::CacheMiss) => {
            &&& moved(before, after, Stage::Stored)
            &&& action matches Action::LookupResult { key }
            &&& key@ == before.result_key@
        },
        (Stage::Stored, Event::ResultHit(blob)) => if before.meta {
            &&& moved(before, after, Stage::Probe)
            &&& action matches Action::Probe { blob: b }
            &&& b == blob
        } else {
            moved(before, after, Stage::Done) && serves(action, blob, before.cache_key@)
        },
        (Stage::Stored, Event::ResultMiss) => {
            moved(before, after, Stage::Source) && asks_source(action, before.params@.key)
        },
        (Stage::Source, Event::SourceFetched(bytes)) => {
            &&& moved(before, after, Stage::Process)
            &&& action matches Action::Process { input }
            &&& input.bytes() == bytes@
            &&& input.format_of() == sniffed_format(bytes@)
        },
        (Stage::Source, Event::SourceLoaded(blob)) => {
            &&& moved(before, after, Stage::Process)
            &&& action matches Action::Process { input }
            &&& input == blob
        },
        (Stage::Source, Event::SourceMissing(msg)) => {
            moved(before, after, Stage::Done) && refuses(
                action,
                404,
                "Failed to fetch audio: "@ + msg@,
            )
        },
        (Stage::Source, Event::SourceBroken(msg)) => {
            moved(before, after, Stage::Done) && refuses(
                action,
                500,
                "Failed to fetch audio: "@ + msg@,
            )
        },
        (Stage::Process, Event::Processed(blob)) => if before.meta {
            &&& moved(before, after, Stage::Probe)
            &&& action matches Action::Probe { blob: b }
            &&& b == blob
        } else {
            &&& moved(before, after, Stage::Persist)
            &&& action matches Action::StoreResult { key, blob: b }
            &&& key@ == before.result_key@
            &&& b == blob
        },
        (Stage::Process, Event::ProcessFailed(msg)) => {
            moved(before, after, Stage::Done) && refuses(
                action,
                500,
                "Failed to process audio: "@ + msg@,
            )
        },
        (Stage::Persist, Event::Persisted(blob)) => {
            moved(before, after, Stage::Done) && serves(action, blob, before.cache_key@)
        },
        (Stage::Persist, Event::PersistFailed(msg)) => {
            moved(before, after, Stage::Done) && refuses(
                action,
                500,
                "Failed to save result audio: "@ + msg@,
            )
        },
        (Stage::Probe, Event::Probed(report)) => {
            &&& moved(before, after, Stage::Done)
            &&& match report.format {
                Some(format) => {
                    &&& action matches Action::RespondMeta { metadata, cache }
                    &&& describes(metadata, format, report.streams@)
                    &&& cache matches Some(w)
                    &&& w.key@ == before.cache_key@
                    &&& w.ttl == 3600
                },
                None => refuses(
                    action,
                    500,
                    "Failed to extract metadata: "@ + "No format information found"@,
                ),
            }
        },
        (Stage::Probe, Event::ProbeFailed(msg)) => {
            moved(before, after, Stage::Done) && refuses(
                action,
                500,
                "Failed to extract metadata: "@ + msg@,
            )
        },
        _ => moved(before, after, Stage::Done) && refuses(action, 500, "Unexpected event"@),
    }
}

/// The refusal with the given status, whose message is `prefix` and
/// `message`.
fn refuse(status: u16, prefix: &str, message: &str) -> (r: Action)
    ensures
        refuses(r, status, prefix@ + message@),
{
    let text = prefixed_message(prefix, message);
    Action::Respond { response: Response::error(status, text.as_str()), cache: None }
}

impl Pipeline {
    /// Starts the pipeline on a request: reads the record from the path and
    /// the query string, authorises the request, and asks the response
    /// cache.
    pub fn start(path: &str, query: &str, method: &str, range: Option<String>) -> (r: Result<
        (Pipeline, Action),
        Response,
    >)
        ensures
            starts(r, path@, query@, method@, range_view(range)),
    {
        let meta = meta_path(path);
        let c = chars_of(path);
        let from = crate::params::strip_leading(&c, "/params");
        let from = crate::params::strip_leading(&from, "/meta");
        let from = string_of(&from);
        let params = match Params::from_path_and_query(from.as_str(), query) {
            Ok(p) => p,
            Err(e) => {
                let text = prefixed_message("Failed to parse params: ", e.as_str());
                return Err(Response::error(400, text.as_str()));
            },
        };
        let canonical = params.to_string();
        match authorize(path, canonical.as_str()) {
            Ok(()) => {},
            Err(e) => {
                return Err(Response::error(e.0, e.1.as_str()));
            },
        }
        let result_key = suffix_result_storage_hasher(&params);
        let key = cache_key(meta, method, result_key.as_str());
        let action = Action::LookupCache { key: copy_of(key.as_str()) };
        Ok((Pipeline { meta, params, cache_key: key, result_key, range, stage: Stage::Cache }, action))
    }

    /// The pipeline moved to `stage`.
    fn at(self, stage: Stage) -> (r: Pipeline)
        ensures
            moved(self, r, stage),
    {
        Pipeline {
            meta: self.meta,
            params: self.params,
            cache_key: self.cache_key,
            result_key: self.result_key,
            range: self.range,
            stage,
        }
    }

    /// The action that serves `blob` and has the response cached.
    fn serve(&self, blob: AudioBuffer) -> (r: Action)
        ensures
            serves(r, blob, self.cache_key@),
    {
        let response = Response::full(blob.to_vec(), blob.mime_type());
        Action::Respond {
            response,
            cache: Some(CacheWrite { key: copy_of(self.cache_key.as_str()), ttl: CACHE_TTL }),
        }
    }

    /// Answers an event with the next state and the next action.
    ///
    /// A cached response is served at once: audio with ranges honoured, a
    /// description as the JSON document that was cached. A stored result is
    /// served and cached. Otherwise the source is fetched, processed,
    /// persisted and served; a request for a description has what was stored
    /// or processed probed in place of persisted and served, and the
    /// description is cached. A missing source is a 404, any other failure
    /// a 500.
    pub fn next(self, event: Event) -> (r: (Pipeline, Action))
        ensures
            follows(self, event, r.0, r.1),
    {
        match (self.stage, event) {
            (Stage::Cache, Event::CacheHit(bytes)) => {
                let response = if self.meta {
                    Response::json(bytes)
                } else {
                    match &self.range {
                        Some(h) => cached_response(bytes, Some(h.as_str())),
                        None => cached_response(bytes, None),
                    }
                };
                (self.at(Stage::Done), Action::Respond { response, cache: None })
            },
            (Stage::Cache, Event::CacheMiss) => {
                let key = copy_of(self.result_key.as_str());
                (self.at(Stage::Stored), Action::LookupResult { key })
            },
            (Stage::Stored, Event::ResultHit(blob)) => {
                if self.meta {
                    (self.at(Stage::Probe), Action::Probe { blob })
                } else {
                    let action = self.serve(blob);
                    (self.at(Stage::Done), action)
                }
            },
            (Stage::Stored, Event::ResultMiss) => {
                let key = chars_of(self.params.key.as_str());
                let action = if starts_with(&key, "https://") || starts_with(&key, "http://") {
                    Action::FetchUrl { url: copy_of(self.params.key.as_str()) }
                } else {
                    Action::LoadSource { key: copy_of(self.params.key.as_str()) }
                };
                (self.at(Stage::Source), action)
            },
            (Stage::Source, Event::SourceFetched(bytes)) => {
                let input = AudioBuffer::from_bytes(bytes);
                (self.at(Stage::Process), Action::Process { input })
            },
            (Stage::Source, Event::SourceLoaded(blob)) => {
                (self.at(Stage::Process), Action::Process { input: blob })
            },
            (Stage::Source, Event::SourceMissing(msg)) => {
                let action = refuse(404, "Failed to fetch audio: ", msg.as_str());
                (self.at(Stage::Done), action)
            },
            (Stage::Source, Event::SourceBroken(msg)) => {
                let action = refuse(500, "Failed to fetch audio: ", msg.as_str());
                (self.at(Stage::Done), action)
            },
            (Stage::Process, Event::Processed(blob)) => {
                if self.meta {
                    (self.at(Stage::Probe), Action::Probe { blob })
                } else {
                    let key = copy_of(self.result_key.as_str());
                    (self.at(Stage::Persist), Action::StoreResult { key, blob })
                }
            },
            (Stage::Process, Event::ProcessFailed(msg)) => {
                let action = refuse(500, "Failed to process audio: ", msg.as_str());
                (self.at(Stage::Done), action)
            },
            (Stage::Persist, Event::Persisted(blob)) => {
                let action = self.serve(blob);
                (self.at(Stage::Done), action)
            },
            (Stage::Persist, Event::PersistFailed(msg)) => {
                let action = refuse(500, "Failed to save result audio: ", msg.as_str());
                (self.at(Stage::Done), action)
            },
            (Stage::Probe, Event::Probed(report)) => {
                let action = match extract_metadata(&report) {
                    Ok(metadata) => Action::RespondMeta {
                        metadata,
                        cache: Some(
                            CacheWrite { key: copy_of(self.cache_key.as_str()), ttl: CACHE_TTL },
                        ),
                    },
                    Err(e) => refuse(500, "Failed to extract metadata: ", e.as_str()),
                };
                (self.at(Stage::Done), action)
            },
            (Stage::Probe, Event::ProbeFailed(msg)) => {
                let action = refuse(500, "Failed to extract metadata: ", msg.as_str());
                (self.at(Stage::Done), action)
            },
            _ => {
                let action = refuse(500, "Unexpected event", "");
                proof {
                    reveal_strlit("");
                    assert("Unexpected event"@ + ""@ =~= "Unexpected event"@);
                }
                (self.at(Stage::Done), action)
            },
        }
    }
}

} // verus!
