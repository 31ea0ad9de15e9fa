//! Content fingerprints and path signatures.
//!
//! Fingerprints are SHA-1 digests written in hexadecimal; they address
//! results in storage and in the response cache. Signatures are Argon2id
//! hashes in PHC string form; they guard a path against tampering.

use vstd::prelude::*;
use vstd::utf8::encode_utf8;
use argon2::{PasswordHasher, PasswordVerifier};
use crate::codec::{hex_encode, hex_lower, is_lower_hex, lemma_hex_lower, sha1_digest, sha1_of};
use crate::number::{numeral, push_numeral};
use crate::params::{canonical_of, query_of, tag_entries, Params, ParamsView};
use crate::strmap::{
    lemma_sorted_by_name, lemma_sorted_of_same_mapping, same_mapping, unique_names,
};
use crate::text::{
    chars_of, copy_of, find_last, has_prefix, last_index_of, lemma_last_index_of, push_all,
    push_str, slice_of, starts_with, string_of,
};

verus! {

/// The variant of Argon2 that signatures are made with.
pub const ALGORITHM: &'static str = "argon2id";

/// The version of Argon2 that signatures are made with.
pub const ARGON2_VERSION: u32 = 0x13;

/// Memory cost of a signature, in KiB.
pub const MEMORY_COST: u32 = 15_000;

/// Number of passes of a signature.
pub const TIME_COST: u32 = 2;

/// Degree of parallelism of a signature.
pub const PARALLELISM: u32 = 1;

/// Why a signature was not accepted, or could not be made.
#[derive(Debug)]
pub enum AuthError {
    /// The signature does not belong to the path.
    InvalidCredentials(String),
    /// The signature could not be read, or none could be computed.
    UnexpectedError(String),
}

/// What checking a signature against a candidate comes to.
#[derive(Debug, Clone, Copy, PartialEq, Eq, Structural)]
pub enum Verdict {
    /// The signature is no PHC string.
    Malformed,
    /// The signature is well formed and does not belong to the candidate.
    Rejected,
    /// The signature belongs to the candidate.
    Accepted,
}

/// The verdict of Argon2 on a PHC string and a candidate.
pub uninterp spec fn argon2_verdict(hash: Seq<char>, candidate: Seq<u8>) -> Verdict;

/// The head of the PHC string of an Argon2 hash: algorithm, version and
/// costs, each between `$` signs, as `argon2` writes them.
pub open spec fn phc_head(
    algorithm: Seq<char>,
    version: nat,
    memory: nat,
    passes: nat,
    lanes: nat,
) -> Seq<char> {
    "$"@ + algorithm + "$v="@ + numeral(version) + "$m="@ + numeral(memory) + ",t="@ + numeral(
        passes,
    ) + ",p="@ + numeral(lanes) + "$"@
}

/// The head of every signature of this gateway: Argon2id, version 19,
/// 15000 KiB, 2 passes, 1 lane.
pub open spec fn signature_head() -> Seq<char> {
    phc_head("argon2id"@, 0x13, 15_000, 2, 1)
}

/// The verdict on a signature and a candidate. A text that does not begin
/// with the head of this gateway's signatures is malformed; for any other
/// text Argon2 decides.
pub open spec fn signature_verdict(hash: Seq<char>, candidate: Seq<u8>) -> Verdict {
    if has_prefix(hash, signature_head()) {
        argon2_verdict(hash, candidate)
    } else {
        Verdict::Malformed
    }
}

/// Checks a candidate against a PHC string that names this gateway's
/// algorithm, version and costs.
///
/// Trusted: names the outcome of `argon2::password_hash::PasswordHash::new`
/// followed by `argon2::Argon2::verify_password`; `Malformed` is a failure
/// of the first, `Rejected` one of the second. The costs that the text
/// names are those of the head, so the hashing that `verify_password` does
/// works with one lane and 15000 KiB.
#[verifier::external_body]
fn argon2_check(hash: &str, candidate: &[u8]) -> (r: Verdict)
    requires
        has_prefix(hash@, signature_head()),
    ensures
        r == argon2_verdict(hash@, candidate@),
{
    match argon2::PasswordHash::new(hash) {
        Err(_) => Verdict::Malformed,
        Ok(parsed) => match argon2::Argon2::default().verify_password(candidate, &parsed) {
            Ok(()) => Verdict::Accepted,
            Err(_) => Verdict::Rejected,
        },
    }
}

/// Hashes `data` with Argon2 under a fresh random salt, and gives the PHC
/// string; `None` where the algorithm, the version or the costs are
/// refused, or the hashing fails.
///
/// Trusted: the PHC string depends on the salt that `SaltString::generate`
/// draws, so it has no name. What is claimed holds of every salt. The
/// string begins with the algorithm, the version and the costs it was made
/// with, as `Display for PasswordHash` writes them. And a string that
/// `argon2::Argon2::hash_password` made for `data` is accepted for `data`,
/// because `verify_password` hashes the candidate again with the algorithm,
/// version, costs and salt that the string carries, and compares. The bound
/// on `lanes` keeps `argon2::Params::new` from overflowing.
#[verifier::external_body]
fn argon2_hash(
    data: &[u8],
    algorithm: &str,
    version: u32,
    memory: u32,
    passes: u32,
    lanes: u32,
) -> (r: Option<String>)
    requires
        lanes <= 0x00ff_ffff,
    ensures
        r matches Some(h) ==> has_prefix(
            h@,
            phc_head(algorithm@, version as nat, memory as nat, passes as nat, lanes as nat),
        ),
        r matches Some(h) ==> argon2_verdict(h@, data@) == Verdict::Accepted,
{
    let salt = argon2::password_hash::SaltString::generate(&mut rand::thread_rng());
    let algorithm = argon2::Algorithm::new(algorithm).ok()?;
    let version = argon2::Version::try_from(version).ok()?;
    let costs = argon2::Params::new(memory, passes, lanes, None).ok()?;
    let hasher = argon2::Argon2::new(algorithm, version, costs);
    hasher.hash_password(data, &salt).ok().map(|h| h.to_string())
}

/// The 40 hexadecimal digits of the SHA-1 digest of a text.
pub open spec fn digest_hex(text: Seq<char>) -> Seq<char> {
    hex_lower(sha1_of(encode_utf8(text)))
}

/// The first 20 hexadecimal digits of the SHA-1 digest of a text.
pub open spec fn short_digest_hex(text: Seq<char>) -> Seq<char> {
    hex_lower(sha1_of(encode_utf8(text)).take(10))
}

/// A digest laid out as a storage path: two digits, `/`, two digits, `/`,
/// and the rest.
pub open spec fn digest_path(text: Seq<char>) -> Seq<char> {
    let h = digest_hex(text);
    h.subrange(0, 2) + seq!['/'] + h.subrange(2, 4) + seq!['/'] + h.subrange(4, h.len() as int)
}

/// The shape of a digest path: 42 characters, `/` at positions 2 and 5,
/// lower-case hexadecimal digits everywhere else.
pub open spec fn is_digest_path(s: Seq<char>) -> bool {
    &&& s.len() == 42
    &&& s[2] == '/'
    &&& s[5] == '/'
    &&& forall|i: int| 0 <= i < 42 && i != 2 && i != 5 ==> is_lower_hex(#[trigger] s[i])
}

/// `key` without the `https://` or `http://` it may begin with.
pub open spec fn without_scheme(key: Seq<char>) -> Seq<char> {
    if has_prefix(key, "https://"@) {
        key.skip(8)
    } else if has_prefix(key, "http://"@) {
        key.skip(7)
    } else {
        key
    }
}

/// Whether the last segment of `audio` has a suffix: there is a `.`, and no
/// `/` comes after the last one.
pub open spec fn has_suffix(audio: Seq<char>) -> bool {
    last_index_of(audio, '.') >= 0 && last_index_of(audio, '/') < last_index_of(audio, '.')
}

/// The suffix that a result is stored under: that of the requested format,
/// or, where none is requested, that of the source.
pub open spec fn result_suffix(p: ParamsView) -> Seq<char> {
    let audio = without_scheme(p.key);
    match p.format {
        Some(f) => seq!['.'] + f.extension_text(),
        None => audio.skip(last_index_of(audio, '.')),
    }
}

/// The name a result is stored under: the source's name with the short
/// digest of the canonical string set in before the suffix, or at the end
/// where the source has no suffix.
pub open spec fn suffix_path(p: ParamsView) -> Seq<char> {
    let hash = seq!['.'] + short_digest_hex(canonical_of(p));
    let audio = without_scheme(p.key);
    if has_suffix(audio) {
        audio.take(last_index_of(audio, '.')) + hash + result_suffix(p)
    } else {
        audio + hash
    }
}

/// The SHA-1 digest of `text`, laid out as a storage path.
fn hex_digest_path(text: &str) -> (r: String)
    ensures
        r@ == digest_path(text@),
        is_digest_path(r@),
{
    let digest = sha1_digest(text.as_bytes());
    let hash = hex_encode(digest.as_slice());
    proof {
        lemma_hex_lower(digest@);
    }
    let h = chars_of(hash.as_str());
    let mut out: Vec<char> = Vec::new();
    let a = slice_of(&h, 0, 2);
    let b = slice_of(&h, 2, 4);
    let c = slice_of(&h, 4, h.len());
    push_all(&mut out, &a);
    out.push('/');
    push_all(&mut out, &b);
    out.push('/');
    push_all(&mut out, &c);
    assert(out@ =~= digest_path(text@));
    assert(is_digest_path(out@)) by {
        assert forall|i: int| 0 <= i < 42 && i != 2 && i != 5 implies is_lower_hex(
            #[trigger] out@[i],
        ) by {
            if i < 2 {
                assert(out@[i] == h@[i]);
            } else if i < 5 {
                assert(out@[i] == h@[i - 1]);
            } else {
                assert(out@[i] == h@[i - 2]);
            }
        }
    }
    string_of(&out)
}

/// The storage path of a source: the digest path of its key.
pub fn digest_storage_hasher(audio: &str) -> (r: String)
    ensures
        r@ == digest_path(audio@),
        is_digest_path(r@),
{
    hex_digest_path(audio)
}

/// The storage path of a result: the digest path of the canonical string
/// of its record.
pub fn digest_result_storage_hasher(p: &Params) -> (r: String)
    ensures
        r@ == digest_path(canonical_of(p@)),
        is_digest_path(r@),
{
    let path = p.to_string();
    hex_digest_path(path.as_str())
}

/// The name under which the result of a record is stored.
///
/// Where the source has a suffix, the name is the source's stem, a `.`,
/// twenty lower-case hexadecimal digits, and the result's suffix.
pub fn suffix_result_storage_hasher(p: &Params) -> (r: String)
    ensures
        r@ == suffix_path(p@),
        short_digest_hex(canonical_of(p@)).len() == 20,
        forall|i: int|
            0 <= i < 20 ==> is_lower_hex(#[trigger] short_digest_hex(canonical_of(p@))[i]),
{
    let path = p.to_string();
    let digest = sha1_digest(path.as_str().as_bytes());
    let head = slice_of_bytes(&digest, 10);
    let hex = hex_encode(head.as_slice());
    proof {
        lemma_hex_lower(digest@.take(10));
    }
    let mut hash: Vec<char> = Vec::new();
    hash.push('.');
    push_str(&mut hash, hex.as_str());
    assert(hash@ =~= seq!['.'] + short_digest_hex(canonical_of(p@)));

    let key = chars_of(p.key.as_str());
    let audio = if starts_with(&key, "https://") {
        proof {
            reveal_strlit("https://");
        }
        slice_of(&key, 8, key.len())
    } else if starts_with(&key, "http://") {
        proof {
            reveal_strlit("http://");
        }
        slice_of(&key, 7, key.len())
    } else {
        slice_of(&key, 0, key.len())
    };
    assert(audio@ == without_scheme(p@.key));
    proof {
        lemma_last_index_of(audio@, '.');
        lemma_last_index_of(audio@, '/');
    }
    let dot = find_last(&audio, '.');
    let slash = find_last(&audio, '/');
    let mut out: Vec<char> = Vec::new();
    match dot {
        Some(d) => {
            let before_dot = match slash {
                Some(s) => s < d,
                None => true,
            };
            if before_dot {
                let stem = slice_of(&audio, 0, d);
                push_all(&mut out, &stem);
                push_all(&mut out, &hash);
                match p.format {
                    Some(f) => {
                        out.push('.');
                        push_str(&mut out, f.extension());
                    },
                    None => {
                        let ext = slice_of(&audio, d, audio.len());
                        push_all(&mut out, &ext);
                    },
                }
                assert(out@ =~= suffix_path(p@));
                return string_of(&out);
            }
        },
        None => {},
    }
    push_all(&mut out, &audio);
    push_all(&mut out, &hash);
    assert(out@ =~= suffix_path(p@));
    string_of(&out)
}

/// The first `n` bytes of `v`.
fn slice_of_bytes(v: &Vec<u8>, n: usize) -> (r: Vec<u8>)
    requires
        n <= v.len(),
    ensures
        r@ == v@.take(n as int),
{
    let mut out: Vec<u8> = Vec::new();
    let mut i: usize = 0;
    while i < n
        invariant
            i <= n <= v.len(),
            out@ == v@.take(i as int),
        decreases n - i,
    {
        out.push(v[i]);
        i += 1;
    }
    out
}

/// The tags of a record name nothing twice.
pub open spec fn has_valid_tags(p: ParamsView) -> bool {
    p.tags matches Some(t) ==> unique_names(t)
}

/// Two records are equal field by field, their tags compared as mappings:
/// the order in which the tags were set does not count.
pub open spec fn same_record(one: ParamsView, other: ParamsView) -> bool {
    &&& other == (ParamsView { tags: other.tags, ..one })
    &&& match (one.tags, other.tags) {
        (Some(a), Some(b)) => same_mapping(a, b),
        (None, None) => true,
        _ => false,
    }
}

/// Records that are equal field by field have the same canonical string and
/// the same fingerprints, whatever order their tags were set in.
pub proof fn lemma_fingerprints_of_equal_records(one: ParamsView, other: ParamsView)
    requires
        has_valid_tags(one),
        has_valid_tags(other),
        same_record(one, other),
    ensures
        canonical_of(one) == canonical_of(other),
        suffix_path(one) == suffix_path(other),
        digest_path(canonical_of(one)) == digest_path(canonical_of(other)),
{
    match (one.tags, other.tags) {
        (Some(a), Some(b)) => {
            lemma_sorted_of_same_mapping(a, b);
            lemma_sorted_by_name(a);
            lemma_sorted_by_name(b);
            assert(tag_entries(one.tags) =~= tag_entries(other.tags));
        },
        _ => {},
    }
    assert(query_of(one) == query_of(other));
}

/// What a verdict means for the request: acceptance lets it pass, a
/// rejection is bad credentials, an unreadable signature is a failure of
/// its own.
pub open spec fn is_outcome_of(r: Result<(), AuthError>, v: Verdict) -> bool {
    match v {
        Verdict::Accepted => r is Ok,
        Verdict::Rejected => r matches Err(AuthError::InvalidCredentials(m)) && m@
            == "Invalid hash"@,
        Verdict::Malformed => r matches Err(AuthError::UnexpectedError(m)) && m@
            == "Failed to parse hash in PHC string format."@,
    }
}

/// Turns a verdict into the result of a verification.
pub fn verdict_result(v: Verdict) -> (r: Result<(), AuthError>)
    ensures
        is_outcome_of(r, v),
{
    match v {
        Verdict::Accepted => Ok(()),
        Verdict::Rejected => Err(AuthError::InvalidCredentials(copy_of("Invalid hash"))),
        Verdict::Malformed => Err(
            AuthError::UnexpectedError(copy_of("Failed to parse hash in PHC string format.")),
        ),
    }
}

/// The head of every signature, written out.
pub proof fn lemma_signature_head()
    ensures
        signature_head() == "$argon2id$v=19$m=15000,t=2,p=1$"@,
{
    reveal_strlit("$argon2id$v=19$m=15000,t=2,p=1$");
    reveal_strlit("argon2id");
    reveal_strlit("$");
    reveal_strlit("$v=");
    reveal_strlit("$m=");
    reveal_strlit(",t=");
    reveal_strlit(",p=");
    reveal_with_fuel(numeral, 6);
    assert(numeral(19) =~= seq!['1', '9']);
    assert(numeral(15_000) =~= seq!['1', '5', '0', '0', '0']);
    assert(numeral(2) =~= seq!['2']);
    assert(numeral(1) =~= seq!['1']);
    assert(signature_head() =~= "$argon2id$v=19$m=15000,t=2,p=1$"@);
}

/// The head of every signature.
fn head_text() -> (r: String)
    ensures
        r@ == signature_head(),
{
    let mut out: Vec<char> = Vec::new();
    push_str(&mut out, "$");
    push_str(&mut out, ALGORITHM);
    push_str(&mut out, "$v=");
    push_numeral(&mut out, ARGON2_VERSION as u64);
    push_str(&mut out, "$m=");
    push_numeral(&mut out, MEMORY_COST as u64);
    push_str(&mut out, ",t=");
    push_numeral(&mut out, TIME_COST as u64);
    push_str(&mut out, ",p=");
    push_numeral(&mut out, PARALLELISM as u64);
    push_str(&mut out, "$");
    string_of(&out)
}

/// Checks that `expected_path_hash` is a signature of `path_candidate`.
///
/// A signature is a PHC string of Argon2id with the version and costs of
/// this gateway. A text with another head is refused as malformed without
/// being hashed against.
pub fn verify_hash(expected_path_hash: &str, path_candidate: &str) -> (r: Result<(), AuthError>)
    ensures
        is_outcome_of(r, signature_verdict(expected_path_hash@, encode_utf8(path_candidate@))),
{
    let head = head_text();
    let text = chars_of(expected_path_hash);
    if !starts_with(&text, head.as_str()) {
        return verdict_result(Verdict::Malformed);
    }
    let verdict = argon2_check(expected_path_hash, path_candidate.as_bytes());
    verdict_result(verdict)
}

/// What hashing a path comes to: the PHC string, or, where none could be
/// made, an unexpected error.
pub fn hash_result(hashed: Option<String>) -> (r: Result<String, AuthError>)
    ensures
        match hashed {
            Some(h) => r == Ok::<String, AuthError>(h),
            None => r matches Err(AuthError::UnexpectedError(m)) && m@
                == "Failed to hash path"@,
        },
{
    match hashed {
        Some(h) => Ok(h),
        None => Err(AuthError::UnexpectedError(copy_of("Failed to hash path"))),
    }
}

/// Signs `path`: an Argon2id hash of it under a fresh random salt, as a
/// PHC string that begins with `$argon2id$v=19$m=15000,t=2,p=1$`. Two calls
/// on one path give different signatures; each of them is accepted by
/// [`verify_hash`] for that path.
pub fn compute_hash(path: &str) -> (r: Result<String, AuthError>)
    ensures
        match r {
            Ok(signature) => {
                &&& has_prefix(signature@, "$argon2id$v=19$m=15000,t=2,p=1$"@)
                &&& signature_verdict(signature@, encode_utf8(path@)) == Verdict::Accepted
            },
            Err(e) => e matches AuthError::UnexpectedError(m) && m@ == "Failed to hash path"@,
        },
{
    let hashed = argon2_hash(
        path.as_bytes(),
        ALGORITHM,
        ARGON2_VERSION,
        MEMORY_COST,
        TIME_COST,
        PARALLELISM,
    );
    proof {
        lemma_signature_head();
        reveal_strlit("argon2id");
    }
    hash_result(hashed)
}

} // verus!
