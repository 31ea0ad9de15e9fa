//! Where objects live in a store: the full path of a key.

use vstd::prelude::*;
use crate::normalize::{normalize, normalized, SafeCharsType};
use crate::text::{push_str, string_of};

verus! {

/// Storage in a directory of the file system.
#[derive(Debug)]
pub struct FileStorage {
    pub base_dir: String,
    pub path_prefix: String,
    pub safe_chars: SafeCharsType,
}

/// Storage in a bucket of an S3-compatible store.
#[derive(Debug)]
pub struct S3Storage {
    pub base_dir: String,
    pub path_prefix: String,
    pub safe_chars: SafeCharsType,
    pub bucket: String,
}

/// Storage in a bucket of a cloud blob store.
#[derive(Debug)]
pub struct GCloudStorage {
    pub base_dir: String,
    pub path_prefix: String,
    pub safe_chars: SafeCharsType,
    pub bucket: String,
}

/// The path of a key in a file store: base directory, prefix and the safe
/// form of the key, with `/` between them.
pub open spec fn file_path(
    base_dir: Seq<char>,
    path_prefix: Seq<char>,
    safe_chars: SafeCharsType,
    key: Seq<char>,
) -> Seq<char> {
    base_dir + "/"@ + path_prefix + "/"@ + normalized(key, safe_chars)
}

/// The name of a key in an object store: prefix, `/`, and the safe form of
/// the key.
pub open spec fn object_path(path_prefix: Seq<char>, safe_chars: SafeCharsType, key: Seq<char>) -> Seq<
    char,
> {
    path_prefix + "/"@ + normalized(key, safe_chars)
}

/// The name of a key in an object store.
fn object_name(path_prefix: &str, safe_chars: &SafeCharsType, key: &str) -> (r: String)
    ensures
        r@ == object_path(path_prefix@, *safe_chars, key@),
{
    let safe_key = normalize(key, safe_chars);
    let mut out: Vec<char> = Vec::new();
    push_str(&mut out, path_prefix);
    push_str(&mut out, "/");
    push_str(&mut out, safe_key.as_str());
    string_of(&out)
}

impl FileStorage {
    pub fn new(base_dir: String, path_prefix: String, safe_chars: SafeCharsType) -> (r: FileStorage)
        ensures
            r.base_dir == base_dir,
            r.path_prefix == path_prefix,
            r.safe_chars == safe_chars,
    {
        FileStorage { base_dir, path_prefix, safe_chars }
    }

    /// The path of the file that holds `key`.
    pub fn get_full_path(&self, key: &str) -> (r: String)
        ensures
            r@ == file_path(self.base_dir@, self.path_prefix@, self.safe_chars, key@),
    {
        let safe_key = normalize(key, &self.safe_chars);
        let mut out: Vec<char> = Vec::new();
        push_str(&mut out, self.base_dir.as_str());
        push_str(&mut out, "/");
        push_str(&mut out, self.path_prefix.as_str());
        push_str(&mut out, "/");
        push_str(&mut out, safe_key.as_str());
        string_of(&out)
    }
}

impl S3Storage {
    pub fn new(
        base_dir: String,
        path_prefix: String,
        safe_chars: SafeCharsType,
        bucket: String,
    ) -> (r: S3Storage)
        ensures
            r.base_dir == base_dir,
            r.path_prefix == path_prefix,
            r.safe_chars == safe_chars,
            r.bucket == bucket,
    {
        S3Storage { base_dir, path_prefix, safe_chars, bucket }
    }

    /// The name of the object that holds `key`.
    pub fn get_full_path(&self, key: &str) -> (r: String)
        ensures
            r@ == object_path(self.path_prefix@, self.safe_chars, key@),
    {
        object_name(self.path_prefix.as_str(), &self.safe_chars, key)
    }
}

impl GCloudStorage {
    pub fn new(
        base_dir: String,
        path_prefix: String,
        safe_chars: SafeCharsType,
        bucket: String,
    ) -> (r: GCloudStorage)
        ensures
            r.base_dir == base_dir,
            r.path_prefix == path_prefix,
            r.safe_chars == safe_chars,
            r.bucket == bucket,
    {
        GCloudStorage { base_dir, path_prefix, safe_chars, bucket }
    }

    /// The name of the object that holds `key`.
    pub fn get_full_path(&self, key: &str) -> (r: String)
        ensures
            r@ == object_path(self.path_prefix@, self.safe_chars, key@),
    {
        object_name(self.path_prefix.as_str(), &self.safe_chars, key)
    }
}

/// What to do after an attempt to reach the store at start-up.
#[derive(Debug, Clone, Copy, PartialEq, Eq, Structural)]
pub enum ConnectStep {
    /// The store answered: go on.
    Ready,
    /// The store did not answer, and attempts are left: wait, then try again.
    Retry,
    /// The store did not answer the last attempt: give up.
    GiveUp,
}

/// What follows attempt number `attempt` (counted from zero) out of
/// `max_retries`.
pub open spec fn connect_step(attempt: u32, max_retries: u32, connected: bool) -> ConnectStep {
    if connected {
        ConnectStep::Ready
    } else if attempt + 1 < max_retries {
        ConnectStep::Retry
    } else {
        ConnectStep::GiveUp
    }
}

/// Decides what follows an attempt to reach the store.
pub fn next_connect_step(attempt: u32, max_retries: u32, connected: bool) -> (r: ConnectStep)
    ensures
        r == connect_step(attempt, max_retries, connected),
{
    if connected {
        ConnectStep::Ready
    } else if attempt < max_retries && attempt + 1 < max_retries {
        ConnectStep::Retry
    } else {
        ConnectStep::GiveUp
    }
}

} // verus!
