//! The response cache: where entries live, and when they have expired.
//!
//! An entry of the file-system cache is a data file and, where the entry
//! has a time to live, a sibling file that holds the second of expiry as a
//! decimal numeral. Expired entries are not removed; they are no longer
//! handed out.

use vstd::prelude::*;
use crate::config::{CacheSettings, FilesystemCacheSettings};
use crate::number::{
    lemma_unsigned_round_trip, numeral, parse_unsigned, parsed_unsigned, push_numeral,
};
use crate::text::{chars_of, push_str, string_of};

verus! {

/// A response cache in a directory of the file system.
#[derive(Debug)]
pub struct FileSystemCache {
    pub base_path: String,
}

/// A response cache in a key-value store.
#[derive(Debug)]
pub struct RedisCache {
    pub uri: String,
}

/// A response cache of either kind.
#[derive(Debug)]
pub enum Cache {
    Redis(RedisCache),
    Filesystem(FileSystemCache),
}

/// A cached response: its bytes, and the second after which it is stale.
#[derive(Debug)]
pub struct CacheEntry {
    pub bytes: Vec<u8>,
    pub expiry: Option<u64>,
}

/// How a value is written to the key-value store.
#[derive(Debug, Clone, Copy, PartialEq, Eq, Structural)]
pub enum StoreCommand {
    /// `SET`: the value stays until it is deleted.
    Keep,
    /// `SETEX`: the value goes after the given number of seconds.
    Expire(u64),
}

/// The path of the data file of `key`.
pub open spec fn data_path(base: Seq<char>, key: Seq<char>) -> Seq<char> {
    base + "/"@ + key
}

/// The path of the expiry file of `key`.
pub open spec fn meta_path(base: Seq<char>, key: Seq<char>) -> Seq<char> {
    base + "/"@ + key + ".meta"@
}

/// Whether an entry has expired at second `now`, given what its expiry
/// file holds. No file, or one that holds no numeral, means no expiry.
pub open spec fn expired(meta: Option<Seq<char>>, now: nat) -> bool {
    match meta {
        Some(text) => match parsed_unsigned(text, u64::MAX as nat) {
            Some(expiry) => now > expiry,
            None => false,
        },
        None => false,
    }
}

/// The second of expiry of an entry written at `now` to live for `ttl`
/// seconds; it stops at the greatest second that can be written.
pub open spec fn expiry_of(now: nat, ttl: nat) -> nat {
    if now + ttl > u64::MAX {
        u64::MAX as nat
    } else {
        now + ttl
    }
}

/// What a lookup hands out at second `now`: the data, unless there is none
/// or the entry has expired.
pub open spec fn visible(data: Option<Seq<u8>>, meta: Option<Seq<char>>, now: nat) -> Option<
    Seq<u8>,
> {
    if data is Some && !expired(meta, now) {
        data
    } else {
        None
    }
}

impl FileSystemCache {
    /// The cache in the directory `base_path`.
    pub fn new(base_path: String) -> (r: FileSystemCache)
        ensures
            r.base_path == base_path,
    {
        FileSystemCache { base_path }
    }

    /// The path of the data file of `key`.
    pub fn get_file_path(&self, key: &str) -> (r: String)
        ensures
            r@ == data_path(self.base_path@, key@),
    {
        let mut out: Vec<char> = Vec::new();
        push_str(&mut out, self.base_path.as_str());
        push_str(&mut out, "/");
        push_str(&mut out, key);
        string_of(&out)
    }

    /// The path of the expiry file of `key`.
    pub fn get_meta_path(&self, key: &str) -> (r: String)
        ensures
            r@ == meta_path(self.base_path@, key@),
    {
        let mut out: Vec<char> = Vec::new();
        push_str(&mut out, self.base_path.as_str());
        push_str(&mut out, "/");
        push_str(&mut out, key);
        push_str(&mut out, ".meta");
        string_of(&out)
    }

    /// Whether an entry has expired at second `now`; `meta` is what its
    /// expiry file holds, if there is one.
    pub fn is_expired(meta: Option<&str>, now: u64) -> (r: bool)
        ensures
            r == expired(
                match meta {
                    Some(t) => Some(t@),
                    None => None,
                },
                now as nat,
            ),
    {
        match meta {
            Some(text) => {
                let c = chars_of(text);
                match parse_unsigned(&c, u64::MAX) {
                    Some(expiry) => now > expiry,
                    None => false,
                }
            },
            None => false,
        }
    }

    /// What a lookup hands out at second `now`: `data` is what the data
    /// file holds, `meta` what the expiry file holds, each if it is there.
    pub fn get(data: Option<Vec<u8>>, meta: Option<&str>, now: u64) -> (r: Option<Vec<u8>>)
        ensures
            match r {
                Some(bytes) => visible(
                    match data {
                        Some(d) => Some(d@),
                        None => None,
                    },
                    match meta {
                        Some(t) => Some(t@),
                        None => None,
                    },
                    now as nat,
                ) == Some(bytes@),
                None => visible(
                    match data {
                        Some(d) => Some(d@),
                        None => None,
                    },
                    match meta {
                        Some(t) => Some(t@),
                        None => None,
                    },
                    now as nat,
                ) is None,
            },
    {
        match data {
            Some(bytes) => {
                if FileSystemCache::is_expired(meta, now) {
                    None
                } else {
                    Some(bytes)
                }
            },
            None => None,
        }
    }

    /// What is written for an entry set at second `now`: the bytes, and the
    /// second of expiry where it has a time to live.
    pub fn set(value: Vec<u8>, ttl: Option<u64>, now: u64) -> (r: CacheEntry)
        ensures
            r.bytes@ == value@,
            match ttl {
                Some(d) => r.expiry == Some(expiry_of(now as nat, d as nat) as u64),
                None => r.expiry is None,
            },
    {
        let expiry = match ttl {
            Some(d) => Some(now.saturating_add(d)),
            None => None,
        };
        CacheEntry { bytes: value, expiry }
    }
}

impl CacheEntry {
    /// What the expiry file of the entry holds, if the entry has one.
    pub fn meta_text(&self) -> (r: Option<String>)
        ensures
            match self.expiry {
                Some(e) => r matches Some(t) && t@ == numeral(e as nat),
                None => r is None,
            },
    {
        match self.expiry {
            Some(e) => {
                let mut out: Vec<char> = Vec::new();
                push_numeral(&mut out, e);
                Some(string_of(&out))
            },
            None => None,
        }
    }
}

impl RedisCache {
    /// The cache behind the store at `uri`.
    pub fn new(uri: &str) -> (r: RedisCache)
        ensures
            r.uri@ == uri@,
    {
        RedisCache { uri: uri.to_owned() }
    }

    /// How a value is written: to expire where it has a time to live, to
    /// stay otherwise.
    pub fn set_command(ttl: Option<u64>) -> (r: StoreCommand)
        ensures
            r == match ttl {
                Some(d) => StoreCommand::Expire(d),
                None => StoreCommand::Keep,
            },
    {
        match ttl {
            Some(d) => StoreCommand::Expire(d),
            None => StoreCommand::Keep,
        }
    }
}

impl Cache {
    /// The cache that the settings ask for.
    pub fn new(config: CacheSettings) -> (r: Cache)
        ensures
            match config {
                CacheSettings::Redis { uri } => r matches Cache::Redis(c) && c.uri@ == uri@,
                CacheSettings::Filesystem(f) => r matches Cache::Filesystem(c) && c.base_path
                    == f.base_dir,
            },
    {
        match config {
            CacheSettings::Redis { uri } => Cache::Redis(RedisCache::new(uri.as_str())),
            CacheSettings::Filesystem(FilesystemCacheSettings { base_dir }) => Cache::Filesystem(
                FileSystemCache::new(base_dir),
            ),
        }
    }
}

/// An entry set at second `start` to live for `ttl` seconds is handed out
/// up to second `start + ttl` and no longer after it.
pub proof fn lemma_time_to_live(start: nat, ttl: nat, now: nat)
    requires
        start + ttl <= u64::MAX,
    ensures
        expired(Some(numeral(expiry_of(start, ttl))), now) == (now > start + ttl),
{
    lemma_unsigned_round_trip(start + ttl, u64::MAX as nat);
}

/// An entry without a time to live never expires.
pub proof fn lemma_no_expiry(now: nat)
    ensures
        !expired(None, now),
{
}

} // verus!
