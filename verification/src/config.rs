//! The recognised settings and their defaults.

use vstd::prelude::*;
use crate::normalize::SafeCharsType;
use crate::strmap::{Pair, StringMap};
use crate::text::{ascii_lowered, chars_of, copy_of, is_text, lowered, push_str, string_of};

verus! {

/// The port the gateway listens on unless told otherwise.
pub const DEFAULT_PORT: u16 = 8080;

/// All settings of the gateway.
pub struct Settings {
    pub port: u16,
    pub application: ApplicationSettings,
    pub custom_tags: StringMap,
    pub processor: ProcessorSettings,
    pub storage: StorageSettings,
    pub cache: CacheSettings,
}

/// Where the gateway listens, and the secret it signs with.
pub struct ApplicationSettings {
    pub host: String,
    pub hmac_secret: String,
}

/// Limits of the processor.
pub struct ProcessorSettings {
    pub disabled_filters: Vec<String>,
    pub max_filter_ops: usize,
    pub concurrency: Option<usize>,
    pub max_cache_files: i32,
    pub max_cache_mem: i32,
    pub max_cache_size: i32,
}

/// Where sources and results are kept.
pub struct StorageSettings {
    pub base_dir: String,
    pub path_prefix: String,
    pub safe_chars: SafeCharsType,
    pub client: Option<StorageClient>,
}

/// A remote store, where one is used in place of the file system.
pub enum StorageClient {
    S3(S3Settings),
    GCS(GCSSettings),
}

/// An S3-compatible store.
pub struct S3Settings {
    pub region: String,
    pub bucket: String,
    pub endpoint: String,
    pub access_key: String,
    pub secret_key: String,
}

/// A cloud blob store.
pub struct GCSSettings {
    pub bucket: String,
}

/// Where responses are cached.
pub enum CacheSettings {
    Redis { uri: String },
    Filesystem(FilesystemCacheSettings),
}

/// A response cache in the file system.
pub struct FilesystemCacheSettings {
    pub base_dir: String,
}

/// The kind of deployment that is running.
#[derive(Debug, Clone, Copy, PartialEq, Eq, Structural)]
pub enum Environment {
    Local,
    Production,
}

/// The endpoint of an S3 store that names none.
pub fn default_s3_endpoint() -> (r: String)
    ensures
        r@ == "https://s3.amazonaws.com"@,
{
    copy_of("https://s3.amazonaws.com")
}

/// The port of a gateway that names none.
pub fn default_port() -> (r: u16)
    ensures
        r == 8080,
{
    DEFAULT_PORT
}

/// The directory of a storage that names none.
pub fn default_base_dir() -> (r: String)
    ensures
        r@ == "uploads"@,
{
    copy_of("uploads")
}

/// The directory of a file-system cache that names none.
pub fn default_cache_base_dir() -> (r: String)
    ensures
        r@ == "cache"@,
{
    copy_of("cache")
}

impl Default for ApplicationSettings {
    fn default() -> (r: ApplicationSettings)
        ensures
            r.host@ == "127.0.0.1"@,
            r.hmac_secret@ == "this-is-a-secret"@,
    {
        ApplicationSettings {
            host: copy_of("127.0.0.1"),
            hmac_secret: copy_of("this-is-a-secret"),
        }
    }
}

impl Default for ProcessorSettings {
    fn default() -> (r: ProcessorSettings)
        ensures
            r.disabled_filters@.len() == 0,
            r.max_filter_ops == 0,
            r.concurrency is None,
            r.max_cache_files == 0,
            r.max_cache_mem == 0,
            r.max_cache_size == 0,
    {
        ProcessorSettings {
            disabled_filters: Vec::new(),
            max_filter_ops: 0,
            concurrency: None,
            max_cache_files: 0,
            max_cache_mem: 0,
            max_cache_size: 0,
        }
    }
}

impl Default for StorageSettings {
    fn default() -> (r: StorageSettings)
        ensures
            r.base_dir@ == "uploads"@,
            r.path_prefix@.len() == 0,
            r.safe_chars == SafeCharsType::Default,
            r.client is None,
    {
        StorageSettings {
            base_dir: default_base_dir(),
            path_prefix: String::new(),
            safe_chars: SafeCharsType::Default,
            client: None,
        }
    }
}

impl Default for FilesystemCacheSettings {
    fn default() -> (r: FilesystemCacheSettings)
        ensures
            r.base_dir@ == "cache"@,
    {
        FilesystemCacheSettings { base_dir: default_cache_base_dir() }
    }
}

impl Default for CacheSettings {
    fn default() -> (r: CacheSettings)
        ensures
            r matches CacheSettings::Filesystem(f) && f.base_dir@ == "cache"@,
    {
        CacheSettings::Filesystem(FilesystemCacheSettings::default())
    }
}

impl Default for Settings {
    fn default() -> (r: Settings)
        ensures
            r.port == 8080,
            r.application.host@ == "127.0.0.1"@,
            r.custom_tags@ == Seq::<Pair>::empty(),
            r.processor.concurrency is None,
            r.storage.base_dir@ == "uploads"@,
            r.storage.client is None,
            r.cache matches CacheSettings::Filesystem(f) && f.base_dir@ == "cache"@,
    {
        Settings {
            port: default_port(),
            application: ApplicationSettings::default(),
            custom_tags: StringMap::new(),
            processor: ProcessorSettings::default(),
            storage: StorageSettings::default(),
            cache: CacheSettings::default(),
        }
    }
}

/// The environment that a name stands for, letter case aside.
pub open spec fn environment_named(name: Seq<char>) -> Option<Environment> {
    let l = ascii_lowered(name);
    if l == "local"@ {
        Some(Environment::Local)
    } else if l == "production"@ {
        Some(Environment::Production)
    } else {
        None
    }
}

impl Environment {
    /// The name of the environment.
    pub open spec fn name(self) -> Seq<char> {
        match self {
            Environment::Local => "local"@,
            Environment::Production => "production"@,
        }
    }

    /// The name of the environment.
    pub fn as_str(&self) -> (r: &'static str)
        ensures
            r@ == self.name(),
    {
        match self {
            Environment::Local => "local",
            Environment::Production => "production",
        }
    }

    /// Reads the name of an environment, letter case aside. Any other name
    /// is refused, with a message that quotes it in lower case.
    pub fn try_from(s: String) -> (r: Result<Environment, String>)
        ensures
            match environment_named(s@) {
                Some(e) => r == Ok::<Environment, String>(e),
                None => r matches Err(msg) && msg@ == ascii_lowered(s@)
                    + " is not a supported environment. Use either `local` or `production`"@,
            },
    {
        let name = chars_of(s.as_str());
        let l = lowered(&name);
        if is_text(&l, "local") {
            Ok(Environment::Local)
        } else if is_text(&l, "production") {
            Ok(Environment::Production)
        } else {
            let mut msg: Vec<char> = Vec::new();
            let shown = string_of(&l);
            push_str(&mut msg, shown.as_str());
            push_str(
                &mut msg,
                " is not a supported environment. Use either `local` or `production`",
            );
            Err(string_of(&msg))
        }
    }
}

/// Every environment is read back from its own name.
pub proof fn lemma_environment_round_trip(e: Environment)
    ensures
        environment_named(e.name()) == Some(e),
{
    reveal_strlit("local");
    reveal_strlit("production");
    assert(ascii_lowered(e.name()) =~= e.name());
    assert("local"@.len() != "production"@.len());
}

} // verus!
