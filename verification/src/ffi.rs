//! What crosses the C ABI, once pointers have been followed.
//!
//! A null pointer is `None` here, and a C string the bytes before its NUL.

use vstd::prelude::*;
use vstd::utf8::*;

use crate::cache;
use crate::cache::{CacheConfig, CacheConfigView, CacheStats};
use crate::error;
use crate::error::{Error, ErrorCode, ErrorView, Result};
use crate::error_struct;
use crate::flags::FileOpenFlags;
use crate::fs::{S3StorageConfig, SlateDbAccessMode, SlateDbFileSystem};
use crate::text;
use crate::text::{escape_nul, join2};

verus! {

/// Where errors say that they come from if they come from here.
pub const HERE: &'static str = "src/ffi.rs";

/// The database that every filesystem made across the C ABI opens.
pub const DATABASE_PATH: &'static str = "duckdb-object-storage";

/// Flags for opening a file; a flag is set unless it is zero.
#[derive(Clone, Copy, Debug, PartialEq, Eq, Structural)]
pub struct FfiOpenOptions {
    /// Open the file for reads.
    pub read: i32,
    /// Open the file for writes.
    pub write: i32,
    /// Create the file when it does not exist.
    pub create: i32,
    /// Position sequential writes at the end of the file.
    pub append: i32,
    /// Clear an existing file when it is opened.
    pub truncate_existing: i32,
}

/// An S3 configuration; texts that are missing or empty are not configured.
#[derive(Debug)]
pub struct FfiS3Config {
    /// S3 bucket that stores SlateDB objects.
    pub bucket: Option<Vec<u8>>,
    /// Prefix within the bucket reserved for this filesystem.
    pub root: Option<Vec<u8>>,
    /// Optional S3-compatible service endpoint.
    pub endpoint: Option<Vec<u8>>,
    /// AWS region used to sign S3 requests.
    pub region: Option<Vec<u8>>,
    /// Optional access-key identifier.
    pub key_id: Option<Vec<u8>>,
    /// Optional secret access key.
    pub secret: Option<Vec<u8>>,
    /// Optional temporary-credential session token.
    pub session_token: Option<Vec<u8>>,
    /// Whether the endpoint should use HTTPS.
    pub use_ssl: i32,
    /// Whether S3 requests should use virtual-host-style addressing.
    pub virtual_host_style: i32,
}

/// A cache configuration.
#[derive(Debug)]
pub struct FfiCacheConfig {
    /// Maximum bytes retained in the in-memory data-block cache; zero disables it.
    pub block_cache_size_bytes: u64,
    /// Maximum bytes retained in the in-memory SST metadata cache; zero disables it.
    pub metadata_cache_size_bytes: u64,
    /// Number of cache shards; zero selects an implementation default.
    pub cache_shards: u64,
    /// Local directory for persistent cached SST parts; empty disables persistence.
    pub persistent_cache_path: Option<Vec<u8>>,
    /// Maximum total size of the persistent cache.
    pub persistent_cache_size_bytes: u64,
    /// Size of each persistent cache part; must be a multiple of 1024 bytes.
    pub persistent_cache_part_size_bytes: u64,
    /// Whether memtable flush output should be inserted into the persistent cache.
    pub persistent_cache_on_flush: i32,
    /// Whether compaction output should be inserted into the persistent cache.
    pub persistent_cache_on_compaction: i32,
}

/// How a database is opened.
#[derive(Clone, Copy, Debug, PartialEq, Eq, Structural)]
pub struct FfiDatabaseConfig {
    /// Open the SlateDB database without acquiring a writer epoch.
    pub read_only: i32,
}

/// How the caches have done so far.
#[derive(Clone, Copy, Debug, PartialEq, Eq, Structural)]
pub struct FfiCacheStats {
    /// Successful in-memory data-block cache lookups.
    pub block_cache_hits: u64,
    /// Unsuccessful in-memory data-block cache lookups.
    pub block_cache_misses: u64,
    /// Successful in-memory metadata cache lookups.
    pub metadata_cache_hits: u64,
    /// Unsuccessful in-memory metadata cache lookups.
    pub metadata_cache_misses: u64,
    /// Successful persistent cache part lookups.
    pub persistent_cache_hits: u64,
    /// Unsuccessful persistent cache part lookups.
    pub persistent_cache_misses: u64,
    /// Current number of persistent cache entries.
    pub persistent_cache_entries: u64,
    /// Current persistent cache size.
    pub persistent_cache_size_bytes: u64,
    /// Number of persistent cache entries evicted.
    pub persistent_cache_evictions: u64,
    /// Number of persistent cache bytes evicted.
    pub persistent_cache_evicted_bytes: u64,
}

impl FfiCacheStats {
    /// Lays statistics out for the C ABI.
    pub fn new(stats: CacheStats) -> (r: Self)
        ensures
            r == (FfiCacheStats {
                block_cache_hits: stats.block_cache_hits,
                block_cache_misses: stats.block_cache_misses,
                metadata_cache_hits: stats.metadata_cache_hits,
                metadata_cache_misses: stats.metadata_cache_misses,
                persistent_cache_hits: stats.persistent_cache_hits,
                persistent_cache_misses: stats.persistent_cache_misses,
                persistent_cache_entries: stats.persistent_cache_entries,
                persistent_cache_size_bytes: stats.persistent_cache_size_bytes,
                persistent_cache_evictions: stats.persistent_cache_evictions,
                persistent_cache_evicted_bytes: stats.persistent_cache_evicted_bytes,
            }),
    {
        FfiCacheStats {
            block_cache_hits: stats.block_cache_hits,
            block_cache_misses: stats.block_cache_misses,
            metadata_cache_hits: stats.metadata_cache_hits,
            metadata_cache_misses: stats.metadata_cache_misses,
            persistent_cache_hits: stats.persistent_cache_hits,
            persistent_cache_misses: stats.persistent_cache_misses,
            persistent_cache_entries: stats.persistent_cache_entries,
            persistent_cache_size_bytes: stats.persistent_cache_size_bytes,
            persistent_cache_evictions: stats.persistent_cache_evictions,
            persistent_cache_evicted_bytes: stats.persistent_cache_evicted_bytes,
        }
    }
}

/// The error for a null pointer.
pub open spec fn null_error(name: Seq<char>) -> ErrorView {
    error::invalid_argument_error(name + " must not be null"@, HERE@)
}

/// The error for a text that is not UTF-8.
pub open spec fn not_utf8_error(name: Seq<char>) -> ErrorView {
    error::invalid_argument_error(name + " must be valid UTF-8"@, HERE@)
}

/// Rejects a null pointer.
pub fn require_pointer(is_null: bool, name: &str) -> (r: Result<()>)
    ensures
        r is Ok <==> !is_null,
        r matches Err(e) ==> e@ == null_error(name@),
{
    if is_null {
        return Err(Error::invalid_argument(join2(name, " must not be null"), HERE));
    }
    Ok(())
}

/// Rejects a null buffer, unless nothing is to be transferred.
pub fn require_buffer(is_null: bool, len: usize, name: &str) -> (r: Result<()>)
    ensures
        r is Ok <==> !is_null || len == 0,
        r matches Err(e) ==> e@ == null_error(name@),
{
    require_pointer(is_null && len != 0, name)
}

/// Reads a text that has to be there.
pub fn require_path<'a>(path: Option<&'a [u8]>, name: &str) -> (r: Result<&'a str>)
    ensures
        r is Ok <==> (path matches Some(bytes) && valid_utf8(bytes@)),
        r matches Ok(text) ==> encode_utf8(text@) == path->0@,
        r matches Err(e) ==> e@ == if path is None {
            null_error(name@)
        } else {
            not_utf8_error(name@)
        },
{
    match path {
        None => Err(Error::invalid_argument(join2(name, " must not be null"), HERE)),
        Some(bytes) => match std::str::from_utf8(bytes) {
            Ok(text) => Ok(text),
            Err(_) => Err(Error::invalid_argument(join2(name, " must be valid UTF-8"), HERE)),
        },
    }
}

/// A text that is missing or empty is not configured.
pub open spec fn configured_text(value: Option<Vec<u8>>) -> Option<Seq<char>> {
    match value {
        Some(bytes) => if bytes@.len() == 0 {
            None
        } else {
            Some(decode_utf8(bytes@))
        },
        None => None,
    }
}

/// Whether a text is missing or can be read.
pub open spec fn text_readable(value: Option<Vec<u8>>) -> bool {
    value matches Some(bytes) ==> valid_utf8(bytes@)
}

/// Reads a text that need not be configured.
pub fn optional_string(value: &Option<Vec<u8>>, name: &str) -> (r: Result<Option<String>>)
    ensures
        r is Ok <==> text_readable(*value),
        r matches Ok(text) ==> cache::text_of(text) == configured_text(*value),
        r matches Err(e) ==> e@ == not_utf8_error(name@),
{
    match value {
        None => Ok(None),
        Some(bytes) => match std::str::from_utf8(bytes.as_slice()) {
            Ok(text) => {
                proof {
                    encode_utf8_decode_utf8(text@);
                    texts_take_room(text@);
                }
                if text.is_empty() {
                    Ok(None)
                } else {
                    Ok(Some(text.to_string()))
                }
            },
            Err(_) => Err(Error::invalid_argument(join2(name, " must be valid UTF-8"), HERE)),
        },
    }
}

/// A text takes room exactly if it is not empty.
pub proof fn texts_take_room(text: Seq<char>)
    ensures
        text.len() == 0 <==> encode_utf8(text).len() == 0,
{
    if text.len() > 0 {
        encode_utf8_first_scalar(text);
    }
}

/// Why an S3 configuration cannot be read, if it cannot.
pub open spec fn s3_read_error(config: FfiS3Config) -> Option<ErrorView> {
    if config.bucket is None {
        Some(null_error("S3 bucket"@))
    } else if !text_readable(config.bucket) {
        Some(not_utf8_error("S3 bucket"@))
    } else if !text_readable(config.root) {
        Some(not_utf8_error("S3 root"@))
    } else if !text_readable(config.endpoint) {
        Some(not_utf8_error("S3 endpoint"@))
    } else if !text_readable(config.region) {
        Some(not_utf8_error("S3 region"@))
    } else if !text_readable(config.key_id) {
        Some(not_utf8_error("S3 key ID"@))
    } else if !text_readable(config.secret) {
        Some(not_utf8_error("S3 secret"@))
    } else if !text_readable(config.session_token) {
        Some(not_utf8_error("S3 session token"@))
    } else {
        None
    }
}

/// Reads an S3 configuration.
pub fn require_s3_config(config: Option<&FfiS3Config>) -> (r: Result<S3StorageConfig>)
    ensures
        r is Ok <==> (config matches Some(config) && s3_read_error(*config) is None),
        r matches Ok(read) ==> {
            let config = *config->0;
            &&& read.bucket@ == decode_utf8(config.bucket->0@)
            &&& cache::text_of(read.root) == configured_text(config.root)
            &&& cache::text_of(read.endpoint) == configured_text(config.endpoint)
            &&& cache::text_of(read.region) == configured_text(config.region)
            &&& cache::text_of(read.key_id) == configured_text(config.key_id)
            &&& cache::text_of(read.secret) == configured_text(config.secret)
            &&& cache::text_of(read.session_token) == configured_text(config.session_token)
            &&& read.use_ssl == (config.use_ssl != 0)
            &&& read.virtual_host_style == (config.virtual_host_style != 0)
        },
        r matches Err(e) ==> e@ == match config {
            None => null_error("S3 config"@),
            Some(config) => s3_read_error(*config)->0,
        },
{
    let config = match config {
        Some(config) => config,
        None => {
            return Err(Error::invalid_argument(join2("S3 config", " must not be null"), HERE));
        },
    };
    let bucket_bytes: Option<&[u8]> = match &config.bucket {
        Some(bytes) => Some(bytes.as_slice()),
        None => None,
    };
    let bucket = match require_path(bucket_bytes, "S3 bucket") {
        Ok(bucket) => bucket,
        Err(error) => {
            return Err(error);
        },
    };
    proof {
        encode_utf8_decode_utf8(bucket@);
    }
    let root = match optional_string(&config.root, "S3 root") {
        Ok(text) => text,
        Err(error) => {
            return Err(error);
        },
    };
    let endpoint = match optional_string(&config.endpoint, "S3 endpoint") {
        Ok(text) => text,
        Err(error) => {
            return Err(error);
        },
    };
    let region = match optional_string(&config.region, "S3 region") {
        Ok(text) => text,
        Err(error) => {
            return Err(error);
        },
    };
    let key_id = match optional_string(&config.key_id, "S3 key ID") {
        Ok(text) => text,
        Err(error) => {
            return Err(error);
        },
    };
    let secret = match optional_string(&config.secret, "S3 secret") {
        Ok(text) => text,
        Err(error) => {
            return Err(error);
        },
    };
    let session_token = match optional_string(&config.session_token, "S3 session token") {
        Ok(text) => text,
        Err(error) => {
            return Err(error);
        },
    };
    Ok(
        S3StorageConfig {
            bucket: bucket.to_string(),
            root,
            endpoint,
            region,
            key_id,
            secret,
            session_token,
            use_ssl: config.use_ssl != 0,
            virtual_host_style: config.virtual_host_style != 0,
        },
    )
}

/// Why a cache configuration cannot be used, if it cannot.
pub open spec fn cache_config_error(config: FfiCacheConfig) -> Option<ErrorView> {
    let persists = configured_text(config.persistent_cache_path) is Some;
    if !text_readable(config.persistent_cache_path) {
        Some(not_utf8_error("persistent cache path"@))
    } else if config.persistent_cache_size_bytes > usize::MAX {
        Some(
            error::invalid_argument_error(
                "persistent cache size does not fit this platform"@,
                HERE@,
            ),
        )
    } else if config.persistent_cache_part_size_bytes > usize::MAX {
        Some(
            error::invalid_argument_error(
                "persistent cache part size does not fit this platform"@,
                HERE@,
            ),
        )
    } else if persists && config.persistent_cache_size_bytes == 0 {
        Some(error::invalid_argument_error(
            "persistent cache size must be greater than zero"@,
            HERE@,
        ))
    } else if persists && (config.persistent_cache_part_size_bytes == 0
        || config.persistent_cache_part_size_bytes % 1024 != 0) {
        Some(
            error::invalid_argument_error(
                "persistent cache part size must be a non-zero multiple of 1024 bytes"@,
                HERE@,
            ),
        )
    } else if config.cache_shards > usize::MAX {
        Some(error::invalid_argument_error("cache shard count does not fit this platform"@, HERE@))
    } else {
        None
    }
}

/// The cache configuration that one across the C ABI says.
pub open spec fn cache_config_said(config: FfiCacheConfig) -> CacheConfigView {
    CacheConfigView {
        block_cache_size_bytes: config.block_cache_size_bytes,
        metadata_cache_size_bytes: config.metadata_cache_size_bytes,
        cache_shards: if config.cache_shards == 0 {
            None
        } else {
            Some(config.cache_shards as usize)
        },
        persistent_cache_path: configured_text(config.persistent_cache_path),
        persistent_cache_size_bytes: config.persistent_cache_size_bytes as usize,
        persistent_cache_part_size_bytes: config.persistent_cache_part_size_bytes as usize,
        persistent_cache_on_flush: config.persistent_cache_on_flush != 0,
        persistent_cache_on_compaction: config.persistent_cache_on_compaction != 0,
    }
}

/// Reads a cache configuration; without one, the default holds.
pub fn parse_cache_config(config: Option<&FfiCacheConfig>) -> (r: Result<CacheConfig>)
    ensures
        r is Ok <==> (config matches Some(config) ==> cache_config_error(*config) is None),
        r matches Ok(read) ==> read@ == match config {
            None => cache::default_config(),
            Some(config) => cache_config_said(*config),
        },
        r matches Err(e) ==> config is Some && e@ == cache_config_error(*config->0)->0,
{
    let config = match config {
        Some(config) => config,
        None => {
            return Ok(CacheConfig::default());
        },
    };
    let persistent_cache_path = match optional_string(
        &config.persistent_cache_path,
        "persistent cache path",
    ) {
        Ok(path) => path,
        Err(error) => {
            return Err(error);
        },
    };
    if config.persistent_cache_size_bytes > usize::MAX as u64 {
        return Err(
            Error::invalid_argument(
                "persistent cache size does not fit this platform".to_string(),
                HERE,
            ),
        );
    }
    if config.persistent_cache_part_size_bytes > usize::MAX as u64 {
        return Err(
            Error::invalid_argument(
                "persistent cache part size does not fit this platform".to_string(),
                HERE,
            ),
        );
    }
    if persistent_cache_path.is_some() {
        if config.persistent_cache_size_bytes == 0 {
            return Err(
                Error::invalid_argument(
                    "persistent cache size must be greater than zero".to_string(),
                    HERE,
                ),
            );
        }
        if config.persistent_cache_part_size_bytes == 0 || config.persistent_cache_part_size_bytes
            % 1024 != 0 {
            return Err(
                Error::invalid_argument(
                    "persistent cache part size must be a non-zero multiple of 1024 bytes".to_string(),
                    HERE,
                ),
            );
        }
    }
    if config.cache_shards > usize::MAX as u64 {
        return Err(
            Error::invalid_argument(
                "cache shard count does not fit this platform".to_string(),
                HERE,
            ),
        );
    }
    let cache_shards = if config.cache_shards == 0 {
        None
    } else {
        Some(config.cache_shards as usize)
    };
    Ok(
        CacheConfig {
            block_cache_size_bytes: config.block_cache_size_bytes,
            metadata_cache_size_bytes: config.metadata_cache_size_bytes,
            cache_shards,
            persistent_cache_path,
            persistent_cache_size_bytes: config.persistent_cache_size_bytes as usize,
            persistent_cache_part_size_bytes: config.persistent_cache_part_size_bytes as usize,
            persistent_cache_on_flush: config.persistent_cache_on_flush != 0,
            persistent_cache_on_compaction: config.persistent_cache_on_compaction != 0,
        },
    )
}

/// Reads the flags a file is opened with.
pub fn require_options(options: Option<&FfiOpenOptions>) -> (r: Result<FileOpenFlags>)
    ensures
        r is Ok <==> options is Some,
        r matches Ok(flags) ==> flags == (FileOpenFlags {
            read: options->0.read != 0,
            write: options->0.write != 0,
            create: options->0.create != 0,
            append: options->0.append != 0,
            truncate_existing: options->0.truncate_existing != 0,
        }),
        r matches Err(e) ==> e@ == null_error("open options"@),
{
    match options {
        Some(options) => Ok(
            FileOpenFlags {
                read: options.read != 0,
                write: options.write != 0,
                create: options.create != 0,
                append: options.append != 0,
                truncate_existing: options.truncate_existing != 0,
            },
        ),
        None => Err(Error::invalid_argument(join2("open options", " must not be null"), HERE)),
    }
}

/// Reads how a database is to be opened.
pub fn require_database_config(config: Option<&FfiDatabaseConfig>) -> (r: Result<SlateDbAccessMode>)
    ensures
        r is Ok <==> (config matches Some(config) && 0 <= config.read_only <= 1),
        r matches Ok(mode) ==> mode == if config->0.read_only == 0 {
            SlateDbAccessMode::ReadWrite
        } else {
            SlateDbAccessMode::ReadOnly
        },
        r matches Err(e) ==> e@ == if config is None {
            null_error("database config"@)
        } else {
            error::invalid_argument_error("database config read_only must be 0 or 1"@, HERE@)
        },
{
    match config {
        Some(config) => match config.read_only {
            0 => Ok(SlateDbAccessMode::ReadWrite),
            1 => Ok(SlateDbAccessMode::ReadOnly),
            _ => Err(
                Error::invalid_argument(
                    "database config read_only must be 0 or 1".to_string(),
                    HERE,
                ),
            ),
        },
        None => Err(Error::invalid_argument(join2("database config", " must not be null"), HERE)),
    }
}

/// Reads the directory that a local database lives in.
pub fn require_local_root<'a>(root: Option<&'a [u8]>) -> (r: Result<&'a str>)
    ensures
        r is Ok <==> (root matches Some(bytes) && valid_utf8(bytes@) && bytes@.len() > 0),
        r matches Ok(text) ==> encode_utf8(text@) == root->0@,
        r matches Err(e) ==> e@ == if root is None {
            null_error("local root"@)
        } else if !valid_utf8(root->0@) {
            not_utf8_error("local root"@)
        } else {
            error::invalid_argument_error("local root must not be empty"@, HERE@)
        },
{
    let text = match require_path(root, "local root") {
        Ok(text) => text,
        Err(error) => {
            return Err(error);
        },
    };
    proof {
        texts_take_room(text@);
    }
    if text.is_empty() {
        return Err(Error::invalid_argument("local root must not be empty".to_string(), HERE));
    }
    Ok(text)
}

/// The error for a handle whose lock a panic left poisoned.
pub fn handle_poisoned() -> (r: Error)
    ensures
        r@ == error::invalid_argument_error("file handle lock is poisoned"@, HERE@),
{
    Error::invalid_argument("file handle lock is poisoned".to_string(), HERE)
}

/// The error for a handle that is closed.
pub fn handle_closed() -> (r: Error)
    ensures
        r@ == error::invalid_argument_error("file handle is closed"@, HERE@),
{
    Error::invalid_argument("file handle is closed".to_string(), HERE)
}

/// Whether DuckDB is to route a path to a filesystem: 1 or 0. Nothing is routed
/// where either is missing or the path is no text.
pub fn can_handle(fs: Option<&SlateDbFileSystem>, path: Option<&[u8]>) -> (r: i32)
    ensures
        r == if fs is Some && path is Some && valid_utf8(path->0@) && text::has_head(
            decode_utf8(path->0@),
            "duckdb_objfs:"@,
        ) {
            1int
        } else {
            0int
        },
{
    match (fs, path) {
        (Some(fs), Some(bytes)) => match std::str::from_utf8(bytes) {
            Ok(path) => {
                proof {
                    encode_utf8_decode_utf8(path@);
                }
                if fs.can_handle(path) {
                    1
                } else {
                    0
                }
            },
            Err(_) => 0,
        },
        _ => 0,
    }
}

/// How an operation that was called across the C ABI ended.
#[derive(Debug)]
pub enum FfiOutcome {
    Returned(Result<()>),
    /// It panicked with this message, if with any that can be shown.
    Panicked(Option<String>),
}

/// What a caller across the C ABI gets: a code, and for a failure the text of it.
#[derive(Debug)]
pub struct FfiReply {
    pub code: i32,
    /// Free of NUL, so that it can be handed on as a C string.
    pub message: Option<String>,
}

/// The error for a panic.
pub open spec fn panic_error(message: Option<Seq<char>>) -> ErrorView {
    error::invalid_argument_error(
        "Rust panic while handling FFI call: "@ + match message {
            Some(message) => message,
            None => "unknown Rust panic"@,
        },
        HERE@,
    )
}

/// Whether `reply` reports `error`: its code, and its text with every NUL
/// escaped. The text of an error without cause is fixed; that of one with a
/// cause holds the cause's own words.
pub open spec fn reports(reply: FfiReply, error: ErrorView) -> bool {
    &&& reply.code == error.code.number()
    &&& reply.message is Some
    &&& error.source is None ==> reply.message->0@ == text::nul_escaped(
        error_struct::rendered(error.message, error.status, error.location, None),
    )
    &&& error.source matches Some(source) ==> exists|cause: Seq<char>|
        error_struct::worded_as(*source, cause) && reply.message->0@ == text::nul_escaped(
            #[trigger] error_struct::rendered_with_cause(
                error.message,
                error.status,
                error.location,
                cause,
            ),
        )
}

/// Reports an error.
pub fn store_error(error: &Error) -> (r: FfiReply)
    ensures
        reports(r, error@),
{
    let text = error.to_string();
    FfiReply { code: error.code().as_i32(), message: Some(escape_nul(text.as_str())) }
}

/// Turns the end of an operation into what the caller gets.
pub fn ffi_result(outcome: FfiOutcome) -> (r: FfiReply)
    ensures
        match outcome {
            FfiOutcome::Returned(Ok(())) => r.code == 0 && r.message is None,
            FfiOutcome::Returned(Err(error)) => reports(r, error@),
            FfiOutcome::Panicked(message) => reports(r, panic_error(cache::text_of(message))),
        },
{
    match outcome {
        FfiOutcome::Returned(Ok(())) => FfiReply { code: 0, message: None },
        FfiOutcome::Returned(Err(error)) => store_error(&error),
        FfiOutcome::Panicked(message) => {
            let words = match message {
                Some(message) => join2(
                    "Rust panic while handling FFI call: ",
                    message.as_str(),
                ),
                None => join2("Rust panic while handling FFI call: ", "unknown Rust panic"),
            };
            store_error(&Error::invalid_argument(words, HERE))
        },
    }
}

/// A reply is a success exactly if its code is zero, and its text can be handed
/// on as a C string.
pub proof fn replies_tell_success_from_failure(reply: FfiReply, error: ErrorView, k: int)
    requires
        reports(reply, error),
    ensures
        reply.code != 0,
        0 <= k < reply.message->0@.len() ==> reply.message->0@[k] != '\0',
{
    if 0 <= k < reply.message->0@.len() {
        if error.source is None {
            text::escaped_text_holds_no_nul(
                error_struct::rendered(error.message, error.status, error.location, None),
                k,
            );
        } else {
            let cause = choose|cause: Seq<char>|
                error_struct::worded_as(*error.source->0, cause) && reply.message->0@
                    == text::nul_escaped(
                    #[trigger] error_struct::rendered_with_cause(
                        error.message,
                        error.status,
                        error.location,
                        cause,
                    ),
                );
            text::escaped_text_holds_no_nul(
                error_struct::rendered_with_cause(
                    error.message,
                    error.status,
                    error.location,
                    cause,
                ),
                k,
            );
        }
    }
}

/// A cache configuration is refused exactly if its path is no text, a size or the number
/// of shards does not fit this platform, or what is to be kept on disk has no room or
/// parts that are not a multiple of a kilobyte.
pub proof fn cache_configurations_are_accepted_unless_they_cannot_be_used(config: FfiCacheConfig)
    ensures
        cache_config_error(config) is None <==> {
            let persists = config.persistent_cache_path matches Some(path) && path@.len() > 0;
            &&& config.persistent_cache_path matches Some(path) ==> valid_utf8(path@)
            &&& config.persistent_cache_size_bytes <= usize::MAX
            &&& config.persistent_cache_part_size_bytes <= usize::MAX
            &&& config.cache_shards <= usize::MAX
            &&& persists ==> config.persistent_cache_size_bytes > 0
            &&& persists ==> config.persistent_cache_part_size_bytes > 0
                && config.persistent_cache_part_size_bytes as int % 1024 == 0
        },
{
}

/// A cache configuration is read as it was given: numbers and switches as they are, zero
/// shards as the default, and an empty or missing path as none.
pub proof fn cache_configurations_are_read_as_given(config: FfiCacheConfig, path: Seq<char>)
    requires
        cache_config_error(config) is None,
    ensures
        ({
            let read = cache_config_said(config);
            &&& read.block_cache_size_bytes == config.block_cache_size_bytes
            &&& read.metadata_cache_size_bytes == config.metadata_cache_size_bytes
            &&& read.cache_shards is None <==> config.cache_shards == 0
            &&& read.cache_shards matches Some(shards) ==> shards == config.cache_shards
            &&& read.persistent_cache_size_bytes == config.persistent_cache_size_bytes
            &&& read.persistent_cache_part_size_bytes == config.persistent_cache_part_size_bytes
            &&& read.persistent_cache_on_flush <==> config.persistent_cache_on_flush != 0
            &&& read.persistent_cache_on_compaction <==> config.persistent_cache_on_compaction != 0
            &&& config.persistent_cache_path is None ==> read.persistent_cache_path is None
            &&& config.persistent_cache_path matches Some(bytes) ==> (bytes@ == encode_utf8(path)
                ==> read.persistent_cache_path == if path.len() == 0 {
                None
            } else {
                Some(path)
            })
        }),
{
    if let Some(bytes) = config.persistent_cache_path {
        if bytes@ == encode_utf8(path) {
            encode_utf8_decode_utf8(path);
            texts_take_room(path);
        }
    }
}

/// A text that need not be configured reads as itself, and an empty or missing one as
/// none. Only bytes that are no text are refused.
pub proof fn configured_texts_read_back(value: Option<Vec<u8>>, text: Seq<char>)
    ensures
        value is None ==> configured_text(value) is None && text_readable(value),
        value matches Some(bytes) ==> (bytes@ == encode_utf8(text) ==> text_readable(value)
            && configured_text(value) == if text.len() == 0 {
            None
        } else {
            Some(text)
        }),
        value matches Some(bytes) ==> (!valid_utf8(bytes@) ==> !text_readable(value)),
{
    if let Some(bytes) = value {
        if bytes@ == encode_utf8(text) {
            encode_utf8_valid_utf8(text);
            encode_utf8_decode_utf8(text);
            texts_take_room(text);
        }
    }
}

/// An S3 configuration can be read exactly if it names a bucket and each of its texts is
/// one.
pub proof fn s3_configurations_are_read_unless_they_are_no_text(config: FfiS3Config)
    ensures
        s3_read_error(config) is None <==> {
            &&& config.bucket matches Some(bytes) && valid_utf8(bytes@)
            &&& config.root matches Some(bytes) ==> valid_utf8(bytes@)
            &&& config.endpoint matches Some(bytes) ==> valid_utf8(bytes@)
            &&& config.region matches Some(bytes) ==> valid_utf8(bytes@)
            &&& config.key_id matches Some(bytes) ==> valid_utf8(bytes@)
            &&& config.secret matches Some(bytes) ==> valid_utf8(bytes@)
            &&& config.session_token matches Some(bytes) ==> valid_utf8(bytes@)
        },
        s3_read_error(config) matches Some(error) ==> error.code == ErrorCode::InvalidArgument,
{
}

} // verus!
