//! The filesystem as DuckDB sees it: one database, read-write or read-only, and
//! the storage it lives on.

use slatedb::Error as SlateDbError;
use vstd::prelude::*;

use crate::batch::{Change, Mutation};
use crate::cache;
use crate::cache::{CacheConfig, CacheMetrics, CacheStats, DbCachePlan};
use crate::catalog;
use crate::catalog::{Plan, Reads, Step};
use crate::database_metadata;
use crate::database_metadata::{DatabaseMetadata, Resolution, ResolvedFile};
use crate::error;
use crate::error::{
    kind_of_slatedb_error, words_of_slatedb_error, Error, ErrorView, Result, SlateDbErrorKind,
};
use crate::file_handle;
use crate::file_handle::{FileHandle, SlateFileClient, SlateFileHandle};
use crate::flags;
use crate::flags::FileOpenFlags;
use crate::text;
use crate::text::join2;

verus! {

/// Where errors say that they come from if they come from here.
pub const HERE: &'static str = "src/fs.rs";

/// URL scheme claimed by this filesystem in DuckDB's virtual filesystem.
pub const PREFIX: &'static str = "duckdb_objfs:";

/// Name reported to DuckDB via `FileSystem::GetName`.
pub const NAME: &'static str = "SlateDBFileSystem";

/// How a database is opened.
#[derive(Clone, Copy, Debug, PartialEq, Eq, Structural)]
pub enum SlateDbAccessMode {
    ReadWrite,
    ReadOnly,
}

/// What kind of client a filesystem holds.
#[derive(Clone, Copy, Debug, PartialEq, Eq, Structural)]
pub enum SlateDbClient {
    ReadWrite,
    /// Read-only, with a database to read or without one.
    ReadOnly {
        found: bool,
    },
}

/// The error for anything asked of a filesystem that is closed.
pub open spec fn closed_error() -> ErrorView {
    error::invalid_argument_error("filesystem is closed"@, HERE@)
}

/// The error for a change asked of a read-only filesystem.
pub open spec fn read_only_fs_error(operation: Seq<char>) -> ErrorView {
    error::read_only_error("read-only SlateDB filesystem cannot "@ + operation, HERE@)
}

fn filesystem_closed() -> (r: Error)
    ensures
        r@ == closed_error(),
{
    Error::invalid_argument("filesystem is closed".to_string(), HERE)
}

fn read_only_violation(operation: &str) -> (r: Error)
    ensures
        r@ == read_only_fs_error(operation@),
{
    Error::read_only_violation(join2("read-only SlateDB filesystem cannot ", operation), HERE)
}

/// What to open a database with.
#[derive(Debug)]
pub struct OpenPlan {
    pub access_mode: SlateDbAccessMode,
    /// The in-memory caches to build, or `None` to disable them.
    pub db_cache: Option<DbCachePlan>,
    pub cache_config: CacheConfig,
}

/// The words SlateDB fails with where there is no database to read.
pub open spec fn no_database_words() -> Seq<char> {
    "failed to find latest transactional object"@
}

/// The client that a filesystem holds where a reader failed to open with an error
/// of a kind and these words: one without a database where there is none yet, which
/// is no failure, and else none.
pub fn client_without_reader(kind: SlateDbErrorKind, words: &str) -> (r: Option<SlateDbClient>)
    ensures
        r == if kind == SlateDbErrorKind::Data && text::has_part(words@, no_database_words()) {
            Some(SlateDbClient::ReadOnly { found: false })
        } else {
            None
        },
{
    match kind {
        SlateDbErrorKind::Data => {
            if text::contains(words, "failed to find latest transactional object") {
                Some(SlateDbClient::ReadOnly { found: false })
            } else {
                None
            }
        },
        _ => None,
    }
}

/// What a filesystem holds where a reader failed to open: a client without a
/// database where there is none yet, or the failure.
///
/// A failure that says itself that there is no database is one, and a failure that
/// does not is none, unless the words of whatever caused it say so.
pub fn settle_reader_failure(failure: SlateDbError) -> (r: Result<SlateDbClient>)
    ensures
        error::slatedb_error_kind(failure) == SlateDbErrorKind::Data && text::has_part(
            error::slatedb_error_head(failure),
            no_database_words(),
        ) ==> r is Ok,
        error::slatedb_error_kind(failure) != SlateDbErrorKind::Data ==> r is Err,
        !error::slatedb_error_is_caused(failure) && !text::has_part(
            error::slatedb_error_head(failure),
            no_database_words(),
        ) ==> r is Err,
        exists|words: Seq<char>| #[trigger]
            error::slatedb_error_worded(failure, words) && (r is Ok <==> (
            error::slatedb_error_kind(failure) == SlateDbErrorKind::Data && text::has_part(
                words,
                no_database_words(),
            ))),
        r matches Ok(client) ==> client == (SlateDbClient::ReadOnly { found: false }),
        r matches Err(e) ==> error::is_slatedb_failure(e, failure, HERE@),
{
    let kind = kind_of_slatedb_error(&failure);
    let words = words_of_slatedb_error(&failure);
    assert(error::slatedb_error_worded(failure, words@));
    proof {
        let head = error::slatedb_error_head(failure);
        if text::has_part(head, no_database_words()) {
            text::lemma_head_has_part(words@, head, no_database_words());
        }
    }
    match client_without_reader(kind, words.as_str()) {
        Some(client) => Ok(client),
        None => Err(Error::slatedb_failure(failure, HERE)),
    }
}

/// SlateDB-backed filesystem owner.
///
/// One live database is kept for the lifetime of the filesystem, until it is
/// closed.
pub struct SlateDbFileSystem {
    client: Option<SlateDbClient>,
    cache_metrics: CacheMetrics,
}

impl View for SlateDbFileSystem {
    type V = Option<SlateDbClient>;

    closed spec fn view(&self) -> Option<SlateDbClient> {
        self.client
    }
}

/// Whether flags ask for more than reading.
pub open spec fn asks_to_write(flags: FileOpenFlags) -> bool {
    flags.write || flags.create || flags.append || flags.truncate_existing
}

/// What opening a path comes to.
pub open spec fn open_file_plan(
    client: Option<SlateDbClient>,
    path: Seq<char>,
    flags: FileOpenFlags,
    reads: Reads,
    now: u64,
) -> Plan<Resolution> {
    if flags::flags_complaint(flags) is Some {
        Plan::Fail(flags::flags_error(flags::flags_complaint(flags)->0))
    } else {
        match client {
            None => Plan::Fail(closed_error()),
            Some(SlateDbClient::ReadWrite) => database_metadata::get_or_create_plan(
                path,
                flags.create,
                flags.truncate_existing,
                reads,
                now,
            ),
            Some(SlateDbClient::ReadOnly { found }) => if asks_to_write(flags) {
                Plan::Fail(read_only_fs_error("open a writable file"@))
            } else if !found {
                Plan::Fail(error::file_not_found_error(path, HERE@))
            } else {
                database_metadata::get_or_create_plan(path, false, false, reads, now)
            },
        }
    }
}

/// What asking for a path comes to. A database that is not there holds nothing.
pub open spec fn exists_plan(client: Option<SlateDbClient>, path: Seq<char>, reads: Reads) -> Plan<
    bool,
> {
    match client {
        None => Plan::Fail(closed_error()),
        Some(SlateDbClient::ReadOnly { found: false }) => Plan::Done(false),
        Some(_) => database_metadata::exists_plan(path, reads),
    }
}

/// What a change comes to, where `change` is what it comes to on a database that
/// can be written.
pub open spec fn change_plan(
    client: Option<SlateDbClient>,
    operation: Seq<char>,
    change: Plan<Seq<Change>>,
) -> Plan<Seq<Change>> {
    match client {
        None => Plan::Fail(closed_error()),
        Some(SlateDbClient::ReadWrite) => change,
        Some(SlateDbClient::ReadOnly { .. }) => Plan::Fail(read_only_fs_error(operation)),
    }
}

impl SlateDbFileSystem {
    /// Where the database counts what its caches do.
    pub closed spec fn metrics(self) -> CacheMetrics {
        self.cache_metrics
    }

    /// Decides what to open a database with.
    pub fn open_with_cache_config(
        database_path: &str,
        cache_config: CacheConfig,
        access_mode: SlateDbAccessMode,
    ) -> (r: Result<OpenPlan>)
        ensures
            r is Ok <==> database_path@.len() > 0,
            r matches Err(e) ==> e@ == error::invalid_argument_error(
                "database path must not be empty"@,
                HERE@,
            ),
            r matches Ok(plan) ==> plan.access_mode == access_mode && plan.cache_config
                == cache_config && plan.db_cache == if cache_config.block_cache_size_bytes == 0
                && cache_config.metadata_cache_size_bytes == 0 {
                None
            } else {
                Some(
                    DbCachePlan {
                        block_cache: cache::memory_cache(
                            cache_config.block_cache_size_bytes,
                            cache_config.cache_shards,
                        ),
                        metadata_cache: cache::memory_cache(
                            cache_config.metadata_cache_size_bytes,
                            cache_config.cache_shards,
                        ),
                    },
                )
            },
    {
        if database_path.is_empty() {
            return Err(Error::invalid_argument(
                "database path must not be empty".to_string(),
                HERE,
            ));
        }
        let db_cache = cache_config.build_db_cache();
        Ok(OpenPlan { access_mode, db_cache, cache_config })
    }

    /// A filesystem on a database that was opened, or that was found not to be
    /// there to read.
    pub fn new(client: SlateDbClient, cache_metrics: CacheMetrics) -> (r: Self)
        ensures
            r@ == Some(client),
            r.metrics() == cache_metrics,
    {
        SlateDbFileSystem { client: Some(client), cache_metrics }
    }

    /// Resolves a logical file, creating its persistent catalog entry when
    /// allowed.
    pub fn open_file(&self, path: &str, flags: FileOpenFlags, reads: &Reads) -> (r: Result<
        Step<ResolvedFile>,
    >)
        ensures
            database_metadata::follows_resolution(
                r,
                open_file_plan(self@, path@, flags, *reads, database_metadata::resolved_at(r)),
            ),
    {
        match flags.validate() {
            Ok(()) => {},
            Err(error) => {
                return Err(error);
            },
        }
        match self.client {
            None => Err(filesystem_closed()),
            Some(SlateDbClient::ReadWrite) => DatabaseMetadata::new().get_or_create_file(
                path,
                flags.create,
                flags.truncate_existing,
                reads,
            ),
            Some(SlateDbClient::ReadOnly { found }) => {
                if flags.write || flags.create || flags.append || flags.truncate_existing {
                    return Err(read_only_violation("open a writable file"));
                }
                if !found {
                    return Err(Error::file_not_found(path, HERE));
                }
                DatabaseMetadata::new().get_or_create_file(path, false, false, reads)
            },
        }
    }

    /// Opens a handle on a logical file that was resolved.
    pub fn file_handle(&self, file: &ResolvedFile, flags: FileOpenFlags) -> (r: Result<
        SlateFileHandle,
    >)
        ensures
            match self@ {
                None => r matches Err(e) && e@ == closed_error(),
                Some(client) => {
                    let access = match client {
                        SlateDbClient::ReadWrite => SlateFileClient::ReadWrite,
                        SlateDbClient::ReadOnly { .. } => SlateFileClient::ReadOnly,
                    };
                    let refused = file_handle::open_error(
                        access,
                        file.file_id,
                        file.metadata,
                        flags,
                    );
                    &&& r is Ok <==> refused is None
                    &&& r matches Ok(handle) ==> handle.state().wf() && handle.state()
                        == file_handle::opened(access, file.file_id, file.metadata, flags)
                    &&& r matches Err(e) ==> Some(e@) == refused
                },
            },
    {
        let access = match self.client {
            None => {
                return Err(filesystem_closed());
            },
            Some(SlateDbClient::ReadWrite) => SlateFileClient::ReadWrite,
            Some(SlateDbClient::ReadOnly { .. }) => SlateFileClient::ReadOnly,
        };
        SlateFileHandle::new(access, file.file_id, file.metadata, flags)
    }

    /// Returns whether a logical path is present in the database catalog.
    pub fn file_exists(&self, path: &str, reads: &Reads) -> (r: Result<Step<bool>>)
        ensures
            catalog::follows(r, exists_plan(self@, path@, *reads)),
            exists_plan(self@, path@, *reads) matches Plan::Done(exists) ==> r == Ok::<_, Error>(
                Step::Done(exists),
            ),
    {
        match self.client {
            None => Err(filesystem_closed()),
            Some(SlateDbClient::ReadOnly { found: false }) => Ok(Step::Done(false)),
            Some(_) => DatabaseMetadata::new().file_exists(path, reads),
        }
    }

    /// Removes a logical file and all of its persisted state.
    pub fn remove_file(&self, path: &str, reads: &Reads) -> (r: Result<Step<Vec<Mutation>>>)
        ensures
            catalog::follows_batch(
                r,
                change_plan(
                    self@,
                    "remove a file"@,
                    database_metadata::remove_plan(path@, *reads),
                ),
            ),
    {
        match self.ensure_read_write("remove a file") {
            Ok(()) => DatabaseMetadata::new().remove_file(path, reads),
            Err(error) => Err(error),
        }
    }

    /// Moves a logical file, replacing the destination if present.
    pub fn move_file(&self, source: &str, target: &str, reads: &Reads) -> (r: Result<
        Step<Vec<Mutation>>,
    >)
        ensures
            catalog::follows_batch(
                r,
                change_plan(
                    self@,
                    "move a file"@,
                    database_metadata::move_plan(source@, target@, *reads),
                ),
            ),
    {
        match self.ensure_read_write("move a file") {
            Ok(()) => DatabaseMetadata::new().move_file(source, target, reads),
            Err(error) => Err(error),
        }
    }

    /// Gives the client up to be closed.
    ///
    /// Calling `close` more than once is harmless: the second time there is
    /// nothing left to close.
    pub fn close(&mut self) -> (r: Option<SlateDbClient>)
        ensures
            r == old(self)@,
            final(self)@ is None,
            final(self).metrics() == old(self).metrics(),
    {
        let client = self.client;
        self.client = None;
        client
    }

    /// The name reported to DuckDB.
    pub fn name(&self) -> (r: &'static str)
        ensures
            r@ == "SlateDBFileSystem"@,
    {
        NAME
    }

    /// Whether DuckDB is to route a path here.
    pub fn can_handle(&self, path: &str) -> (r: bool)
        ensures
            r <==> text::has_head(path@, "duckdb_objfs:"@),
    {
        text::starts_with(path, PREFIX)
    }

    /// Rejects a change where the database cannot be written.
    pub fn ensure_read_write(&self, operation: &str) -> (r: Result<()>)
        ensures
            r is Ok <==> self@ == Some(SlateDbClient::ReadWrite),
            r matches Err(e) ==> e@ == if self@ is None {
                closed_error()
            } else {
                read_only_fs_error(operation@)
            },
    {
        match self.client {
            None => Err(filesystem_closed()),
            Some(SlateDbClient::ReadWrite) => Ok(()),
            Some(SlateDbClient::ReadOnly { .. }) => Err(read_only_violation(operation)),
        }
    }

    /// How the caches have done so far.
    pub fn cache_stats(&self) -> (r: Option<CacheStats>)
        ensures
            cache::are_stats_of(self.metrics(), r),
    {
        self.cache_metrics.stats()
    }
}

/// A filesystem on a database that is only read.
pub struct SlateDbReadOnlyFileSystem {
    cache_metrics: CacheMetrics,
}

impl SlateDbReadOnlyFileSystem {
    /// Where the database counts what its caches do.
    pub closed spec fn metrics(self) -> CacheMetrics {
        self.cache_metrics
    }

    /// A filesystem whose reader counts into `cache_metrics`.
    pub fn new(cache_metrics: CacheMetrics) -> (r: Self)
        ensures
            r.metrics() == cache_metrics,
    {
        SlateDbReadOnlyFileSystem { cache_metrics }
    }

    /// How the caches have done so far.
    pub fn cache_stats(&self) -> (r: Option<CacheStats>)
        ensures
            cache::are_stats_of(self.metrics(), r),
    {
        self.cache_metrics.stats()
    }
}

/// Where on S3 a database lives, and how to get at it.
#[derive(Debug)]
pub struct S3StorageConfig {
    /// S3 bucket that stores SlateDB objects.
    pub bucket: String,
    /// Optional prefix within the bucket reserved for this filesystem.
    pub root: Option<String>,
    /// Optional S3-compatible service endpoint.
    pub endpoint: Option<String>,
    /// AWS region used to sign S3 requests.
    pub region: Option<String>,
    /// Optional access-key identifier.
    pub key_id: Option<String>,
    /// Optional secret access key.
    pub secret: Option<String>,
    /// Optional temporary-credential session token.
    pub session_token: Option<String>,
    /// Whether the endpoint should use HTTPS.
    pub use_ssl: bool,
    /// Whether S3 requests should use virtual-host-style addressing.
    pub virtual_host_style: bool,
}

/// What to sign S3 requests with.
#[derive(Debug)]
pub struct S3Credentials {
    pub key_id: String,
    pub secret: String,
    pub session_token: Option<String>,
}

/// The settings of an S3 client. Without credentials requests go unsigned.
#[derive(Debug)]
pub struct S3Settings {
    pub bucket: String,
    pub root: Option<String>,
    /// The endpoint with its scheme.
    pub endpoint: Option<String>,
    pub region: Option<String>,
    pub credentials: Option<S3Credentials>,
    pub virtual_host_style: bool,
}

/// Why an S3 configuration cannot be used, if it cannot.
pub open spec fn s3_complaint(config: S3StorageConfig) -> Option<Seq<char>> {
    if config.bucket@.len() == 0 {
        Some("S3 bucket must not be empty"@)
    } else if config.key_id is Some != config.secret is Some {
        Some("S3 key ID and secret must be provided together"@)
    } else if config.session_token is Some && config.key_id is None {
        Some("S3 session token requires a key ID and secret"@)
    } else {
        None
    }
}

/// An endpoint with its scheme: as it is where it has one, else by whether HTTPS
/// is to be used.
pub open spec fn endpoint_with_scheme(endpoint: Seq<char>, use_ssl: bool) -> Seq<char> {
    if text::has_part(endpoint, "://"@) {
        endpoint
    } else if use_ssl {
        "https://"@ + endpoint
    } else {
        "http://"@ + endpoint
    }
}

/// Checks an S3 configuration and settles what the client is to be built with.
pub fn build_s3_settings(config: S3StorageConfig) -> (r: Result<S3Settings>)
    ensures
        r is Ok <==> (config.bucket@.len() > 0 && (config.key_id is Some <==> config.secret is Some)
            && (config.session_token is Some ==> config.key_id is Some)),
        r is Ok <==> s3_complaint(config) is None,
        r matches Err(e) ==> e@ == error::invalid_argument_error(s3_complaint(config)->0, HERE@),
        r matches Ok(settings) ==> {
            &&& settings.bucket == config.bucket
            &&& settings.root == config.root
            &&& settings.region == config.region
            &&& settings.virtual_host_style == config.virtual_host_style
            &&& settings.endpoint is Some <==> config.endpoint is Some
            &&& settings.endpoint matches Some(endpoint) ==> endpoint@ == endpoint_with_scheme(
                config.endpoint->0@,
                config.use_ssl,
            )
            &&& settings.credentials is Some <==> config.key_id is Some
            &&& settings.credentials matches Some(credentials) ==> {
                &&& credentials.key_id == config.key_id->0
                &&& credentials.secret == config.secret->0
                &&& credentials.session_token == config.session_token
            }
        },
{
    if config.bucket.as_str().is_empty() {
        return Err(Error::invalid_argument("S3 bucket must not be empty".to_string(), HERE));
    }
    if config.key_id.is_some() != config.secret.is_some() {
        return Err(
            Error::invalid_argument(
                "S3 key ID and secret must be provided together".to_string(),
                HERE,
            ),
        );
    }
    if config.session_token.is_some() && config.key_id.is_none() {
        return Err(
            Error::invalid_argument(
                "S3 session token requires a key ID and secret".to_string(),
                HERE,
            ),
        );
    }
    let endpoint = match config.endpoint {
        Some(endpoint) => {
            if text::contains(endpoint.as_str(), "://") {
                Some(endpoint)
            } else if config.use_ssl {
                Some(join2("https://", endpoint.as_str()))
            } else {
                Some(join2("http://", endpoint.as_str()))
            }
        },
        None => None,
    };
    let credentials = match (config.key_id, config.secret) {
        (Some(key_id), Some(secret)) => Some(
            S3Credentials { key_id, secret, session_token: config.session_token },
        ),
        _ => None,
    };
    Ok(
        S3Settings {
            bucket: config.bucket,
            root: config.root,
            endpoint,
            region: config.region,
            credentials,
            virtual_host_style: config.virtual_host_style,
        },
    )
}

/// A configuration of S3 storage is refused exactly if it names no bucket, gives one of
/// key ID and secret without the other, or gives a session token without a key ID. So
/// long-lived keys, temporary keys and no keys at all are each accepted.
pub proof fn s3_configurations_are_accepted_unless_something_is_missing(config: S3StorageConfig)
    ensures
        s3_complaint(config) is Some <==> {
            ||| config.bucket@.len() == 0
            ||| config.key_id is Some && config.secret is None
            ||| config.key_id is None && config.secret is Some
            ||| config.session_token is Some && config.key_id is None
        },
        config.bucket@.len() > 0 && config.key_id is Some && config.secret is Some
            ==> s3_complaint(config) is None,
        config.bucket@.len() > 0 && config.key_id is None && config.secret is None
            && config.session_token is None ==> s3_complaint(config) is None,
{
}

/// An endpoint is used with a scheme, and is otherwise as it was configured: one that
/// names its scheme is left alone, and any other gets the one that was asked for.
pub proof fn endpoints_have_a_scheme(endpoint: Seq<char>, use_ssl: bool)
    ensures
        ({
            let used = endpoint_with_scheme(endpoint, use_ssl);
            &&& text::has_part(used, "://"@)
            &&& text::has_part(endpoint, "://"@) ==> used == endpoint
            &&& !text::has_part(endpoint, "://"@) ==> used.len() >= endpoint.len() && used.skip(
                used.len() - endpoint.len(),
            ) == endpoint
            &&& !text::has_part(endpoint, "://"@) && use_ssl ==> text::has_head(used, "https://"@)
            &&& !text::has_part(endpoint, "://"@) && !use_ssl ==> text::has_head(used, "http://"@)
        }),
{
    reveal_strlit("://");
    reveal_strlit("https://");
    reveal_strlit("http://");
    let used = endpoint_with_scheme(endpoint, use_ssl);
    if !text::has_part(endpoint, "://"@) {
        let scheme = if use_ssl {
            "https://"@
        } else {
            "http://"@
        };
        assert(used.subrange(0, scheme.len() as int) =~= scheme);
        assert(used.subrange(scheme.len() - 3, scheme.len() as int) =~= "://"@);
        assert(text::part_at(used, "://"@, scheme.len() - 3));
        assert(used.skip(scheme.len() as int) =~= endpoint);
    }
}

} // verus!
