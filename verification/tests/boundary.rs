//! Flags, configurations and what crosses the C ABI.

use slatedb_common::metrics::{DefaultMetricsRecorder, MetricsRecorder};
use slatefs::cache::{
    cache_stats, CacheConfig, CacheMetrics, CacheStats, DbCachePlan, MemoryCachePlan,
    ObjectStoreCacheSettings,
};
use slatefs::error::{Error, ErrorCode, SlateDbErrorKind};
use slatefs::ffi::{
    can_handle, ffi_result, handle_closed, handle_poisoned, optional_string, parse_cache_config,
    require_buffer, require_database_config, require_local_root, require_options, require_path,
    require_pointer, require_s3_config, store_error, FfiCacheConfig, FfiCacheStats,
    FfiDatabaseConfig, FfiOpenOptions, FfiOutcome, FfiS3Config,
};
use slatefs::flags::FileOpenFlags;
use slatefs::fs::{
    build_s3_settings, client_without_reader, settle_reader_failure, S3StorageConfig,
    SlateDbAccessMode, SlateDbClient, SlateDbFileSystem, SlateDbReadOnlyFileSystem,
};
use slatefs::s3::build_s3_operator;

fn message(error: Error) -> String {
    error.detail().message.clone()
}

#[test]
fn flags_are_checked() {
    for flags in [
        FileOpenFlags::read_only(),
        FileOpenFlags::read_write(),
        FileOpenFlags::open_or_create(),
        FileOpenFlags::create_or_truncate(),
        FileOpenFlags::append(),
    ] {
        flags.validate().expect("flags");
    }
    let read = FileOpenFlags::read_only();
    let rejected = [
        (
            FileOpenFlags { read: false, ..read },
            "at least one of read or write must be set",
        ),
        (
            FileOpenFlags { create: true, ..read },
            "create requires write access",
        ),
        (
            FileOpenFlags { append: true, ..read },
            "append requires write access",
        ),
        (
            FileOpenFlags {
                truncate_existing: true,
                ..FileOpenFlags::read_write()
            },
            "truncate existing requires create",
        ),
    ];
    for (flags, reason) in rejected {
        assert_eq!(
            message(flags.validate().expect_err("flags")),
            format!("invalid file open flags: {reason}")
        );
    }
}

#[test]
fn access_is_checked() {
    let append = FileOpenFlags::append();
    assert!(append.ensure_writable(3).is_ok());
    let error = append.ensure_readable(3).expect_err("read");
    assert_eq!(error.code(), ErrorCode::InvalidArgument);
    assert_eq!(
        message(error),
        "cannot read file_id 3: not opened for that access"
    );
    let read_only = FileOpenFlags::read_only();
    assert!(read_only.ensure_readable(3).is_ok());
    let error = read_only.ensure_writable(18_446_744_073_709_551_615).expect_err("write");
    assert_eq!(error.code(), ErrorCode::ReadOnlyViolation);
    assert_eq!(
        message(error),
        "cannot write to file_id 18446744073709551615: not opened for that access"
    );
}

#[test]
fn caches_default_to_slatedbs_capacities() {
    let config = CacheConfig::default();
    assert_eq!(config.block_cache_size_bytes, 512 * 1024 * 1024);
    assert_eq!(config.metadata_cache_size_bytes, 128 * 1024 * 1024);
    assert_eq!(config.cache_shards, None);
    assert_eq!(config.persistent_cache_path, None);
    assert_eq!(config.persistent_cache_size_bytes, 16 * 1024 * 1024 * 1024);
    assert_eq!(config.persistent_cache_part_size_bytes, 4 * 1024 * 1024);
    assert!(!config.persistent_cache_on_flush);
    assert!(!config.persistent_cache_on_compaction);
}

fn settings() -> ObjectStoreCacheSettings {
    ObjectStoreCacheSettings {
        root_folder: None,
        max_cache_size_bytes: None,
        part_size_bytes: 7,
        cache_on_flush: true,
        cache_on_compaction: false,
    }
}

#[test]
fn persistent_caches_are_applied_where_configured() {
    let mut config = CacheConfig::default();
    let mut untouched = settings();
    config.apply_to_settings(&mut untouched);
    config.apply_to_reader_options(&mut untouched);
    assert_eq!(untouched.root_folder, None);
    assert_eq!(untouched.part_size_bytes, 7);

    config.persistent_cache_path = Some("/cache".to_string());
    config.persistent_cache_size_bytes = 4096;
    config.persistent_cache_part_size_bytes = 1024;
    config.persistent_cache_on_compaction = true;
    let mut writer = settings();
    config.apply_to_settings(&mut writer);
    assert_eq!(writer.root_folder.as_deref(), Some("/cache"));
    assert_eq!(writer.max_cache_size_bytes, Some(4096));
    assert_eq!(writer.part_size_bytes, 1024);
    assert!(!writer.cache_on_flush);
    assert!(writer.cache_on_compaction);

    let mut reader = settings();
    config.apply_to_reader_options(&mut reader);
    assert_eq!(reader.root_folder.as_deref(), Some("/cache"));
    assert_eq!(reader.part_size_bytes, 1024);
    assert!(reader.cache_on_flush);
    assert!(!reader.cache_on_compaction);
}

#[test]
fn in_memory_caches_are_built_where_they_have_room() {
    let mut config = CacheConfig {
        block_cache_size_bytes: 0,
        metadata_cache_size_bytes: 0,
        cache_shards: Some(4),
        ..CacheConfig::default()
    };
    assert_eq!(config.build_db_cache(), None);
    config.metadata_cache_size_bytes = 100;
    assert_eq!(
        config.build_db_cache(),
        Some(DbCachePlan {
            block_cache: None,
            metadata_cache: Some(MemoryCachePlan {
                max_capacity: 100,
                shards: Some(4),
            }),
        })
    );
}

#[test]
fn caches_need_shards_that_fit() {
    let plan = |block, metadata| DbCachePlan {
        block_cache: Some(MemoryCachePlan { max_capacity: 100, shards: block }),
        metadata_cache: Some(MemoryCachePlan { max_capacity: 100, shards: metadata }),
    };
    assert!(plan(Some(4), None).can_be_built(1));
    assert!(!plan(Some(4), None).can_be_built(0));
    assert!(plan(Some(4), Some(4)).can_be_built(0));
    assert!(!plan(Some(0), Some(4)).can_be_built(1));
    assert!(!plan(Some(4), Some(usize::MAX)).can_be_built(1));
    let none = DbCachePlan { block_cache: None, metadata_cache: None };
    assert!(none.can_be_built(0));
}

/// What a database with these in-memory caches counts when a value is read twice.
fn stats_of_two_reads(plan: DbCachePlan) -> CacheStats {
    let metrics = CacheMetrics::new();
    let runtime = tokio::runtime::Runtime::new().expect("runtime");
    runtime.block_on(async {
        let storage = std::sync::Arc::new(slatedb::object_store::memory::InMemory::new());
        let db = slatedb::Db::builder("test-db", storage)
            .with_db_cache(std::sync::Arc::new(plan.build(2)), 0)
            .with_metrics_recorder(metrics.recorder())
            .build()
            .await
            .expect("database");
        db.put(b"key", b"value").await.expect("put");
        db.flush_with_options(slatedb::config::FlushOptions {
            flush_type: slatedb::config::FlushType::MemTable,
        })
        .await
        .expect("flush");
        for _ in 0..2 {
            let value = db.get(b"key").await.expect("get").expect("value");
            assert_eq!(&value[..], b"value");
        }
        db.close().await.expect("close");
    });
    metrics.stats().expect("stats")
}

#[test]
fn each_memory_cache_holds_its_own_entries() {
    let room = Some(MemoryCachePlan { max_capacity: 1 << 20, shards: None });
    let blocks = stats_of_two_reads(DbCachePlan { block_cache: room, metadata_cache: None });
    assert!(blocks.block_cache_hits > 0, "{blocks:?}");
    assert_eq!(blocks.metadata_cache_hits, 0);
    let metadata = stats_of_two_reads(DbCachePlan { block_cache: None, metadata_cache: room });
    assert_eq!(metadata.block_cache_hits, 0);
    assert!(metadata.metadata_cache_hits > 0, "{metadata:?}");
}

fn count_accesses(recorder: &DefaultMetricsRecorder) {
    let access = "slatedb.db_cache.access_count";
    let counts = [
        ("data_block", "hit", 1),
        ("data_block", "miss", 2),
        ("filter", "hit", 10),
        ("index", "hit", 20),
        ("stats", "hit", 30),
        ("filter", "miss", 100),
        ("index", "miss", 200),
        ("stats", "miss", 300),
    ];
    for (entry_kind, result, count) in counts {
        // In the other order than they are looked up in.
        let labels = [("result", result), ("entry_kind", entry_kind)];
        recorder.register_counter(access, "", &labels).increment(count);
    }
    let parts = [
        ("slatedb.object_store_cache.part_hit_count", 5),
        ("slatedb.object_store_cache.part_access_count", 12),
        ("slatedb.object_store_cache.evicted_keys", 8),
        ("slatedb.object_store_cache.evicted_bytes", 9),
    ];
    for (name, count) in parts {
        recorder.register_counter(name, "", &[]).increment(count);
    }
    recorder
        .register_gauge("slatedb.object_store_cache.cache_keys", "", &[])
        .set(6);
    recorder
        .register_gauge("slatedb.object_store_cache.cache_bytes", "", &[])
        .set(-1);
}

fn counted() -> CacheStats {
    CacheStats {
        block_cache_hits: 1,
        block_cache_misses: 2,
        metadata_cache_hits: 60,
        metadata_cache_misses: 600,
        persistent_cache_hits: 5,
        persistent_cache_misses: 7,
        persistent_cache_entries: 6,
        persistent_cache_size_bytes: 0,
        persistent_cache_evictions: 8,
        persistent_cache_evicted_bytes: 9,
    }
}

#[test]
fn cache_statistics_are_read_out_of_the_metrics() {
    let recorder = DefaultMetricsRecorder::new();
    let nothing = cache_stats(&recorder.snapshot()).expect("statistics");
    assert_eq!(nothing.metadata_cache_hits, 0);
    assert_eq!(nothing.persistent_cache_misses, 0);

    count_accesses(&recorder);
    assert_eq!(cache_stats(&recorder.snapshot()), Some(counted()));
}

#[test]
fn new_metrics_have_counted_nothing() {
    let metrics = CacheMetrics::new();
    assert!(metrics.recorder().snapshot().all().is_empty());
    assert_eq!(
        metrics.stats(),
        Some(CacheStats {
            block_cache_hits: 0,
            block_cache_misses: 0,
            metadata_cache_hits: 0,
            metadata_cache_misses: 0,
            persistent_cache_hits: 0,
            persistent_cache_misses: 0,
            persistent_cache_entries: 0,
            persistent_cache_size_bytes: 0,
            persistent_cache_evictions: 0,
            persistent_cache_evicted_bytes: 0,
        })
    );
}

#[test]
fn filesystems_report_what_their_caches_did() {
    let metrics = CacheMetrics::new();
    count_accesses(&metrics.recorder());
    let fs = SlateDbFileSystem::new(SlateDbClient::ReadWrite, metrics);
    assert_eq!(fs.cache_stats(), Some(counted()));

    let metrics = CacheMetrics::new();
    count_accesses(&metrics.recorder());
    let fs = SlateDbReadOnlyFileSystem::new(metrics);
    assert_eq!(fs.cache_stats(), Some(counted()));
}

#[test]
fn metadata_accesses_that_do_not_add_up_are_not_reported() {
    let recorder = DefaultMetricsRecorder::new();
    for entry_kind in ["filter", "stats"] {
        recorder
            .register_counter(
                "slatedb.db_cache.access_count",
                "",
                &[("entry_kind", entry_kind), ("result", "miss")],
            )
            .increment(u64::MAX);
    }
    assert_eq!(cache_stats(&recorder.snapshot()), None);
}

#[test]
fn a_database_needs_a_path() {
    let error = SlateDbFileSystem::open_with_cache_config(
        "",
        CacheConfig::default(),
        SlateDbAccessMode::ReadWrite,
    )
    .expect_err("empty path");
    assert_eq!(message(error), "database path must not be empty");
    let plan = SlateDbFileSystem::open_with_cache_config(
        "db",
        CacheConfig::default(),
        SlateDbAccessMode::ReadOnly,
    )
    .expect("plan");
    assert_eq!(plan.access_mode, SlateDbAccessMode::ReadOnly);
    assert!(plan.db_cache.is_some());
}

#[test]
fn a_missing_database_is_told_from_a_broken_one() {
    let words = "data error: failed to find latest transactional object (kind)".to_string();
    assert_eq!(
        client_without_reader(SlateDbErrorKind::Data, &words),
        Some(SlateDbClient::ReadOnly { found: false })
    );
    for kind in [
        SlateDbErrorKind::Unavailable,
        SlateDbErrorKind::Transaction,
        SlateDbErrorKind::Other,
    ] {
        assert_eq!(client_without_reader(kind, &words), None);
    }
    assert_eq!(
        client_without_reader(SlateDbErrorKind::Data, "checksum mismatch"),
        None
    );
}

#[test]
fn reading_a_database_that_is_not_there_yet_finds_nothing() {
    let runtime = tokio::runtime::Runtime::new().expect("runtime");
    let storage = slatedb::object_store::memory::InMemory::new();
    let failure = runtime
        .block_on(
            slatedb::DbReader::builder("test-db", std::sync::Arc::new(storage))
                .with_reader_mode(slatedb::DbReaderMode::ManagedCheckpoint)
                .build(),
        )
        .err()
        .expect("nothing to read");
    assert_eq!(
        settle_reader_failure(failure).expect("empty filesystem"),
        SlateDbClient::ReadOnly { found: false }
    );
}

#[test]
fn a_reader_without_a_database_holds_nothing() {
    let words = "failed to find latest transactional object";
    let missing = slatedb::Error::data(words.to_string());
    assert_eq!(
        settle_reader_failure(missing).expect("empty filesystem"),
        SlateDbClient::ReadOnly { found: false }
    );
    let broken = slatedb::Error::data("checksum mismatch".to_string());
    let error = settle_reader_failure(broken).expect_err("broken database");
    assert_eq!(error.code(), ErrorCode::SlateDb);
    assert_eq!(error.status(), slatefs::ErrorStatus::Permanent);
    let caused = slatedb::Error::data(words.to_string())
        .with_source(Box::new(std::io::Error::other("no such key")));
    assert_eq!(
        settle_reader_failure(caused).expect("empty filesystem"),
        SlateDbClient::ReadOnly { found: false }
    );
    let down = slatedb::Error::unavailable(words.to_string());
    let error = settle_reader_failure(down).expect_err("unavailable");
    assert_eq!(error.status(), slatefs::ErrorStatus::Temporary);
    assert!(error.to_string().contains(words));
}

fn s3_config() -> S3StorageConfig {
    S3StorageConfig {
        bucket: "bucket".to_string(),
        root: Some("root".to_string()),
        endpoint: Some("localhost:9000".to_string()),
        region: Some("us-east-1".to_string()),
        key_id: Some("key".to_string()),
        secret: Some("shh".to_string()),
        session_token: Some("token".to_string()),
        use_ssl: false,
        virtual_host_style: true,
    }
}

#[test]
fn s3_settings_are_settled() {
    let settings = build_s3_settings(s3_config()).expect("settings");
    assert_eq!(settings.bucket, "bucket");
    assert_eq!(settings.root.as_deref(), Some("root"));
    assert_eq!(settings.endpoint.as_deref(), Some("http://localhost:9000"));
    assert_eq!(settings.region.as_deref(), Some("us-east-1"));
    assert!(settings.virtual_host_style);
    let credentials = settings.credentials.expect("credentials");
    assert_eq!(credentials.key_id, "key");
    assert_eq!(credentials.secret, "shh");
    assert_eq!(credentials.session_token.as_deref(), Some("token"));

    let secure = S3StorageConfig {
        use_ssl: true,
        ..s3_config()
    };
    let settings = build_s3_settings(secure).expect("settings");
    assert_eq!(settings.endpoint.as_deref(), Some("https://localhost:9000"));

    let explicit = S3StorageConfig {
        endpoint: Some("http://minio".to_string()),
        use_ssl: true,
        key_id: None,
        secret: None,
        session_token: None,
        ..s3_config()
    };
    let settings = build_s3_settings(explicit).expect("settings");
    assert_eq!(settings.endpoint.as_deref(), Some("http://minio"));
    assert!(settings.credentials.is_none());
}

#[test]
fn s3_configurations_are_checked() {
    let rejected = [
        (
            S3StorageConfig {
                bucket: String::new(),
                ..s3_config()
            },
            "S3 bucket must not be empty",
        ),
        (
            S3StorageConfig {
                secret: None,
                ..s3_config()
            },
            "S3 key ID and secret must be provided together",
        ),
        (
            S3StorageConfig {
                key_id: None,
                secret: None,
                ..s3_config()
            },
            "S3 session token requires a key ID and secret",
        ),
    ];
    for (config, reason) in rejected {
        assert_eq!(message(build_s3_settings(config).expect_err("config")), reason);
    }
}

fn presigned(config: S3StorageConfig) -> String {
    let operator = build_s3_operator(config).expect("operator");
    let runtime = tokio::runtime::Builder::new_current_thread()
        .enable_all()
        .build()
        .expect("runtime");
    let request = runtime
        .block_on(operator.presign_read("file", std::time::Duration::from_secs(60)))
        .expect("presigned request");
    request.uri().to_string()
}

#[test]
fn s3_operators_are_set_up() {
    let operator = build_s3_operator(s3_config()).expect("operator");
    assert_eq!(operator.info().scheme(), "s3");
    assert_eq!(operator.info().name(), "bucket");
    assert_eq!(operator.info().root(), "/root/");

    let rootless = S3StorageConfig {
        root: Some(String::new()),
        ..s3_config()
    };
    let operator = build_s3_operator(rootless).expect("operator");
    assert_eq!(operator.info().root(), "/");
}

#[test]
fn s3_requests_follow_the_configuration() {
    let uri = presigned(s3_config());
    assert!(uri.starts_with("http://bucket.localhost:9000/root/file?"), "{uri}");
    assert!(uri.contains("X-Amz-Credential=key%2F"), "{uri}");
    assert!(uri.contains("%2Fus-east-1%2Fs3%2F"), "{uri}");
    assert!(uri.contains("X-Amz-Security-Token=token"), "{uri}");
    assert!(uri.contains("X-Amz-Signature="), "{uri}");

    let unsigned = S3StorageConfig {
        key_id: None,
        secret: None,
        session_token: None,
        endpoint: Some("https://minio///".to_string()),
        virtual_host_style: false,
        ..s3_config()
    };
    let uri = presigned(unsigned);
    assert!(uri.starts_with("https://minio/bucket/root/file"), "{uri}");
    assert!(!uri.contains("X-Amz-Signature="), "{uri}");
    assert!(!uri.contains("X-Amz-Credential="), "{uri}");
}

#[test]
fn s3_storage_that_cannot_be_set_up_is_an_error() {
    let dotted = S3StorageConfig {
        bucket: "dotted.bucket".to_string(),
        ..s3_config()
    };
    let error = build_s3_operator(dotted).expect_err("bucket with a dot");
    assert_eq!(error.code(), ErrorCode::Io);
    assert!(error.detail().source().is_some());
    assert_eq!(message(error), "failed to initialize OpenDAL S3 storage");

    let in_path = S3StorageConfig {
        bucket: "dotted.bucket".to_string(),
        virtual_host_style: false,
        ..s3_config()
    };
    let operator = build_s3_operator(in_path).expect("operator");
    assert_eq!(operator.info().name(), "dotted.bucket");
}

#[test]
fn directory_buckets_need_a_fitting_endpoint() {
    let directory = |endpoint: &str, use_ssl| S3StorageConfig {
        bucket: "data--use1-az4--x-s3".to_string(),
        endpoint: Some(endpoint.to_string()),
        use_ssl,
        ..s3_config()
    };
    let operator = build_s3_operator(directory("localhost:9000", false)).expect("operator");
    assert_eq!(operator.info().name(), "data--use1-az4--x-s3");

    let error =
        build_s3_operator(directory("s3.amazonaws.com", false)).expect_err("plain endpoint");
    assert_eq!(message(error), "failed to initialize OpenDAL S3 storage");
    assert!(build_s3_operator(directory("s3.amazonaws.com", true)).is_ok());
}

fn ffi_s3_config() -> FfiS3Config {
    FfiS3Config {
        bucket: Some(b"bucket".to_vec()),
        root: Some(Vec::new()),
        endpoint: None,
        region: Some(b"eu".to_vec()),
        key_id: None,
        secret: None,
        session_token: None,
        use_ssl: 1,
        virtual_host_style: 0,
    }
}

#[test]
fn ffi_s3_constructor_validates_config() {
    let config = FfiS3Config {
        bucket: Some(Vec::new()),
        root: None,
        endpoint: None,
        region: None,
        key_id: None,
        secret: None,
        session_token: None,
        use_ssl: 1,
        virtual_host_style: 0,
    };
    let config = require_s3_config(Some(&config)).expect("config");
    let error = build_s3_operator(config).expect_err("empty bucket");
    let reply = store_error(&error);
    assert_eq!(reply.code, ErrorCode::InvalidArgument.as_i32());
    assert!(reply
        .message
        .expect("message")
        .contains("S3 bucket must not be empty"));
}

#[test]
fn s3_configurations_are_read() {
    let config = require_s3_config(Some(&ffi_s3_config())).expect("config");
    assert_eq!(config.bucket, "bucket");
    assert_eq!(config.root, None);
    assert_eq!(config.endpoint, None);
    assert_eq!(config.region.as_deref(), Some("eu"));
    assert!(config.use_ssl);
    assert!(!config.virtual_host_style);

    assert_eq!(
        message(require_s3_config(None).expect_err("null")),
        "S3 config must not be null"
    );
    let no_bucket = FfiS3Config {
        bucket: None,
        ..ffi_s3_config()
    };
    assert_eq!(
        message(require_s3_config(Some(&no_bucket)).expect_err("bucket")),
        "S3 bucket must not be null"
    );
    let broken = FfiS3Config {
        secret: Some(vec![0xff]),
        ..ffi_s3_config()
    };
    assert_eq!(
        message(require_s3_config(Some(&broken)).expect_err("secret")),
        "S3 secret must be valid UTF-8"
    );
}

fn ffi_cache_config() -> FfiCacheConfig {
    FfiCacheConfig {
        block_cache_size_bytes: 1,
        metadata_cache_size_bytes: 2,
        cache_shards: 0,
        persistent_cache_path: Some(b"/cache".to_vec()),
        persistent_cache_size_bytes: 4096,
        persistent_cache_part_size_bytes: 2048,
        persistent_cache_on_flush: 0,
        persistent_cache_on_compaction: -1,
    }
}

#[test]
fn cache_configurations_are_read() {
    let config = parse_cache_config(None).expect("default");
    assert_eq!(config.block_cache_size_bytes, 512 * 1024 * 1024);

    let config = parse_cache_config(Some(&ffi_cache_config())).expect("config");
    assert_eq!(config.block_cache_size_bytes, 1);
    assert_eq!(config.metadata_cache_size_bytes, 2);
    assert_eq!(config.cache_shards, None);
    assert_eq!(config.persistent_cache_path.as_deref(), Some("/cache"));
    assert_eq!(config.persistent_cache_size_bytes, 4096);
    assert_eq!(config.persistent_cache_part_size_bytes, 2048);
    assert!(!config.persistent_cache_on_flush);
    assert!(config.persistent_cache_on_compaction);

    let sharded = FfiCacheConfig {
        cache_shards: 3,
        ..ffi_cache_config()
    };
    assert_eq!(parse_cache_config(Some(&sharded)).expect("config").cache_shards, Some(3));
}

#[test]
fn cache_configurations_are_checked() {
    let rejected = [
        (
            FfiCacheConfig {
                persistent_cache_path: Some(vec![0xc0]),
                ..ffi_cache_config()
            },
            "persistent cache path must be valid UTF-8",
        ),
        (
            FfiCacheConfig {
                persistent_cache_size_bytes: 0,
                ..ffi_cache_config()
            },
            "persistent cache size must be greater than zero",
        ),
        (
            FfiCacheConfig {
                persistent_cache_part_size_bytes: 0,
                ..ffi_cache_config()
            },
            "persistent cache part size must be a non-zero multiple of 1024 bytes",
        ),
        (
            FfiCacheConfig {
                persistent_cache_part_size_bytes: 1025,
                ..ffi_cache_config()
            },
            "persistent cache part size must be a non-zero multiple of 1024 bytes",
        ),
    ];
    for (config, reason) in rejected {
        assert_eq!(
            message(parse_cache_config(Some(&config)).expect_err("config")),
            reason
        );
    }
    // Without a path the sizes do not matter.
    let off = FfiCacheConfig {
        persistent_cache_path: Some(Vec::new()),
        persistent_cache_size_bytes: 0,
        persistent_cache_part_size_bytes: 1,
        ..ffi_cache_config()
    };
    let config = parse_cache_config(Some(&off)).expect("config");
    assert_eq!(config.persistent_cache_path, None);
}

#[test]
fn open_options_are_read() {
    let options = FfiOpenOptions {
        read: 1,
        write: 2,
        create: -1,
        append: 0,
        truncate_existing: 0,
    };
    assert_eq!(
        require_options(Some(&options)).expect("options"),
        FileOpenFlags::open_or_create()
    );
    assert_eq!(
        message(require_options(None).expect_err("null")),
        "open options must not be null"
    );
}

#[test]
fn database_configurations_are_read() {
    let read = |read_only| require_database_config(Some(&FfiDatabaseConfig { read_only }));
    assert_eq!(read(0).expect("config"), SlateDbAccessMode::ReadWrite);
    assert_eq!(read(1).expect("config"), SlateDbAccessMode::ReadOnly);
    for read_only in [2, -1] {
        assert_eq!(
            message(read(read_only).expect_err("config")),
            "database config read_only must be 0 or 1"
        );
    }
    assert_eq!(
        message(require_database_config(None).expect_err("null")),
        "database config must not be null"
    );
}

#[test]
fn texts_and_pointers_are_checked() {
    assert_eq!(require_path(Some(b"a/b"), "file path").expect("path"), "a/b");
    assert_eq!(
        message(require_path(None, "file path").expect_err("null")),
        "file path must not be null"
    );
    assert_eq!(
        message(require_path(Some(b"\xff"), "file path").expect_err("bytes")),
        "file path must be valid UTF-8"
    );
    assert_eq!(optional_string(&None, "x").expect("none"), None);
    assert_eq!(optional_string(&Some(Vec::new()), "x").expect("empty"), None);
    assert_eq!(
        optional_string(&Some(b"v".to_vec()), "x").expect("some"),
        Some("v".to_string())
    );
    assert!(require_pointer(false, "file size output").is_ok());
    assert_eq!(
        message(require_pointer(true, "file size output").expect_err("null")),
        "file size output must not be null"
    );
    assert!(require_buffer(true, 0, "read buffer").is_ok());
    assert!(require_buffer(false, 9, "read buffer").is_ok());
    assert_eq!(
        message(require_buffer(true, 1, "read buffer").expect_err("null")),
        "read buffer must not be null"
    );
    assert_eq!(require_local_root(Some(b"/tmp")).expect("root"), "/tmp");
    assert_eq!(
        message(require_local_root(Some(b"")).expect_err("empty")),
        "local root must not be empty"
    );
    assert_eq!(
        message(require_local_root(None).expect_err("null")),
        "local root must not be null"
    );
}

#[test]
fn outcomes_become_codes_and_messages() {
    let reply = ffi_result(FfiOutcome::Returned(Ok(())));
    assert_eq!(reply.code, 0);
    assert_eq!(reply.message, None);

    let reply = ffi_result(FfiOutcome::Returned(Err(Error::file_not_found(
        "a\0b\0", "here",
    ))));
    assert_eq!(reply.code, 2);
    assert_eq!(
        reply.message.as_deref(),
        Some("file not found: a\\0b\\0 (permanent) at here")
    );

    let reply = ffi_result(FfiOutcome::Panicked(Some("boom".to_string())));
    assert_eq!(reply.code, 6);
    assert_eq!(
        reply.message.as_deref(),
        Some("Rust panic while handling FFI call: boom (permanent) at src/ffi.rs")
    );
    let reply = ffi_result(FfiOutcome::Panicked(None));
    assert_eq!(
        reply.message.as_deref(),
        Some("Rust panic while handling FFI call: unknown Rust panic (permanent) at src/ffi.rs")
    );
}

#[test]
fn paths_are_routed_across_the_c_abi() {
    let fs = SlateDbFileSystem::new(SlateDbClient::ReadWrite, CacheMetrics::new());
    assert_eq!(can_handle(Some(&fs), Some(b"duckdb_objfs://a")), 1);
    assert_eq!(can_handle(Some(&fs), Some(b"s3://a")), 0);
    assert_eq!(can_handle(Some(&fs), Some(b"duckdb_objfs:\xff")), 0);
    assert_eq!(can_handle(Some(&fs), None), 0);
    assert_eq!(can_handle(None, Some(b"duckdb_objfs://a")), 0);
}

#[test]
fn unusable_handles_are_invalid_arguments() {
    assert_eq!(message(handle_closed()), "file handle is closed");
    assert_eq!(message(handle_poisoned()), "file handle lock is poisoned");
    assert_eq!(handle_closed().code(), ErrorCode::InvalidArgument);
}

#[test]
fn statistics_are_laid_out_for_the_c_abi() {
    let stats = FfiCacheStats::new(counted());
    assert_eq!(stats.block_cache_hits, 1);
    assert_eq!(stats.metadata_cache_misses, 600);
    assert_eq!(stats.persistent_cache_evicted_bytes, 9);
}
