//! DuckDB filesystem backed by [SlateDB](https://slatedb.io/).

pub mod batch;
pub mod cache;
pub mod call_laws;
pub mod catalog;
pub mod catalog_laws;
pub mod chunk_manager;
pub mod chunks;
pub mod database_metadata;
pub mod error;
pub mod error_struct;
pub mod ffi;
pub mod file_contents;
pub mod file_handle;
pub mod file_metadata;
pub mod flags;
pub mod flush_batcher;
pub mod fs;
pub mod fs_laws;
pub mod handle_laws;
pub mod ids;
pub mod index_map;
pub mod keys;
pub mod object_store_errors;
pub mod parse;
pub mod piece_laws;
pub mod read_coalescer;
pub mod read_only_file_handle;
pub mod request_record;
pub mod s3;
pub mod slatefs;
pub mod slatefs_laws;
pub mod text;
pub mod util;
pub mod wire;

pub use cache::{CacheConfig, CacheStats};
pub use error::{Error, ErrorCode, Result};
pub use error_struct::{ErrorStatus, ErrorStruct};
pub use file_handle::{FileHandle, SlateFileHandle};
pub use flags::FileOpenFlags;
pub use fs::{S3StorageConfig, SlateDbFileSystem, SlateDbReadOnlyFileSystem};
pub use slatefs::{FileSystem, SlateFs};
