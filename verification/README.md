# SlateFS

A filesystem for DuckDB on top of [SlateDB](https://slatedb.io/). A file is cut
into chunks of a fixed size, and the chunks, the file's metadata and the catalog
of paths are keys of one SlateDB database.

`src/` is the library. It decides what to read, what to write and what an answer
means, and is verified with Verus:

- `keys`, `ids`, `wire`, `file_metadata`: what is stored, and how;
- `chunks`, `chunk_manager`, `file_contents`: a file as chunks, and the changes to
  it that are not stored yet;
- `flags`, `file_handle`, `read_only_file_handle`, `handle_laws`: reading and
  writing through a handle;
- `catalog`, `database_metadata`, `slatefs`, `fs`, `catalog_laws`: paths, and the
  two filesystems that keep them;
- `read_coalescer`, `flush_batcher`, `request_record`: work that callers share;
- `cache`, `s3`, `object_store_errors`: the caches and the storage below;
- `ffi`: what crosses the C ABI;
- `error`, `error_struct`, `batch`, `index_map`, `parse`, `text`, `util`: the rest.

An operation that needs stored data does not fetch it. It says what to fetch, and
is called again with the answer.

`app/` runs the library against a database: it fetches, commits and flushes,
holds the locks and exports the C ABI. `tests/` holds the library's tests.
