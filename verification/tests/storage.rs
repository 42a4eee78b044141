//! Files on a store that is a map: chunks, handles and catalogs.

use std::collections::BTreeMap;

use slatefs::batch::{fits_in_batch, write_batch, Mutation};
use slatefs::cache::CacheMetrics;
use slatefs::catalog::{ReadRequest, Reads, Step};
use slatefs::chunk_manager::{
    coalesce_chunk_indices, ChunkFetch, ChunkManager, FetchedChunks, TruncateReads,
};
use slatefs::chunks::{
    scan_read_ahead_bytes, split_into_chunks, ChunkSlice, MAX_SCAN_READ_AHEAD_BYTES,
};
use slatefs::error::{Error, Result};
use slatefs::file_handle::{FileHandle, SlateFileClient, SlateFileHandle, WriteStep};
use slatefs::file_metadata::FileMetadata;
use slatefs::flags::FileOpenFlags;
use slatefs::fs::{SlateDbClient, SlateDbFileSystem};
use slatefs::ids::id_to_le_bytes;
use slatefs::keys;
use slatefs::read_only_file_handle::SlateReadOnlyFileHandle;
use slatefs::slatefs::{FileSystem, SlateFs};

const SMALL_CHUNK: usize = 8;

/// A store that can be made to fail its next operation.
#[derive(Default)]
struct TestStore {
    data: BTreeMap<Vec<u8>, Vec<u8>>,
    fail_next: bool,
}

impl TestStore {
    fn take_fault(&mut self) -> Result<()> {
        if self.fail_next {
            self.fail_next = false;
            return Err(Error::from(slatedb::Error::unavailable(
                "injected store fault".to_string(),
            )));
        }
        Ok(())
    }

    fn get(&mut self, key: &[u8]) -> Result<Option<Vec<u8>>> {
        self.take_fault()?;
        Ok(self.data.get(key).cloned())
    }

    fn scan_inclusive(&mut self, first: &[u8], last: &[u8]) -> Result<Vec<(Vec<u8>, Vec<u8>)>> {
        self.take_fault()?;
        Ok(self
            .data
            .range(first.to_vec()..=last.to_vec())
            .map(|(key, value)| (key.clone(), value.clone()))
            .collect())
    }

    fn keys_with_prefix(&mut self, prefix: &[u8]) -> Result<Vec<Vec<u8>>> {
        self.take_fault()?;
        Ok(self
            .data
            .keys()
            .filter(|key| key.starts_with(prefix))
            .cloned()
            .collect())
    }

    fn apply(&mut self, batch: Vec<Mutation>) {
        for mutation in batch {
            match mutation {
                Mutation::Put { key, value } => {
                    self.data.insert(key, value);
                }
                Mutation::Delete { key } => {
                    self.data.remove(&key);
                }
            }
        }
    }

    fn fetch(&mut self, fetches: Vec<ChunkFetch>) -> Result<FetchedChunks> {
        let mut fetched = FetchedChunks::new();
        for fetch in fetches {
            match fetch {
                ChunkFetch::Get { index, key } => {
                    let value = self.get(&key)?;
                    fetched.add_lookup(index, value);
                }
                ChunkFetch::Scan {
                    first_key,
                    last_key,
                    ..
                } => {
                    let pairs = self.scan_inclusive(&first_key, &last_key)?;
                    fetched.add_scan(pairs)?;
                }
            }
        }
        Ok(fetched)
    }

    fn truncate_answers(
        &mut self,
        reads: TruncateReads,
    ) -> Result<(Option<Vec<u8>>, Vec<Vec<u8>>)> {
        let last = match reads.last_chunk_key {
            Some(key) => self.get(&key)?,
            None => None,
        };
        Ok((last, self.keys_with_prefix(&reads.prefix)?))
    }

    fn answer(&mut self, request: ReadRequest, reads: &mut Reads) {
        match request {
            ReadRequest::Get(key) => {
                let value = self.data.get(&key).cloned();
                reads.add_get(key, value);
            }
            ReadRequest::KeysWithPrefix(prefix) => {
                let keys = self.keys_with_prefix(&prefix).expect("keys");
                reads.add_scan(prefix, keys);
            }
        }
    }

    fn run<T>(&mut self, operation: impl Fn(&Reads) -> Result<Step<T>>) -> Result<T> {
        let mut reads = Reads::new();
        loop {
            match operation(&reads)? {
                Step::Read(request) => self.answer(request, &mut reads),
                Step::Done(value) => return Ok(value),
            }
        }
    }
}

// Chunk managers.

fn manager(file_id: u64) -> ChunkManager {
    ChunkManager::new(file_id, SMALL_CHUNK)
}

fn write(
    manager: &mut ChunkManager,
    store: &mut TestStore,
    file_id: u64,
    data: &[u8],
    offset: u64,
) -> Result<()> {
    let mut fetched = FetchedChunks::new();
    while let Some(index) = manager.write(data, offset, &fetched) {
        let value = store.get(&keys::chunk_key(file_id, index))?;
        fetched.add_contents(index, value);
    }
    Ok(())
}

fn truncate(manager: &mut ChunkManager, store: &mut TestStore, new_size: u64) -> Result<()> {
    let (last, keys) = store.truncate_answers(manager.truncate_reads(new_size))?;
    manager.truncate(new_size, last, &keys)
}

fn flush(manager: &mut ChunkManager, store: &mut TestStore) {
    let mut batch = Vec::new();
    manager.add_pending_to_batch(&mut batch);
    store.apply(batch);
    manager.mark_flushed();
}

fn read_to_vec(manager: &ChunkManager, store: &mut TestStore, len: usize, offset: u64) -> Vec<u8> {
    let mut buf = vec![b'?'; len];
    let fetched = store.fetch(manager.read_fetches(len, offset)).expect("fetch");
    manager.read(&mut buf, offset, &fetched);
    buf
}

fn groups(indices: &[u64]) -> Vec<std::ops::RangeInclusive<u64>> {
    coalesce_chunk_indices(indices)
        .iter()
        .map(|range| range.first..=range.last)
        .collect()
}

#[test]
fn coalescing_groups_only_adjacent_chunk_indices() {
    assert!(groups(&[]).is_empty());
    assert_eq!(groups(&[7]), vec![7..=7]);
    assert_eq!(groups(&[0, 1, 2]), vec![0..=2]);
    assert_eq!(groups(&[0, 1, 3, 6, 7]), vec![0..=1, 3..=3, 6..=7]);
    assert_eq!(
        groups(&[u64::MAX - 1, u64::MAX]),
        vec![u64::MAX - 1..=u64::MAX]
    );
}

#[test]
fn scan_read_ahead_tracks_span_and_caps_at_four_mib() {
    assert_eq!(scan_read_ahead_bytes(4, 5, SMALL_CHUNK), 2 * SMALL_CHUNK);
    assert_eq!(
        scan_read_ahead_bytes(0, u64::MAX, usize::MAX),
        MAX_SCAN_READ_AHEAD_BYTES
    );
}

#[test]
fn scan_read_ahead_is_at_least_one_byte() {
    assert_eq!(scan_read_ahead_bytes(3, 9, 0), 1);
    assert_eq!(scan_read_ahead_bytes(9, 3, SMALL_CHUNK), SMALL_CHUNK);
    assert_eq!(MAX_SCAN_READ_AHEAD_BYTES, 4 * 1024 * 1024);
}

#[test]
fn spans_split_at_chunk_boundaries() {
    let slice = |chunk_idx, buf_offset, chunk_offset, len| ChunkSlice {
        chunk_idx,
        buf_offset,
        chunk_offset,
        len,
    };
    assert!(split_into_chunks(8, 0, 0, 5).is_empty());
    assert_eq!(
        split_into_chunks(8, 0, 20, 5),
        vec![slice(0, 0, 5, 3), slice(1, 3, 0, 8), slice(2, 11, 0, 8), slice(3, 19, 0, 1)]
    );
    // A block at a multiple of the chunk size is one whole chunk.
    assert_eq!(split_into_chunks(8, 0, 8, 24), vec![slice(3, 0, 0, 8)]);
    assert_eq!(
        split_into_chunks(8, 0, 4, u64::MAX - 3),
        vec![slice(u64::MAX / 8, 0, 4, 4)]
    );
    // With blocks from offset 5 on, the first chunk starts three bytes before the file.
    assert_eq!(
        split_into_chunks(8, 3, 7, 0),
        vec![slice(0, 0, 3, 5), slice(1, 5, 0, 2)]
    );
    assert_eq!(split_into_chunks(8, 3, 8, 5), vec![slice(1, 0, 0, 8)]);
    assert_eq!(split_into_chunks(8, 3, 8, 13), vec![slice(2, 0, 0, 8)]);
    assert_eq!(
        split_into_chunks(8, 3, 4, u64::MAX - 3),
        vec![slice(u64::MAX / 8, 0, 7, 1), slice(u64::MAX / 8 + 1, 1, 0, 3)]
    );
}

#[test]
fn writes_spanning_chunks_read_back_whole() {
    let mut store = TestStore::default();
    let mut manager = manager(1);

    assert!(!manager.has_pending_changes());
    write(&mut manager, &mut store, 1, b"abcdefghij", 0).unwrap();
    assert!(manager.has_pending_changes());

    // Staged writes are visible before and after the flush.
    assert_eq!(read_to_vec(&manager, &mut store, 10, 0), b"abcdefghij");
    flush(&mut manager, &mut store);
    assert!(!manager.has_pending_changes());
    assert_eq!(read_to_vec(&manager, &mut store, 4, 6), b"ghij");

    // A write straddling the chunk boundary keeps the untouched bytes.
    write(&mut manager, &mut store, 1, b"XY", SMALL_CHUNK as u64 - 1).unwrap();
    assert_eq!(read_to_vec(&manager, &mut store, 10, 0), b"abcdefgXYj");
}

#[test]
fn reads_past_the_last_chunk_are_zero() {
    let mut store = TestStore::default();
    let mut manager = manager(2);

    write(&mut manager, &mut store, 2, b"abc", 0).unwrap();
    flush(&mut manager, &mut store);

    // The manager has no notion of file length: uncovered bytes read as zero.
    assert_eq!(read_to_vec(&manager, &mut store, 6, 0), b"abc\0\0\0");
    assert_eq!(read_to_vec(&manager, &mut store, 4, 64), b"\0\0\0\0");
}

#[test]
fn reads_coalesced_chunks_skip_absent_keys() {
    let mut store = TestStore::default();
    let mut manager = manager(7);

    // Chunks 0, 1 and 3 are persisted; chunk 2 is a hole.
    write(&mut manager, &mut store, 7, b"aaaaaaaabbbbbbbb", 0).unwrap();
    write(&mut manager, &mut store, 7, b"dddddddd", 3 * SMALL_CHUNK as u64).unwrap();
    flush(&mut manager, &mut store);

    // The next file's chunks sort right after; a scan must stop before them.
    let mut other = ChunkManager::new(8, SMALL_CHUNK);
    write(&mut other, &mut store, 8, b"xxxxxxxx", 0).unwrap();
    flush(&mut other, &mut store);

    let fetches = manager.chunk_fetches(&[0, 1, 2, 3]);
    assert_eq!(fetches.len(), 1);
    match &fetches[0] {
        ChunkFetch::Scan {
            range,
            first_key,
            last_key,
            read_ahead_bytes,
        } => {
            assert_eq!((range.first, range.last), (0, 3));
            assert_eq!(first_key, &keys::chunk_key(7, 0));
            assert_eq!(last_key, &keys::chunk_key(7, 3));
            assert_eq!(*read_ahead_bytes, 4 * SMALL_CHUNK);
        }
        other => panic!("unexpected fetch: {other:?}"),
    }
    let chunks = store.fetch(fetches).unwrap();
    assert_eq!(chunks.indices(), vec![0, 1, 3]);
    assert_eq!(chunks.get(0).unwrap(), b"aaaaaaaa");
    assert_eq!(chunks.get(3).unwrap(), b"dddddddd");

    // A lone index is fetched with a point lookup rather than a scan.
    let fetches = manager.chunk_fetches(&[3]);
    assert!(matches!(fetches[..], [ChunkFetch::Get { index: 3, .. }]));
    let chunks = store.fetch(fetches).unwrap();
    assert_eq!(chunks.indices(), vec![3]);

    // The hole between the two persisted ranges still reads as zeroes.
    assert_eq!(
        read_to_vec(&manager, &mut store, 4 * SMALL_CHUNK, 0),
        b"aaaaaaaabbbbbbbb\0\0\0\0\0\0\0\0dddddddd"
    );
}

#[test]
fn truncate_shortens_the_last_chunk_and_deletes_the_rest() {
    let mut store = TestStore::default();
    let mut manager = manager(3);

    write(&mut manager, &mut store, 3, b"aaaaaaaabbbbbbbbcccccccc", 0).unwrap();
    flush(&mut manager, &mut store);

    truncate(&mut manager, &mut store, SMALL_CHUNK as u64 + 3).unwrap();
    assert!(manager.has_pending_changes());
    assert_eq!(
        read_to_vec(&manager, &mut store, 3 * SMALL_CHUNK, 0),
        b"aaaaaaaabbb\0\0\0\0\0\0\0\0\0\0\0\0\0"
    );

    // The deletes reach the store, so the dropped chunks stay gone.
    flush(&mut manager, &mut store);
    let fetches = manager.chunk_fetches(&[0, 1, 2]);
    assert_eq!(store.fetch(fetches).unwrap().indices().len(), 2);

    truncate(&mut manager, &mut store, 0).unwrap();
    flush(&mut manager, &mut store);
    let fetches = manager.chunk_fetches(&[0, 1, 2]);
    assert!(store.fetch(fetches).unwrap().indices().is_empty());
}

#[test]
fn failed_truncate_keeps_staged_writes() {
    let mut store = TestStore::default();
    let mut manager = manager(4);

    write(&mut manager, &mut store, 4, b"abcdefghij", 0).unwrap();

    store.fail_next = true;
    assert!(matches!(
        truncate(&mut manager, &mut store, 5),
        Err(Error::SlateDb(_))
    ));
    store.fail_next = true;
    assert!(matches!(
        truncate(&mut manager, &mut store, 0),
        Err(Error::SlateDb(_))
    ));

    assert_eq!(read_to_vec(&manager, &mut store, 10, 0), b"abcdefghij");
}

#[test]
fn a_truncation_that_meets_an_unreadable_key_changes_nothing() {
    let mut store = TestStore::default();
    let mut manager = manager(4);
    write(&mut manager, &mut store, 4, b"abcdefghij", 0).unwrap();

    let stray = vec![keys::chunk_key(4, 0), b"c/stray".to_vec()];
    for new_size in [0, 5] {
        let error = manager.truncate(new_size, None, &stray).expect_err("stray key");
        assert!(matches!(error, Error::MetadataDecode(_)));
        assert!(error.to_string().contains("invalid chunk index in key: c/stray"));
        assert_eq!(read_to_vec(&manager, &mut store, 10, 0), b"abcdefghij");
    }
}

#[test]
fn a_scan_that_meets_an_unreadable_key_fails() {
    let mut fetched = FetchedChunks::new();
    let error = fetched
        .add_scan(vec![
            (keys::chunk_key(1, 0), b"a".to_vec()),
            (b"\xff".to_vec(), b"b".to_vec()),
        ])
        .expect_err("stray key");
    assert!(error.to_string().contains("chunk key is not valid utf-8"));
}

#[test]
fn a_write_asks_for_the_chunks_it_changes_in_part() {
    let mut store = TestStore::default();
    let mut manager = manager(5);
    write(&mut manager, &mut store, 5, b"aaaaaaaabbbbbbbbcccccccc", 0).unwrap();
    flush(&mut manager, &mut store);

    // Parts of chunks 0 and 2, and all of chunk 1.
    let data = [b'X'; 12];
    let mut fetched = FetchedChunks::new();
    assert_eq!(manager.write(&data, 6, &fetched), Some(0));
    fetched.add_contents(0, store.get(&keys::chunk_key(5, 0)).unwrap());
    assert_eq!(manager.write(&data, 6, &fetched), Some(2));
    fetched.add_contents(2, store.get(&keys::chunk_key(5, 2)).unwrap());
    assert_eq!(manager.write(&data, 6, &fetched), None);
    assert_eq!(
        read_to_vec(&manager, &mut store, 24, 0),
        b"aaaaaaXXXXXXXXXXXXcccccc"
    );

    // Staged chunks are not fetched, and neither are whole ones.
    assert!(manager.read_fetches(24, 0).is_empty());
    let mut fresh = ChunkManager::new(5, SMALL_CHUNK);
    assert_eq!(fresh.write(&[b'Z'; 8], 8, &FetchedChunks::new()), None);
    assert_eq!(fresh.chunk_size(), 8);
}

#[test]
fn a_batch_lists_changes_in_chunk_order() {
    let mut manager = manager(6);
    let mut fetched = FetchedChunks::new();
    fetched.add_contents(2, None);
    fetched.add_contents(0, None);
    assert_eq!(manager.write(b"cc", 16, &fetched), None);
    assert_eq!(manager.write(b"aa", 0, &fetched), None);
    manager
        .truncate(4, None, &[keys::chunk_key(6, 0), keys::chunk_key(6, 1)])
        .expect("truncate");

    let mut batch = vec![Mutation::Delete { key: b"first".to_vec() }];
    manager.add_pending_to_batch(&mut batch);
    let described: Vec<(Vec<u8>, Option<Vec<u8>>)> = batch
        .into_iter()
        .map(|mutation| match mutation {
            Mutation::Put { key, value } => (key, Some(value)),
            Mutation::Delete { key } => (key, None),
        })
        .collect();
    assert_eq!(
        described,
        vec![
            (b"first".to_vec(), None),
            (keys::chunk_key(6, 0), Some(b"aa".to_vec())),
            (keys::chunk_key(6, 1), None),
        ]
    );
}

// Handles.

fn new_metadata() -> FileMetadata {
    FileMetadata {
        size: 0,
        modified_at_ms: 1,
        chunk_size: SMALL_CHUNK as u64,
        chunk_base_offset: 0,
    }
}

fn handle(file_id: u64, flags: FileOpenFlags) -> SlateFileHandle {
    SlateFileHandle::new(SlateFileClient::ReadWrite, file_id, new_metadata(), flags).unwrap()
}

fn stored_metadata(store: &mut TestStore, file_id: u64) -> FileMetadata {
    let bytes = store
        .get(&keys::metadata_key(file_id))
        .unwrap()
        .expect("metadata");
    FileMetadata::decode_from_bytes(&bytes).unwrap()
}

fn reopen(store: &mut TestStore, file_id: u64, flags: FileOpenFlags) -> SlateFileHandle {
    let metadata = stored_metadata(store, file_id);
    SlateFileHandle::new(SlateFileClient::ReadWrite, file_id, metadata, flags).unwrap()
}

fn h_pread<H: FileHandle>(
    handle: &H,
    store: &mut TestStore,
    buf: &mut [u8],
    offset: u64,
) -> Result<usize> {
    let fetched = store.fetch(handle.pread_fetches(buf.len(), offset)?)?;
    handle.pread(buf, offset, &fetched)
}

fn h_read<H: FileHandle>(handle: &mut H, store: &mut TestStore, buf: &mut [u8]) -> Result<usize> {
    let fetched = store.fetch(handle.read_fetches(buf.len())?)?;
    handle.read(buf, &fetched)
}

fn h_pwrite<H: FileHandle>(
    handle: &mut H,
    store: &mut TestStore,
    data: &[u8],
    offset: u64,
) -> Result<()> {
    let mut fetched = FetchedChunks::new();
    while let Some(index) = handle.pwrite(data, offset, &fetched)? {
        let value = store.get(&keys::chunk_key(handle.file_id(), index))?;
        fetched.add_contents(index, value);
    }
    Ok(())
}

fn h_write<H: FileHandle>(handle: &mut H, store: &mut TestStore, data: &[u8]) -> Result<usize> {
    let mut fetched = FetchedChunks::new();
    loop {
        match handle.write(data, &fetched)? {
            WriteStep::Written(n) => return Ok(n),
            WriteStep::NeedsChunk(index) => {
                let value = store.get(&keys::chunk_key(handle.file_id(), index))?;
                fetched.add_contents(index, value);
            }
        }
    }
}

fn h_sync<H: FileHandle>(handle: &mut H, store: &mut TestStore) -> Result<()> {
    if let Some(batch) = handle.sync_batch()? {
        store.take_fault()?;
        store.apply(batch);
        handle.mark_synced();
    }
    Ok(())
}

fn h_truncate<H: FileHandle>(
    handle: &mut H,
    store: &mut TestStore,
    new_size: u64,
) -> Result<()> {
    let (last, keys) = match handle.truncate_reads(new_size)? {
        Some(reads) => store.truncate_answers(reads)?,
        None => (None, Vec::new()),
    };
    handle.truncate(new_size, last, &keys)
}

#[test]
fn sequential_io_tracks_position() {
    let mut store = TestStore::default();
    let mut handle = handle(1, FileOpenFlags::open_or_create());

    assert_eq!(h_write(&mut handle, &mut store, b"abcdef").unwrap(), 6);
    assert_eq!(handle.seek_position(), 6);

    handle.seek(2);
    let mut buf = [0u8; 3];
    assert_eq!(h_read(&mut handle, &mut store, &mut buf).unwrap(), 3);
    assert_eq!(&buf, b"cde");
    handle.reset();
    assert_eq!(handle.seek_position(), 0);

    h_sync(&mut handle, &mut store).unwrap();
}

#[test]
fn positional_reads_can_share_a_handle() {
    let mut store = TestStore::default();
    let mut handle = handle(11, FileOpenFlags::open_or_create());
    h_pwrite(&mut handle, &mut store, b"abcdefgh", 0).unwrap();
    h_sync(&mut handle, &mut store).unwrap();

    let mut first = [0; 4];
    let mut second = [0; 4];
    let shared = &handle;
    let first_fetched = store.fetch(shared.pread_fetches(4, 0).unwrap()).unwrap();
    let second_fetched = store.fetch(shared.pread_fetches(4, 4).unwrap()).unwrap();
    let first_read = shared.pread(&mut first, 0, &first_fetched);
    let second_read = shared.pread(&mut second, 4, &second_fetched);

    assert_eq!(first_read.unwrap(), first.len());
    assert_eq!(second_read.unwrap(), second.len());
    assert_eq!(&first, b"abcd");
    assert_eq!(&second, b"efgh");
}

#[test]
fn writes_persist_across_chunks_and_reopen() {
    let mut store = TestStore::default();
    let mut handle = handle(2, FileOpenFlags::open_or_create());

    h_pwrite(&mut handle, &mut store, b"hello", 0).unwrap();
    h_pwrite(&mut handle, &mut store, b"xyz", SMALL_CHUNK as u64 - 1).unwrap();
    assert_eq!(handle.file_size(), SMALL_CHUNK as u64 + 2);
    h_sync(&mut handle, &mut store).unwrap();

    let reopened = reopen(&mut store, 2, FileOpenFlags::read_only());
    let mut boundary = [0u8; 3];
    h_pread(&reopened, &mut store, &mut boundary, SMALL_CHUNK as u64 - 1).unwrap();
    assert_eq!(&boundary, b"xyz");
}

#[test]
fn append_writes_at_end_after_reopen() {
    let mut store = TestStore::default();
    let mut writer = handle(6, FileOpenFlags::open_or_create());
    h_write(&mut writer, &mut store, b"abc").unwrap();
    h_sync(&mut writer, &mut store).unwrap();

    let mut appender = reopen(&mut store, 6, FileOpenFlags::append());
    assert_eq!(appender.seek_position(), 3);
    appender.seek(0);
    h_write(&mut appender, &mut store, b"def").unwrap();
    assert_eq!(appender.seek_position(), 6);
    h_sync(&mut appender, &mut store).unwrap();

    let mut reader = reopen(&mut store, 6, FileOpenFlags::read_only());
    let mut contents = [0; 6];
    assert_eq!(
        h_read(&mut reader, &mut store, &mut contents).unwrap(),
        contents.len()
    );
    assert_eq!(&contents, b"abcdef");
}

#[test]
fn reads_stop_at_the_end_of_the_file() {
    let mut store = TestStore::default();
    let mut handle = handle(10, FileOpenFlags::open_or_create());

    h_pwrite(&mut handle, &mut store, b"abc", 0).unwrap();

    // The buffer outlives the file: only its own bytes are reported.
    let mut buf = [b'?'; 6];
    assert_eq!(h_pread(&handle, &mut store, &mut buf, 0).unwrap(), 3);
    assert_eq!(&buf, b"abc???");
    assert_eq!(h_pread(&handle, &mut store, &mut buf, 3).unwrap(), 0);
}

#[test]
fn reads_span_persisted_and_pending_chunks() {
    let mut store = TestStore::default();
    let mut writer = handle(8, FileOpenFlags::open_or_create());
    h_pwrite(&mut writer, &mut store, b"aaaaaaaabbbbbbbbccccccccdddddddd", 0).unwrap();
    h_sync(&mut writer, &mut store).unwrap();

    // Chunk 2 is only pending, so the chunks either side form two ranges.
    let mut handle = reopen(&mut store, 8, FileOpenFlags::open_or_create());
    h_pwrite(&mut handle, &mut store, b"CCCCCCCC", 2 * SMALL_CHUNK as u64).unwrap();
    assert_eq!(handle.pread_fetches(4 * SMALL_CHUNK, 0).unwrap().len(), 2);

    let mut buf = [0u8; 4 * SMALL_CHUNK];
    assert_eq!(h_pread(&handle, &mut store, &mut buf, 0).unwrap(), buf.len());
    assert_eq!(&buf, b"aaaaaaaabbbbbbbbCCCCCCCCdddddddd");
}

#[test]
fn truncate_hides_persisted_chunks_before_sync() {
    let mut store = TestStore::default();
    let mut handle = handle(9, FileOpenFlags::open_or_create());
    h_pwrite(&mut handle, &mut store, b"aaaaaaaabbbbbbbbcccccccc", 0).unwrap();
    h_sync(&mut handle, &mut store).unwrap();

    // Chunks 1 and 2 are persisted but pending deletion: a hole before flush.
    h_truncate(&mut handle, &mut store, SMALL_CHUNK as u64).unwrap();
    h_truncate(&mut handle, &mut store, 3 * SMALL_CHUNK as u64).unwrap();
    let mut buf = [0u8; 3 * SMALL_CHUNK];
    assert_eq!(h_pread(&handle, &mut store, &mut buf, 0).unwrap(), buf.len());
    assert_eq!(&buf[..SMALL_CHUNK], b"aaaaaaaa");
    assert!(buf[SMALL_CHUNK..].iter().all(|byte| *byte == 0));

    // Rewriting a chunk pending deletion replaces the delete.
    h_pwrite(&mut handle, &mut store, b"ZZZZZZZZ", SMALL_CHUNK as u64).unwrap();
    h_sync(&mut handle, &mut store).unwrap();

    let reopened = reopen(&mut store, 9, FileOpenFlags::read_only());
    assert_eq!(h_pread(&reopened, &mut store, &mut buf, 0).unwrap(), buf.len());
    assert_eq!(&buf, b"aaaaaaaaZZZZZZZZ\0\0\0\0\0\0\0\0");
}

#[test]
fn truncate_then_sparse_write_reads_as_zero() {
    let mut store = TestStore::default();
    let mut handle = handle(3, FileOpenFlags::open_or_create());

    h_pwrite(&mut handle, &mut store, b"abcdefghij", 0).unwrap();
    h_sync(&mut handle, &mut store).unwrap();
    h_truncate(&mut handle, &mut store, 5).unwrap();
    h_pwrite(&mut handle, &mut store, b"Z", 8).unwrap();

    let mut buf = [0u8; 9];
    h_pread(&handle, &mut store, &mut buf, 0).unwrap();
    assert_eq!(&buf[..5], b"abcde");
    assert_eq!(&buf[5..8], &[0, 0, 0]);
    assert_eq!(buf[8], b'Z');
}

#[test]
fn failed_truncate_preserves_unflushed_writes() {
    let mut store = TestStore::default();
    let mut handle = handle(5, FileOpenFlags::open_or_create());

    h_pwrite(&mut handle, &mut store, b"abcdefghij", 0).unwrap();
    assert_eq!(handle.file_size(), 10);

    // A truncation that cannot read the store changes nothing.
    store.fail_next = true;
    assert!(matches!(
        h_truncate(&mut handle, &mut store, 5),
        Err(Error::SlateDb(_))
    ));
    assert_eq!(handle.file_size(), 10);

    store.fail_next = true;
    assert!(matches!(
        h_truncate(&mut handle, &mut store, 0),
        Err(Error::SlateDb(_))
    ));
    assert_eq!(handle.file_size(), 10);

    let mut buf = [0u8; 10];
    assert_eq!(h_pread(&handle, &mut store, &mut buf, 0).unwrap(), 10);
    assert_eq!(&buf, b"abcdefghij");
}

#[test]
fn read_only_handle_rejects_writes() {
    let mut store = TestStore::default();
    let mut writer = handle(4, FileOpenFlags::open_or_create());
    h_pwrite(&mut writer, &mut store, b"abc", 0).unwrap();
    h_sync(&mut writer, &mut store).unwrap();

    let mut read_only = reopen(&mut store, 4, FileOpenFlags::read_only());
    assert!(matches!(
        h_pwrite(&mut read_only, &mut store, b"z", 0),
        Err(Error::ReadOnlyViolation(_))
    ));
    assert!(matches!(
        h_truncate(&mut read_only, &mut store, 0),
        Err(Error::ReadOnlyViolation(_))
    ));
}

#[test]
fn write_only_handles_reject_reads() {
    let mut store = TestStore::default();
    let mut handle = handle(4, FileOpenFlags::append());
    h_write(&mut handle, &mut store, b"abc").unwrap();

    let mut buf = [b'?'; 2];
    let error = h_pread(&handle, &mut store, &mut buf, 0).expect_err("not readable");
    assert_eq!(
        error.to_string(),
        "cannot read file_id 4: not opened for that access (permanent) at src/flags.rs"
    );
    handle.seek(0);
    assert!(matches!(
        handle.read(&mut buf, &FetchedChunks::new()),
        Err(Error::InvalidArgument(_))
    ));
    assert_eq!(&buf, b"??");
    // At the end of the file there is nothing to refuse.
    handle.seek(3);
    assert_eq!(handle.read(&mut buf, &FetchedChunks::new()).unwrap(), 0);
}

#[test]
fn a_write_past_the_largest_offset_is_refused() {
    let mut store = TestStore::default();
    let mut handle = handle(12, FileOpenFlags::open_or_create());
    let error = h_pwrite(&mut handle, &mut store, b"ab", u64::MAX - 1).expect_err("overflow");
    assert_eq!(
        error.to_string(),
        "write overflow for file_id 12 (permanent) at src/file_handle.rs"
    );
    assert_eq!(handle.file_size(), 0);
    h_pwrite(&mut handle, &mut store, b"a", u64::MAX - 1).unwrap();
    assert_eq!(handle.file_size(), u64::MAX);
}

#[test]
fn a_sync_writes_the_record_last_and_only_when_there_is_something() {
    let mut store = TestStore::default();
    let mut handle = handle(13, FileOpenFlags::open_or_create());
    assert!(handle.sync_batch().unwrap().is_none());

    h_pwrite(&mut handle, &mut store, b"0123456789", 0).unwrap();
    let batch = handle.sync_batch().unwrap().expect("batch");
    assert_eq!(batch.len(), 3);
    match &batch[2] {
        Mutation::Put { key, value } => {
            assert_eq!(key, &keys::metadata_key(13));
            let metadata = FileMetadata::decode_from_bytes(value).unwrap();
            assert_eq!(metadata.size, 10);
            assert_eq!(metadata.modified_at_ms, handle.get_last_modified_time());
            assert!(metadata.modified_at_ms > 1);
        }
        other => panic!("unexpected mutation: {other:?}"),
    }
    h_sync(&mut handle, &mut store).unwrap();
    assert!(handle.sync_batch().unwrap().is_none());

    // Growing a file changes its record alone.
    h_truncate(&mut handle, &mut store, 20).unwrap();
    assert_eq!(handle.sync_batch().unwrap().expect("batch").len(), 1);
}

#[test]
fn a_handle_keeps_the_recorded_base_offset() {
    let mut store = TestStore::default();
    let metadata = FileMetadata { chunk_base_offset: 3, ..new_metadata() };
    let mut handle = SlateFileHandle::new(
        SlateFileClient::ReadWrite,
        14,
        metadata,
        FileOpenFlags::read_write(),
    )
    .unwrap();
    h_pwrite(&mut handle, &mut store, b"x", 0).unwrap();
    h_sync(&mut handle, &mut store).unwrap();
    assert_eq!(stored_metadata(&mut store, 14).chunk_base_offset, 3);
}

#[test]
fn blocks_from_the_base_offset_on_fill_one_chunk_each() {
    let mut store = TestStore::default();
    let metadata = FileMetadata { chunk_base_offset: 3, ..new_metadata() };
    let flags = FileOpenFlags::read_write();
    let mut handle =
        SlateFileHandle::new(SlateFileClient::ReadWrite, 16, metadata, flags).unwrap();
    h_pwrite(&mut handle, &mut store, b"hdr", 0).unwrap();
    let block = vec![b'b'; SMALL_CHUNK];
    for index in 0..2 {
        let offset = 3 + (index * SMALL_CHUNK) as u64;
        // A block fills its chunk, so nothing has to be fetched for it.
        assert_eq!(handle.pwrite(&block, offset, &FetchedChunks::new()).unwrap(), None);
    }
    h_sync(&mut handle, &mut store).unwrap();

    let first = store.get(&keys::chunk_key(16, 0)).unwrap().expect("header");
    assert_eq!(first, [vec![0; SMALL_CHUNK - 3], b"hdr".to_vec()].concat());
    for index in 1..3 {
        let stored = store.get(&keys::chunk_key(16, index)).unwrap();
        assert_eq!(stored.as_deref(), Some(&block[..]));
    }
    assert_eq!(store.get(&keys::chunk_key(16, 3)).unwrap(), None);

    let mut reader = reopen(&mut store, 16, FileOpenFlags::read_only());
    let mut buf = vec![b'?'; 3 + 2 * SMALL_CHUNK];
    assert_eq!(h_read(&mut reader, &mut store, &mut buf).unwrap(), 3 + 2 * SMALL_CHUNK);
    assert_eq!(buf, [b"hdr".to_vec(), block.clone(), block].concat());

    // Cutting the file inside a block cuts that block's chunk.
    let mut handle = reopen(&mut store, 16, flags);
    h_truncate(&mut handle, &mut store, 3 + SMALL_CHUNK as u64 + 1).unwrap();
    h_sync(&mut handle, &mut store).unwrap();
    let mut buf = vec![b'?'; 4 + SMALL_CHUNK];
    assert_eq!(h_pread(&handle, &mut store, &mut buf, 0).unwrap(), 4 + SMALL_CHUNK);
    assert_eq!(&buf[..3], b"hdr");
    assert!(buf[3..].iter().all(|byte| *byte == b'b'));
    assert_eq!(h_pread(&handle, &mut store, &mut buf, 4 + SMALL_CHUNK as u64).unwrap(), 0);
}

#[test]
fn default_blocks_fill_one_chunk_each() {
    let metadata = FileMetadata::new_at(1);
    let base = metadata.chunk_base_offset;
    let chunk_size = metadata.chunk_size as usize;
    let flags = FileOpenFlags::read_write();
    let mut handle =
        SlateFileHandle::new(SlateFileClient::ReadWrite, 17, metadata, flags).unwrap();
    let block = vec![7u8; chunk_size];
    let offset = base + 2 * chunk_size as u64;
    assert_eq!(handle.pwrite(&block, offset, &FetchedChunks::new()).unwrap(), None);
    assert_eq!(handle.sync_batch().unwrap().expect("batch").len(), 2);
}

#[test]
fn handles_that_make_no_sense_are_not_opened() {
    let flags = FileOpenFlags::read_only();
    let open = |client, metadata, flags| SlateFileHandle::new(client, 5, metadata, flags);
    let broken = FileMetadata { chunk_size: 0, ..new_metadata() };
    assert!(matches!(
        open(SlateFileClient::ReadWrite, broken, flags),
        Err(Error::InvalidArgument(_))
    ));
    let senseless = FileOpenFlags { read: false, ..flags };
    let error = open(SlateFileClient::ReadWrite, new_metadata(), senseless).expect_err("flags");
    assert!(error.to_string().contains("at least one of read or write"));
    let error = open(SlateFileClient::ReadOnly, new_metadata(), FileOpenFlags::append())
        .expect_err("write-only");
    assert!(error.to_string().contains("cannot read file_id 5"));
    let error = open(SlateFileClient::ReadOnly, new_metadata(), FileOpenFlags::read_write())
        .expect_err("writable");
    assert!(matches!(error, Error::ReadOnlyViolation(_)));
    assert!(open(SlateFileClient::ReadOnly, new_metadata(), flags).is_ok());
}

#[test]
fn read_only_file_handles_read_and_refuse() {
    let mut store = TestStore::default();
    let mut writer = handle(15, FileOpenFlags::open_or_create());
    h_pwrite(&mut writer, &mut store, b"contents", 0).unwrap();
    h_sync(&mut writer, &mut store).unwrap();

    let metadata = stored_metadata(&mut store, 15);
    let mut reader =
        SlateReadOnlyFileHandle::new(15, metadata, FileOpenFlags::read_only()).unwrap();
    let mut buf = [b'?'; 5];
    assert_eq!(h_read(&mut reader, &mut store, &mut buf).unwrap(), 5);
    assert_eq!(&buf, b"conte");
    assert_eq!(h_read(&mut reader, &mut store, &mut buf).unwrap(), 3);
    assert_eq!(&buf, b"ntste");
    assert_eq!(reader.seek_position(), 8);
    assert_eq!(h_pread(&reader, &mut store, &mut buf, 4).unwrap(), 4);
    assert_eq!(&buf, b"entse");
    assert!(matches!(
        h_pwrite(&mut reader, &mut store, b"x", 0),
        Err(Error::ReadOnlyViolation(_))
    ));
    assert!(matches!(
        h_write(&mut reader, &mut store, b"x"),
        Err(Error::ReadOnlyViolation(_))
    ));
    assert!(matches!(
        h_truncate(&mut reader, &mut store, 0),
        Err(Error::ReadOnlyViolation(_))
    ));
    assert!(reader.sync_batch().unwrap().is_none());
    reader.mark_synced();
    assert_eq!(reader.seek_position(), 8);
    assert_eq!(reader.file_size(), 8);
    reader.reset();
    assert_eq!(reader.seek_position(), 0);
    assert_eq!(reader.file_size(), 8);
    assert_eq!(reader.file_id(), 15);
    assert!(reader.flags().read);

    let mut reader =
        SlateReadOnlyFileHandle::new(15, metadata, FileOpenFlags::read_write()).unwrap();
    assert!(matches!(
        h_pwrite(&mut reader, &mut store, b"x", 0),
        Err(Error::ReadOnlyViolation(_))
    ));
    assert!(matches!(
        h_pwrite(&mut reader, &mut store, b"", u64::MAX),
        Err(Error::ReadOnlyViolation(_))
    ));
    assert!(matches!(
        h_write(&mut reader, &mut store, b"x"),
        Err(Error::ReadOnlyViolation(_))
    ));
    assert!(matches!(
        h_truncate(&mut reader, &mut store, 0),
        Err(Error::ReadOnlyViolation(_))
    ));
    assert!(matches!(
        reader.truncate(8, None, &[]),
        Err(Error::ReadOnlyViolation(_))
    ));
    assert_eq!(reader.file_size(), 8);
    assert!(reader.sync_batch().unwrap().is_none());

    let error = SlateReadOnlyFileHandle::new(15, metadata, FileOpenFlags::append())
        .expect_err("write-only");
    assert!(matches!(error, Error::InvalidArgument(_)));
}

// The filesystem over the database catalog.

fn fs() -> SlateDbFileSystem {
    SlateDbFileSystem::new(SlateDbClient::ReadWrite, CacheMetrics::new())
}

fn fs_open(
    fs: &SlateDbFileSystem,
    store: &mut TestStore,
    path: &str,
    flags: FileOpenFlags,
) -> Result<SlateFileHandle> {
    let mut file = store.run(|reads| fs.open_file(path, flags, reads))?;
    store.apply(std::mem::take(&mut file.batch));
    fs.file_handle(&file, flags)
}

fn fs_exists(fs: &SlateDbFileSystem, store: &mut TestStore, path: &str) -> Result<bool> {
    store.run(|reads| fs.file_exists(path, reads))
}

fn fs_remove(fs: &SlateDbFileSystem, store: &mut TestStore, path: &str) -> Result<()> {
    let batch = store.run(|reads| fs.remove_file(path, reads))?;
    store.apply(batch);
    Ok(())
}

fn fs_move(
    fs: &SlateDbFileSystem,
    store: &mut TestStore,
    source: &str,
    target: &str,
) -> Result<()> {
    let batch = store.run(|reads| fs.move_file(source, target, reads))?;
    store.apply(batch);
    Ok(())
}

fn fs_write_file(
    fs: &SlateDbFileSystem,
    store: &mut TestStore,
    path: &str,
    contents: &[u8],
) -> u64 {
    let mut file = fs_open(fs, store, path, FileOpenFlags::open_or_create()).expect("create");
    h_write(&mut file, store, contents).expect("write");
    h_sync(&mut file, store).expect("sync");
    file.file_id()
}

fn stored_keys(store: &mut TestStore, file_id: u64) -> Vec<Vec<u8>> {
    let mut found = store.keys_with_prefix(&keys::chunk_prefix(file_id)).unwrap();
    found.extend(store.keys_with_prefix(&keys::metadata_key(file_id)).unwrap());
    found
}

#[test]
fn creates_and_reopens_file_by_path() {
    let mut store = TestStore::default();
    let fs = fs();

    let mut created =
        fs_open(&fs, &mut store, "database.db", FileOpenFlags::open_or_create()).expect("create file");
    assert_eq!(created.file_id(), 1);
    h_write(&mut created, &mut store, b"database contents").expect("write file");
    h_sync(&mut created, &mut store).expect("close created file");

    let other =
        fs_open(&fs, &mut store, "other.db", FileOpenFlags::open_or_create()).expect("create second file");
    assert_eq!(other.file_id(), 2);

    let mut reopened =
        fs_open(&fs, &mut store, "database.db", FileOpenFlags::read_only()).expect("reopen file");
    assert_eq!(reopened.file_id(), 1);
    let mut contents = vec![0; "database contents".len()];
    assert_eq!(
        h_read(&mut reopened, &mut store, &mut contents).expect("read file"),
        contents.len()
    );
    assert_eq!(contents, b"database contents");
}

#[test]
fn opening_missing_file_without_create_fails() {
    let mut store = TestStore::default();
    let error = fs_open(&fs(), &mut store, "missing.db", FileOpenFlags::read_only())
        .expect_err("missing file should fail");
    assert!(matches!(error, Error::FileNotFound(_)));
}

#[test]
fn create_or_truncate_clears_an_existing_file() {
    let mut store = TestStore::default();
    let fs = fs();
    let file_id = fs_write_file(&fs, &mut store, "recovery.wal", b"stale wal contents");

    let mut replaced =
        fs_open(&fs, &mut store, "recovery.wal", FileOpenFlags::create_or_truncate())
            .expect("replace file");
    assert_eq!(replaced.file_id(), file_id);
    assert_eq!(replaced.file_size(), 0);
    assert!(store
        .keys_with_prefix(&keys::chunk_prefix(file_id))
        .expect("scan old chunks")
        .is_empty());
    h_write(&mut replaced, &mut store, b"new wal").expect("write replacement");
    h_sync(&mut replaced, &mut store).expect("close replacement");

    let mut reopened =
        fs_open(&fs, &mut store, "recovery.wal", FileOpenFlags::read_only()).expect("reopen replacement");
    let mut contents = [0; 7];
    assert_eq!(
        h_read(&mut reopened, &mut store, &mut contents).expect("read replacement"),
        contents.len()
    );
    assert_eq!(&contents, b"new wal");
}

#[test]
fn file_exists_uses_path_mapping_only() {
    let mut store = TestStore::default();
    let fs = fs();

    assert!(!fs_exists(&fs, &mut store, "database.db").expect("missing lookup"));

    let file =
        fs_open(&fs, &mut store, "database.db", FileOpenFlags::open_or_create()).expect("create file");
    let file_id = file.file_id();

    assert!(fs_exists(&fs, &mut store, "database.db").expect("existing lookup"));

    store.data.remove(&keys::metadata_key(file_id));

    assert!(fs_exists(&fs, &mut store, "database.db").expect("path lookup"));
}

#[test]
fn remove_file_deletes_catalog_metadata_and_chunks() {
    let mut store = TestStore::default();
    let fs = fs();
    let file_id = fs_write_file(&fs, &mut store, "database.db", b"contents");

    fs_remove(&fs, &mut store, "database.db").expect("remove file");

    assert!(!fs_exists(&fs, &mut store, "database.db").expect("path lookup"));
    assert!(store
        .get(&keys::metadata_key(file_id))
        .expect("read metadata")
        .is_none());
    assert!(store
        .keys_with_prefix(&keys::chunk_prefix(file_id))
        .expect("scan chunks")
        .is_empty());
    assert!(matches!(
        fs_remove(&fs, &mut store, "database.db"),
        Err(Error::FileNotFound(_))
    ));
}

#[test]
fn move_file_preserves_source_and_replaces_destination() {
    let mut store = TestStore::default();
    let fs = fs();
    let source_file_id = fs_write_file(&fs, &mut store, "source.db", b"source");
    let target_file_id = fs_write_file(&fs, &mut store, "target.db", b"target");

    fs_move(&fs, &mut store, "source.db", "target.db").expect("move file");

    assert!(!fs_exists(&fs, &mut store, "source.db").expect("source lookup"));
    let mut moved =
        fs_open(&fs, &mut store, "target.db", FileOpenFlags::read_only()).expect("open moved file");
    assert_eq!(moved.file_id(), source_file_id);
    let mut contents = [0; 6];
    assert_eq!(
        h_read(&mut moved, &mut store, &mut contents).expect("read moved file"),
        contents.len()
    );
    assert_eq!(&contents, b"source");

    assert!(store
        .get(&keys::metadata_key(target_file_id))
        .expect("read replaced metadata")
        .is_none());
    assert!(store
        .keys_with_prefix(&keys::chunk_prefix(target_file_id))
        .expect("scan replaced chunks")
        .is_empty());
}

#[test]
fn claims_slatedb_urls() {
    let fs = fs();

    assert_eq!(fs.name(), "SlateDBFileSystem");
    assert!(fs.can_handle("duckdb_objfs://bucket/key"));
    assert!(fs.can_handle("duckdb_objfs:/bucket/key"));
    assert!(!fs.can_handle("s3://bucket/key"));
    assert!(!fs.can_handle("/tmp/foo"));
    assert!(!fs.can_handle("duckdb_objfs"));
}

#[test]
fn read_only_filesystems_read_and_refuse() {
    let mut store = TestStore::default();
    let writer = fs();
    fs_write_file(&writer, &mut store, "database.db", b"before");

    let reader =
        SlateDbFileSystem::new(SlateDbClient::ReadOnly { found: true }, CacheMetrics::new());
    let mut handle =
        fs_open(&reader, &mut store, "database.db", FileOpenFlags::read_only()).expect("open");
    let mut contents = [0; 6];
    assert_eq!(h_read(&mut handle, &mut store, &mut contents).expect("read"), 6);
    assert_eq!(&contents, b"before");
    assert!(fs_exists(&reader, &mut store, "database.db").expect("exists"));

    let error = fs_open(&reader, &mut store, "database.db", FileOpenFlags::read_write())
        .expect_err("writable");
    assert_eq!(
        error.to_string(),
        "read-only SlateDB filesystem cannot open a writable file (permanent) at src/fs.rs"
    );
    let error = fs_remove(&reader, &mut store, "database.db").expect_err("remove");
    assert!(error.to_string().contains("cannot remove a file"));
    let error = fs_move(&reader, &mut store, "database.db", "x").expect_err("move");
    assert!(error.to_string().contains("cannot move a file"));
}

#[test]
fn a_database_that_is_not_there_holds_nothing() {
    let mut store = TestStore::default();
    let reader =
        SlateDbFileSystem::new(SlateDbClient::ReadOnly { found: false }, CacheMetrics::new());
    assert!(!fs_exists(&reader, &mut store, "database.db").expect("exists"));
    assert!(matches!(
        fs_open(&reader, &mut store, "database.db", FileOpenFlags::read_only()),
        Err(Error::FileNotFound(_))
    ));
}

#[test]
fn a_closed_filesystem_refuses_everything() {
    let mut store = TestStore::default();
    let mut fs = fs();
    assert_eq!(fs.close(), Some(SlateDbClient::ReadWrite));
    assert_eq!(fs.close(), None);
    for error in [
        fs_exists(&fs, &mut store, "a").expect_err("exists"),
        fs_remove(&fs, &mut store, "a").expect_err("remove"),
        fs_move(&fs, &mut store, "a", "b").expect_err("move"),
        fs_open(&fs, &mut store, "a", FileOpenFlags::read_only()).expect_err("open"),
    ] {
        assert_eq!(
            error.to_string(),
            "filesystem is closed (permanent) at src/fs.rs"
        );
    }
}

#[test]
fn broken_catalogs_are_reported() {
    let mut store = TestStore::default();
    let fs = fs();
    store.data.insert(keys::path_key("short"), vec![1, 2]);
    store.data.insert(keys::path_key("zero"), vec![0; 8]);
    store
        .data
        .insert(keys::path_key("lost"), 9u64.to_be_bytes().to_vec());

    let flags = FileOpenFlags::open_or_create();
    let error = fs_open(&fs, &mut store, "short", flags).expect_err("short");
    assert!(error.to_string().contains("path mapping must contain an 8-byte file ID"));
    let error = fs_open(&fs, &mut store, "zero", flags).expect_err("zero");
    assert!(error.to_string().contains("path mapping contains reserved file ID 0"));
    let error = fs_open(&fs, &mut store, "lost", flags).expect_err("lost");
    assert!(error.to_string().contains("metadata is missing for file_id 9"));
    let error = fs_move(&fs, &mut store, "short", "lost").expect_err("source");
    assert!(error.to_string().contains("source path mapping must contain"));
    let error = fs_move(&fs, &mut store, "lost", "zero").expect_err("target");
    assert!(error.to_string().contains("target path mapping contains reserved"));

    store.data.insert(keys::metadata_key(9), vec![0x08, 0x80]);
    let error = fs_open(&fs, &mut store, "lost", flags).expect_err("undecodable");
    assert!(error.to_string().contains("metadata decode error"));

    store
        .data
        .insert(keys::next_file_id_key(), u64::MAX.to_be_bytes().to_vec());
    let error = fs_open(&fs, &mut store, "new", flags).expect_err("exhausted");
    assert!(error.to_string().contains("file ID space is exhausted"));
    store.data.insert(keys::next_file_id_key(), vec![7]);
    let error = fs_open(&fs, &mut store, "new", flags).expect_err("counter");
    assert!(error.to_string().contains("next file ID must contain an 8-byte file ID"));

    assert!(matches!(
        fs_open(&fs, &mut store, "", flags),
        Err(Error::InvalidArgument(_))
    ));
    assert!(matches!(
        fs_move(&fs, &mut store, "a", ""),
        Err(Error::InvalidArgument(_))
    ));
}

#[test]
fn the_catalog_counts_on_past_removed_files() {
    let mut store = TestStore::default();
    let fs = fs();
    assert_eq!(fs_write_file(&fs, &mut store, "a", b"1"), 1);
    fs_remove(&fs, &mut store, "a").expect("remove");
    assert_eq!(fs_write_file(&fs, &mut store, "a", b"2"), 2);
    assert_eq!(
        store.data.get(&keys::next_file_id_key()),
        Some(&3u64.to_be_bytes().to_vec())
    );
}

// SlateFs.

fn slatefs() -> SlateFs {
    SlateFs::open("/slatefs-test").expect("filesystem")
}

fn sfs_open(
    fs: &SlateFs,
    store: &mut TestStore,
    path: &str,
    flags: FileOpenFlags,
) -> Result<SlateFileHandle> {
    let mut file = store.run(|reads| fs.open_file(path, flags, reads))?;
    store.apply(std::mem::take(&mut file.batch));
    let chunk_keys = store.keys_with_prefix(&keys::chunk_prefix(file.file_id))?;
    fs.file_handle(&file, flags, &chunk_keys)
}

fn sfs_exists(fs: &SlateFs, store: &mut TestStore, path: &str) -> Result<bool> {
    store.run(|reads| fs.file_exists(path, reads))
}

fn sfs_remove(fs: &SlateFs, store: &mut TestStore, path: &str) -> Result<()> {
    let batch = store.run(|reads| fs.remove_file(path, reads))?;
    store.apply(batch);
    Ok(())
}

fn sfs_move(fs: &SlateFs, store: &mut TestStore, src: &str, dst: &str) -> Result<()> {
    let batch = store.run(|reads| fs.move_file(src, dst, reads))?;
    store.apply(batch);
    Ok(())
}

fn sfs_write_file(fs: &SlateFs, store: &mut TestStore, path: &str, contents: &[u8]) -> u64 {
    let mut handle = sfs_open(fs, store, path, FileOpenFlags::open_or_create()).expect("create");
    h_write(&mut handle, store, contents).expect("write");
    h_sync(&mut handle, store).expect("sync");
    handle.file_id()
}

#[test]
fn empty_paths_are_rejected() {
    let Err(error) = SlateFs::open("") else {
        panic!("an empty database path should be rejected");
    };
    assert!(error
        .to_string()
        .contains("database path must not be empty"));

    let mut store = TestStore::default();
    let fs = slatefs();
    let error = sfs_exists(&fs, &mut store, "").expect_err("empty file path");
    assert!(error.to_string().contains("file path must not be empty"));

    fs.close(false).expect("close");
}

#[test]
fn a_filesystem_with_open_handles_is_not_closed() {
    let error = slatefs().close(true).expect_err("handles are open");
    assert!(matches!(error, Error::InvalidArgument(_)));
    assert!(error
        .to_string()
        .contains("cannot close: file handles are still open"));
    assert_eq!(slatefs().path(), "/slatefs-test");
}

#[test]
fn file_exists_follows_the_path_mapping() {
    let mut store = TestStore::default();
    let fs = slatefs();
    assert!(!sfs_exists(&fs, &mut store, "duck.db").expect("file_exists"));

    store.data.insert(keys::path_key("duck.db"), id_to_le_bytes(1));

    assert!(sfs_exists(&fs, &mut store, "duck.db").expect("file_exists"));
}

#[test]
fn opening_a_new_file_allocates_incrementing_ids() {
    let mut store = TestStore::default();
    let fs = slatefs();

    let first =
        sfs_open(&fs, &mut store, "a.db", FileOpenFlags::open_or_create()).expect("open a.db");
    let second =
        sfs_open(&fs, &mut store, "b.db", FileOpenFlags::open_or_create()).expect("open b.db");

    assert_eq!(first.file_id(), 1);
    assert_eq!(second.file_id(), 2);
    assert!(sfs_exists(&fs, &mut store, "a.db").expect("file_exists"));
    assert_eq!(first.file_size(), 0);
}

#[test]
fn reopening_a_file_finds_the_same_id_and_contents() {
    let mut store = TestStore::default();
    let fs = slatefs();
    let created_id = sfs_write_file(&fs, &mut store, "duck.db", b"quack");

    let mut reopened =
        sfs_open(&fs, &mut store, "duck.db", FileOpenFlags::read_only()).expect("reopen");

    assert_eq!(reopened.file_id(), created_id);
    assert_eq!(reopened.file_size(), 5);
    let mut buf = [0u8; 5];
    assert_eq!(h_read(&mut reopened, &mut store, &mut buf).expect("read"), 5);
    assert_eq!(&buf, b"quack");
}

#[test]
fn opening_a_missing_file_without_create_fails() {
    let mut store = TestStore::default();
    let fs = slatefs();

    let error = sfs_open(&fs, &mut store, "ghost.db", FileOpenFlags::read_only())
        .expect_err("file should not be found");

    assert!(matches!(error, Error::FileNotFound(_)));
    assert!(!sfs_exists(&fs, &mut store, "ghost.db").expect("file_exists"));
}

#[test]
fn opening_with_truncate_existing_empties_the_file() {
    let mut store = TestStore::default();
    let fs = slatefs();
    let file_id = sfs_write_file(&fs, &mut store, "duck.db", b"quack");

    let mut truncated = sfs_open(
        &fs,
        &mut store,
        "duck.db",
        FileOpenFlags {
            truncate_existing: true,
            ..FileOpenFlags::read_write()
        },
    )
    .expect("reopen");
    h_sync(&mut truncated, &mut store).expect("sync");

    assert_eq!(truncated.file_size(), 0);
    assert_eq!(truncated.file_id(), file_id);
    assert!(store
        .keys_with_prefix(&keys::chunk_prefix(file_id))
        .unwrap()
        .is_empty());
}

#[test]
fn opening_to_truncate_creates_a_missing_file() {
    let mut store = TestStore::default();
    let fs = slatefs();
    let flags = FileOpenFlags {
        truncate_existing: true,
        ..FileOpenFlags::read_write()
    };
    let created = sfs_open(&fs, &mut store, "duck.db", flags).expect("create");
    assert_eq!(created.file_id(), 1);
    assert!(sfs_exists(&fs, &mut store, "duck.db").expect("file_exists"));
}

#[test]
fn a_path_pointing_at_missing_metadata_is_reported_not_recreated() {
    let mut store = TestStore::default();
    let fs = slatefs();
    store.data.insert(keys::path_key("duck.db"), id_to_le_bytes(9));

    let error = sfs_open(&fs, &mut store, "duck.db", FileOpenFlags::open_or_create())
        .expect_err("metadata is missing");

    assert!(matches!(error, Error::MetadataDecode(_)));
    assert!(error.to_string().contains("metadata missing for file_id 9"));
}

#[test]
fn open_file_rejects_an_empty_path() {
    let mut store = TestStore::default();
    let fs = slatefs();

    let error = sfs_open(&fs, &mut store, "", FileOpenFlags::open_or_create())
        .expect_err("empty path");

    assert!(error.to_string().contains("file path must not be empty"));
}

#[test]
fn removing_a_file_leaves_none_of_it_behind() {
    let mut store = TestStore::default();
    let fs = slatefs();
    let file_id = sfs_write_file(&fs, &mut store, "duck.db", b"quack");

    sfs_remove(&fs, &mut store, "duck.db").expect("remove");

    assert!(!sfs_exists(&fs, &mut store, "duck.db").expect("file_exists"));
    assert!(stored_keys(&mut store, file_id).is_empty());
}

#[test]
fn removing_a_file_frees_its_path_for_a_new_one() {
    let mut store = TestStore::default();
    let fs = slatefs();
    let first_id = sfs_write_file(&fs, &mut store, "duck.db", b"quack");
    sfs_remove(&fs, &mut store, "duck.db").expect("remove");

    let recreated =
        sfs_open(&fs, &mut store, "duck.db", FileOpenFlags::open_or_create()).expect("recreate");

    // A fresh id, so the recreated file cannot inherit stale chunks.
    assert_ne!(recreated.file_id(), first_id);
    assert_eq!(recreated.file_size(), 0);
}

#[test]
fn removing_a_missing_file_fails() {
    let mut store = TestStore::default();

    let error =
        sfs_remove(&slatefs(), &mut store, "ghost.db").expect_err("file should not exist");

    assert!(matches!(error, Error::FileNotFound(_)));
}

#[test]
fn moving_a_file_rebinds_the_path_without_moving_data() {
    let mut store = TestStore::default();
    let fs = slatefs();
    let file_id = sfs_write_file(&fs, &mut store, "src.db", b"quack");

    sfs_move(&fs, &mut store, "src.db", "dst.db").expect("move");

    assert!(!sfs_exists(&fs, &mut store, "src.db").expect("file_exists"));
    let mut moved =
        sfs_open(&fs, &mut store, "dst.db", FileOpenFlags::read_only()).expect("open");
    assert_eq!(moved.file_id(), file_id);
    let mut buf = [0u8; 5];
    assert_eq!(h_read(&mut moved, &mut store, &mut buf).expect("read"), 5);
    assert_eq!(&buf, b"quack");
}

#[test]
fn moving_onto_an_existing_file_replaces_it_and_frees_its_data() {
    let mut store = TestStore::default();
    let fs = slatefs();
    let src_id = sfs_write_file(&fs, &mut store, "src.db", b"src");
    let dst_id = sfs_write_file(&fs, &mut store, "dst.db", b"destination");

    sfs_move(&fs, &mut store, "src.db", "dst.db").expect("move");

    assert!(stored_keys(&mut store, dst_id).is_empty(), "replaced file is gone");
    let moved = sfs_open(&fs, &mut store, "dst.db", FileOpenFlags::read_only()).expect("open");
    assert_eq!(moved.file_id(), src_id);
    // The destination's longer contents did not survive under the new id.
    assert_eq!(moved.file_size(), 3);
}

#[test]
fn moving_a_file_onto_itself_keeps_it() {
    let mut store = TestStore::default();
    let fs = slatefs();
    let file_id = sfs_write_file(&fs, &mut store, "duck.db", b"quack");

    sfs_move(&fs, &mut store, "duck.db", "duck.db").expect("move");

    assert!(sfs_exists(&fs, &mut store, "duck.db").expect("file_exists"));
    assert!(!stored_keys(&mut store, file_id).is_empty());
}

#[test]
fn moving_a_missing_file_fails_and_leaves_the_destination_alone() {
    let mut store = TestStore::default();
    let fs = slatefs();
    sfs_write_file(&fs, &mut store, "dst.db", b"destination");

    let error = sfs_move(&fs, &mut store, "ghost.db", "dst.db")
        .expect_err("source should not exist");

    assert!(matches!(error, Error::FileNotFound(_)));
    assert!(sfs_exists(&fs, &mut store, "dst.db").expect("file_exists"));
}

#[test]
fn move_file_rejects_empty_paths() {
    let mut store = TestStore::default();
    let fs = slatefs();
    sfs_write_file(&fs, &mut store, "src.db", b"src");

    let error = sfs_move(&fs, &mut store, "src.db", "").expect_err("empty destination");
    assert!(error
        .to_string()
        .contains("destination path must not be empty"));

    let error = sfs_move(&fs, &mut store, "", "dst.db").expect_err("empty source");
    assert!(error.to_string().contains("source path must not be empty"));
}

#[test]
fn clearing_without_write_access_creates_nothing() {
    let mut store = TestStore::default();
    let flags = FileOpenFlags {
        truncate_existing: true,
        ..FileOpenFlags::read_only()
    };
    let error = sfs_open(&slatefs(), &mut store, "a", flags).expect_err("missing");
    assert!(matches!(error, Error::FileNotFound(_)));
    assert!(store.data.is_empty());
}

#[test]
fn exhausted_file_ids_are_an_invalid_argument() {
    let mut store = TestStore::default();
    store
        .data
        .insert(keys::next_file_id_key(), id_to_le_bytes(u64::MAX));
    let error = sfs_open(&slatefs(), &mut store, "a", FileOpenFlags::open_or_create())
        .expect_err("exhausted");
    assert!(matches!(error, Error::InvalidArgument(_)));
    assert!(error.to_string().contains("file ids are exhausted"));
}

fn put(key: &[u8], value: &[u8]) -> Mutation {
    Mutation::Put {
        key: key.to_vec(),
        value: value.to_vec(),
    }
}

fn delete(key: &[u8]) -> Mutation {
    Mutation::Delete { key: key.to_vec() }
}

/// Writes each batch to a database in memory, and reads keys back.
fn through_slatedb(batches: &[&[Mutation]], keys: &[&[u8]]) -> Vec<Option<Vec<u8>>> {
    let runtime = tokio::runtime::Runtime::new().expect("runtime");
    runtime.block_on(async {
        let storage = slatedb::object_store::memory::InMemory::new();
        let db = slatedb::Db::open("db", std::sync::Arc::new(storage))
            .await
            .expect("open");
        for batch in batches {
            db.write(write_batch(batch)).await.expect("write");
        }
        let mut values = Vec::new();
        for key in keys {
            let value = db.get(key).await.expect("get");
            values.push(value.map(|value| value.to_vec()));
        }
        db.close().await.expect("close");
        values
    })
}

#[test]
fn batches_leave_what_their_last_writes_do() {
    let first = [put(b"a", b"1"), put(b"b", b"2"), put(b"c", b"3")];
    let second = [
        put(b"a", b"4"),
        delete(b"a"),
        delete(b"b"),
        put(b"b", b"5"),
        delete(b"d"),
    ];
    assert!(fits_in_batch(&first));
    assert!(fits_in_batch(&second));
    assert_eq!(
        through_slatedb(&[&first, &second], &[b"a", b"b", b"c", b"d"]),
        vec![None, Some(b"5".to_vec()), Some(b"3".to_vec()), None]
    );
    assert!(write_batch(&[]).is_empty());
    assert!(!write_batch(&first).is_empty());
}

#[test]
fn batches_hold_no_empty_keys() {
    assert!(fits_in_batch(&[]));
    assert!(fits_in_batch(&[put(b"a", b"")]));
    assert!(!fits_in_batch(&[put(b"", b"1")]));
    assert!(!fits_in_batch(&[put(b"a", b"1"), delete(b"")]));
}

#[test]
fn a_synced_file_lands_in_slatedb() {
    let metadata = FileMetadata {
        chunk_size: 8,
        chunk_base_offset: 0,
        ..FileMetadata::new_at(1)
    };
    let flags = FileOpenFlags::read_write();
    let mut handle =
        SlateFileHandle::new(SlateFileClient::ReadWrite, 7, metadata, flags).expect("handle");
    let data = [7u8; 16];
    assert_eq!(
        handle.pwrite(&data, 0, &FetchedChunks::new()).expect("write"),
        None
    );
    let batch = handle.sync_batch().expect("batch").expect("changes");
    assert!(fits_in_batch(&batch));
    let first = keys::chunk_key(7, 0);
    let second = keys::chunk_key(7, 1);
    let record = keys::metadata_key(7);
    let values = through_slatedb(&[&batch], &[&first, &second, &record]);
    assert_eq!(values[0].as_deref(), Some(&data[..8]));
    assert_eq!(values[1].as_deref(), Some(&data[8..]));
    let stored = values[2].as_deref().expect("record");
    let stored = FileMetadata::decode_from_bytes(stored).expect("metadata");
    assert_eq!(stored.size, 16);
    assert_eq!(stored.chunk_size, 8);
}
