//! What callers get: what one call gives, and what calls in a row come to.

use opendal::Operator;
use slatedb::db_cache::SplitCache;
use slatedb::Error as SlateDbError;
use slatedb::WriteBatch;
use slatedb_common::metrics::Metrics;
use vstd::prelude::*;
use vstd::utf8::*;

use crate::batch;
use crate::batch::{Mutation, Store};
use crate::cache;
use crate::cache::{
    CacheConfig, CacheMetrics, CacheStats, DbCachePlan, ObjectStoreCacheSettings,
};
use crate::catalog;
use crate::catalog::{Reads, Step};
use crate::catalog_laws;
use crate::chunk_manager;
use crate::chunk_manager::{ChunkFetch, FetchedChunks, Stored};
use crate::chunks;
use crate::database_metadata;
use crate::database_metadata::ResolvedFile;
use crate::error;
use crate::error::{Error, ErrorCode, Result, SlateDbErrorKind};
use crate::error_struct;
use crate::error_struct::{ErrorStatus, ErrorStruct};
use crate::ffi;
use crate::ffi::{
    FfiCacheStats, FfiDatabaseConfig, FfiOpenOptions, FfiOutcome, FfiReply, FfiS3Config,
};
use crate::file_contents;
use crate::file_handle;
use crate::file_handle::{FileHandle, HandleState, SlateFileClient, SlateFileHandle, WriteStep};
use crate::file_metadata;
use crate::file_metadata::FileMetadata;
use crate::flags::FileOpenFlags;
use crate::flush_batcher::{FlushBatcher, Turn};
use crate::fs;
use crate::fs::{
    OpenPlan, S3Settings, S3StorageConfig, SlateDbAccessMode, SlateDbClient, SlateDbFileSystem,
};
use crate::fs_laws;
use crate::handle_laws;
use crate::ids;
use crate::ids::IdForm;
use crate::keys;
use crate::object_store_errors;
use crate::object_store_errors::GetConditions;
use crate::read_coalescer;
use crate::read_coalescer::{BatchEnd, BatchOutcome, MergedRead, Queued, ReadCoalescer, ReadRequest};
use crate::read_only_file_handle::SlateReadOnlyFileHandle;
use crate::request_record;
use crate::request_record::RequestRecord;
use crate::s3;
use crate::slatefs;
use crate::slatefs::{FileSystem, SlateFs};
use crate::slatefs_laws;
use crate::text;

verus! {

/// A seek moves the position where it says, and a reset to the start. Neither touches
/// anything else.
pub proof fn seeks_move_the_position_alone<H: FileHandle>(
    sought: &mut H,
    position: u64,
    reset: &mut H,
)
    requires
        call_ensures(<H as FileHandle>::seek, (sought, position), ()),
        call_ensures(<H as FileHandle>::reset, (reset,), ()),
    ensures
        final(sought).state().position == position,
        final(sought).state() == (HandleState { position, ..old(sought).state() }),
        final(reset).state().position == 0,
        final(reset).state() == (HandleState { position: 0, ..old(reset).state() }),
{
}

/// A handle reports what it knows: where it stands, how long the file is, when it last
/// changed, which file it is and what it was opened for.
pub proof fn handles_report_what_they_know<H: FileHandle>(
    handle: &H,
    position: u64,
    size: u64,
    modified_at_ms: u64,
    file_id: u64,
    flags: FileOpenFlags,
)
    requires
        call_ensures(<H as FileHandle>::seek_position, (handle,), position),
        call_ensures(<H as FileHandle>::file_size, (handle,), size),
        call_ensures(<H as FileHandle>::get_last_modified_time, (handle,), modified_at_ms),
        call_ensures(<H as FileHandle>::file_id, (handle,), file_id),
        call_ensures(<H as FileHandle>::flags, (handle,), flags),
    ensures
        handle.state().position == position,
        handle.state().size == size,
        handle.state().modified_at_ms == modified_at_ms,
        handle.state().file_id == file_id,
        handle.state().flags == flags,
{
}

/// A read at an offset gives the bytes of the file there, as many as fit the buffer and
/// are left of the file, and leaves the rest of the buffer alone. It is refused exactly
/// if the handle was not opened for reading.
pub proof fn reads_at_an_offset_give_the_file<H: FileHandle>(
    handle: &H,
    buf: &mut [u8],
    offset: u64,
    fetched: &FetchedChunks,
    stored: Stored,
    r: Result<usize>,
)
    requires
        handle.state().wf(),
        call_ensures(<H as FileHandle>::pread, (handle, buf, offset, fetched), r),
        r matches Ok(n) ==> handle_laws::answered_truthfully(
            fetched@,
            stored,
            handle.state(),
            n as nat,
            offset as nat,
        ),
    ensures
        r is Ok <==> handle.state().flags.read,
        final(buf)@.len() == old(buf)@.len(),
        r is Err ==> final(buf)@ == old(buf)@,
        r matches Ok(n) ==> {
            let size = handle.state().size;
            &&& offset >= size ==> n == 0
            &&& offset < size ==> n <= old(buf)@.len() && offset + n <= size && (n
                == old(buf)@.len() || offset + n == size)
            &&& forall|i: int|
                0 <= i < n ==> #[trigger] final(buf)@[i] == handle.state().byte(
                    stored,
                    (offset + i) as nat,
                )
            &&& forall|i: int| n <= i < old(buf)@.len() ==> #[trigger] final(buf)@[i] == old(buf)@[i]
        },
{
    if let Ok(n) = r {
        handle_laws::reads_see_the_file(
            handle.state(),
            final(buf)@,
            old(buf)@,
            fetched@,
            stored,
            old(buf)@.len(),
            offset as nat,
        );
    }
}

/// A sequential read gives the bytes of the file from the handle's position on, as many
/// as fit the buffer and are left of the file, and moves the position just past them.
pub proof fn sequential_reads_give_the_file<H: FileHandle>(
    handle: &mut H,
    buf: &mut [u8],
    fetched: &FetchedChunks,
    stored: Stored,
    n: usize,
)
    requires
        old(handle).state().wf(),
        call_ensures(<H as FileHandle>::read, (handle, buf, fetched), Ok(n)),
        handle_laws::answered_truthfully(
            fetched@,
            stored,
            old(handle).state(),
            n as nat,
            old(handle).state().position as nat,
        ),
    ensures
        ({
            let before = old(handle).state();
            &&& final(handle).state() == (HandleState {
                position: (before.position + n) as u64,
                ..before
            })
            &&& final(handle).state().position == before.position + n
            &&& before.position >= before.size ==> n == 0
            &&& before.position < before.size ==> n <= old(buf)@.len() && before.position + n
                <= before.size && (n == old(buf)@.len() || before.position + n == before.size)
            &&& forall|i: int|
                0 <= i < n ==> #[trigger] final(buf)@[i] == before.byte(
                    stored,
                    (before.position + i) as nat,
                )
        }),
{
    let before = old(handle).state();
    handle_laws::reads_stop_only_at_the_end(before, old(buf)@.len(), before.position as nat);
    handle_laws::reads_see_the_file(
        before,
        final(buf)@,
        old(buf)@,
        fetched@,
        stored,
        old(buf)@.len(),
        before.position as nat,
    );
}

/// A positional write that went through puts its bytes at its offset, changes no other
/// byte, moves no position, and makes the file at least as long as where it ends.
pub proof fn writes_at_an_offset_go_there(
    handle: &mut SlateFileHandle,
    data: &[u8],
    offset: u64,
    fetched: &FetchedChunks,
    stored: Stored,
    pos: nat,
)
    requires
        old(handle).state().wf(),
        call_ensures(
            <SlateFileHandle as FileHandle>::pwrite,
            (handle, data, offset, fetched),
            Ok(None),
        ),
        handle_laws::fetched_truthfully(fetched@, stored),
        pos <= u64::MAX,
    ensures
        final(handle).state().wf(),
        final(handle).state().position == old(handle).state().position,
        final(handle).state().byte(stored, pos) == if offset <= pos < offset + data@.len() {
            data@[pos - offset]
        } else {
            old(handle).state().byte(stored, pos)
        },
        final(handle).state().size == if data@.len() > 0 && offset + data@.len() > old(handle).state().size {
            offset + data@.len()
        } else {
            old(handle).state().size as int
        },
        data@.len() > 0 ==> final(handle).state().changed(),
{
    if data@.len() > 0 {
        handle_laws::finished_write_changes_only_its_bytes(
            old(handle).state(),
            final(handle).state(),
            data@,
            offset as nat,
            fetched@,
            stored,
            pos,
        );
    }
}

/// Sequential writes go where the handle stands, one after the other: `first` and then
/// `second` from the position on, or from the end on through a handle that appends. The
/// position then lies just past them.
pub proof fn sequential_writes_follow_one_another(
    handle: &mut SlateFileHandle,
    later: &mut SlateFileHandle,
    first: &[u8],
    second: &[u8],
    fetched: &FetchedChunks,
    fetched_later: &FetchedChunks,
    stored: Stored,
    m: usize,
    n: usize,
    pos: nat,
)
    requires
        old(handle).state().wf(),
        *old(later) == *final(handle),
        call_ensures(
            <SlateFileHandle as FileHandle>::write,
            (handle, first, fetched),
            Ok(WriteStep::Written(m)),
        ),
        call_ensures(
            <SlateFileHandle as FileHandle>::write,
            (later, second, fetched_later),
            Ok(WriteStep::Written(n)),
        ),
        handle_laws::fetched_truthfully(fetched@, stored),
        handle_laws::fetched_truthfully(fetched_later@, stored),
        pos <= u64::MAX,
    ensures
        ({
            let before = old(handle).state();
            let after = final(later).state();
            let start = if before.flags.append {
                before.size
            } else {
                before.position
            };
            let all = first@ + second@;
            &&& m == first@.len()
            &&& n == second@.len()
            &&& after.position == start + all.len()
            &&& after.byte(stored, pos) == if start <= pos < start + all.len() {
                all[pos - start]
            } else {
                before.byte(stored, pos)
            }
            &&& before.flags.append ==> after.size == before.size + all.len()
        }),
{
    let before = old(handle).state();
    let middle = final(handle).state();
    let after = final(later).state();
    handle_laws::a_sequential_write_goes_where_the_handle_stands(
        before,
        middle,
        first@,
        fetched@,
        stored,
        m,
        pos,
    );
    handle_laws::a_sequential_write_goes_where_the_handle_stands(
        middle,
        after,
        second@,
        fetched_later@,
        stored,
        n,
        pos,
    );
}

/// What was written is read back: a read of the span of a write that went through gives
/// all of its bytes.
pub proof fn what_was_written_is_read_back(
    handle: &mut SlateFileHandle,
    data: &[u8],
    offset: u64,
    fetched: &FetchedChunks,
    stored: Stored,
    later: &SlateFileHandle,
    buf: &mut [u8],
    fetched_later: &FetchedChunks,
    r: Result<usize>,
)
    requires
        old(handle).state().wf(),
        old(handle).state().flags.read,
        call_ensures(
            <SlateFileHandle as FileHandle>::pwrite,
            (handle, data, offset, fetched),
            Ok(None),
        ),
        handle_laws::fetched_truthfully(fetched@, stored),
        *later == *final(handle),
        old(buf)@.len() == data@.len(),
        call_ensures(
            <SlateFileHandle as FileHandle>::pread,
            (later, buf, offset, fetched_later),
            r,
        ),
        r matches Ok(n) ==> handle_laws::answered_truthfully(
            fetched_later@,
            stored,
            later.state(),
            n as nat,
            offset as nat,
        ),
    ensures
        r matches Ok(n) && n == data@.len(),
        final(buf)@ == data@,
{
    reads_at_an_offset_give_the_file(later, buf, offset, fetched_later, stored, r);
    if data@.len() > 0 {
        handle_laws::finished_write_changes_only_its_bytes(
            old(handle).state(),
            final(handle).state(),
            data@,
            offset as nat,
            fetched@,
            stored,
            offset as nat,
        );
    }
    assert(r->Ok_0 == data@.len());
    assert forall|i: int| 0 <= i < data@.len() implies final(buf)@[i] == data@[i] by {
        handle_laws::finished_write_changes_only_its_bytes(
            old(handle).state(),
            final(handle).state(),
            data@,
            offset as nat,
            fetched@,
            stored,
            (offset + i) as nat,
        );
    }
    assert(final(buf)@ =~= data@);
}

/// A write is refused exactly if the handle was not opened for writing or the write
/// would end past the largest offset there is, and a refused one changes nothing.
pub proof fn refused_writes_change_nothing(
    at_offset: &mut SlateFileHandle,
    offset: u64,
    in_sequence: &mut SlateFileHandle,
    data: &[u8],
    fetched: &FetchedChunks,
    r: Result<Option<u64>>,
    s: Result<WriteStep>,
)
    requires
        old(at_offset).state().wf(),
        old(in_sequence).state().wf(),
        call_ensures(
            <SlateFileHandle as FileHandle>::pwrite,
            (at_offset, data, offset, fetched),
            r,
        ),
        call_ensures(<SlateFileHandle as FileHandle>::write, (in_sequence, data, fetched), s),
    ensures
        r is Err <==> (!old(at_offset).state().flags.write || (data@.len() > 0 && offset
            + data@.len() > u64::MAX)),
        r is Err ==> final(at_offset).state() == old(at_offset).state(),
        ({
            let before = old(in_sequence).state();
            let start = if before.flags.append {
                before.size
            } else {
                before.position
            };
            s is Err <==> (!before.flags.write || (data@.len() > 0 && start + data@.len()
                > u64::MAX))
        }),
        s is Err ==> final(in_sequence).state() == old(in_sequence).state(),
        r matches Err(e) ==> (!old(at_offset).state().flags.write ==> e@.code
            == ErrorCode::ReadOnlyViolation),
        s matches Err(e) ==> (!old(in_sequence).state().flags.write ==> e@.code
            == ErrorCode::ReadOnlyViolation),
{
    handle_laws::sequential_writes_are_refused_only_past_the_largest_offset(
        old(in_sequence).state(),
        final(in_sequence).state(),
        data@,
        fetched@,
        s,
    );
}

/// A truncation that is told what the store holds makes the file as long as it says,
/// keeps the bytes before both ends, and leaves only zeroes past the new end.
pub proof fn truncations_set_the_size(
    handle: &mut SlateFileHandle,
    new_size: u64,
    stored_last: Option<Vec<u8>>,
    stored_keys: &[Vec<u8>],
    indices: Seq<u64>,
    stored: Stored,
    r: Result<()>,
)
    requires
        old(handle).state().wf(),
        old(handle).state().flags.write,
        handle_laws::zero_past_end(old(handle).state(), stored),
        stored_keys@.len() == indices.len(),
        forall|i: int|
            0 <= i < stored_keys@.len() ==> (#[trigger] stored_keys@[i])@ == keys::chunk_key_bytes(
                old(handle).state().file_id,
                indices[i],
            ),
        forall|k: u64| #[trigger] indices.contains(k) <==> stored.contains_key(k),
        new_size > 0 ==> {
            let before = old(handle).state();
            let last = ((new_size - 1 + before.chunks.lead) / before.chunks.chunk_size as int)
                as u64;
            ||| before.chunks.pending.contains_key(last)
            ||| stored_last is None && !stored.contains_key(last)
            ||| stored_last is Some && stored.contains_key(last) && stored_last->0@ == stored[last]
        },
        call_ensures(
            <SlateFileHandle as FileHandle>::truncate,
            (handle, new_size, stored_last, stored_keys),
            r,
        ),
    ensures
        r is Ok,
        final(handle).state().size == new_size,
        final(handle).state().position == old(handle).state().position,
        final(handle).state().wf(),
        forall|pos: nat|
            pos < new_size && pos < old(handle).state().size ==> #[trigger] final(handle).state().byte(stored, pos) == old(handle).state().byte(stored, pos),
        handle_laws::zero_past_end(final(handle).state(), stored),
        new_size != old(handle).state().size ==> final(handle).state().changed(),
{
    handle_laws::truncation_sets_the_size_and_cuts_the_bytes(
        old(handle).state(),
        final(handle).state(),
        new_size,
        stored,
        chunk_manager::contents_of(stored_last),
        indices,
        stored_keys@,
        r,
    );
}

/// Syncing a handle that has changed gives a batch that stores the file: committed, the
/// record is what the handle knows, and a handle opened afterwards reads the same bytes.
/// Nothing is stored where nothing has changed, and a read-only client stores nothing.
pub proof fn syncing_stores_the_file(
    handle: &SlateFileHandle,
    store: Store,
    r: Result<Option<Vec<Mutation>>>,
    flags: FileOpenFlags,
    pos: nat,
)
    requires
        handle.state().wf(),
        call_ensures(<SlateFileHandle as FileHandle>::sync_batch, (handle,), r),
    ensures
        !handle.state().changed() ==> r matches Ok(None),
        handle.state().changed() && handle.state().client == SlateFileClient::ReadOnly ==> (
        r matches Err(e) && e@.code == ErrorCode::ReadOnlyViolation),
        handle.state().changed() && handle.state().client == SlateFileClient::ReadWrite ==> {
            &&& r matches Ok(Some(_))
            &&& r matches Ok(Some(batch)) ==> {
                let after = batch::applied(store, batch::changes_of(batch@));
                let state = handle.state();
                let record_key = keys::metadata_key_bytes(state.file_id);
                let reopened = file_handle::opened(
                    SlateFileClient::ReadWrite,
                    state.file_id,
                    file_metadata::decoded(after[record_key])->0,
                    flags,
                );
                &&& after.contains_key(record_key)
                &&& file_metadata::decoded(after[record_key]) is Some
                &&& reopened.size == state.size
                &&& reopened.modified_at_ms == state.modified_at_ms
                &&& reopened.byte(file_contents::file_chunks(after, state.file_id), pos)
                    == state.byte(file_contents::file_chunks(store, state.file_id), pos)
            }
        },
{
    if let Ok(Some(batch)) = r {
        let state = handle.state();
        let order = choose|order: Seq<u64>| #[trigger]
            chunk_manager::lists_pending(order, state.chunks.pending) && batch::changes_of(batch@)
                == file_handle::sync_changes(state, order);
        handle_laws::synced_file_reopens(
            store,
            state,
            order,
            SlateFileClient::ReadWrite,
            flags,
            pos,
        );
    }
}

/// Once a sync is noted the handle has nothing to store, and is otherwise as it was.
pub proof fn a_noted_sync_leaves_nothing_to_store<H: FileHandle>(handle: &mut H)
    requires
        old(handle).state().wf(),
        call_ensures(<H as FileHandle>::mark_synced, (handle,), ()),
    ensures
        !final(handle).state().changed(),
        final(handle).state().size == old(handle).state().size,
        final(handle).state().position == old(handle).state().position,
        final(handle).state().modified_at_ms == old(handle).state().modified_at_ms,
        final(handle).state().file_id == old(handle).state().file_id,
        final(handle).state().flags == old(handle).state().flags,
{
}

/// A read-only handle refuses every change, whatever its flags, and stays as it is.
pub proof fn read_only_handles_change_nothing(
    written: &mut SlateReadOnlyFileHandle,
    appended: &mut SlateReadOnlyFileHandle,
    cut: &mut SlateReadOnlyFileHandle,
    data: &[u8],
    offset: u64,
    fetched: &FetchedChunks,
    new_size: u64,
    stored_last: Option<Vec<u8>>,
    stored_keys: &[Vec<u8>],
    r: Result<Option<u64>>,
    s: Result<WriteStep>,
    t: Result<()>,
    u: Result<Option<Vec<Mutation>>>,
)
    requires
        call_ensures(
            <SlateReadOnlyFileHandle as FileHandle>::pwrite,
            (written, data, offset, fetched),
            r,
        ),
        call_ensures(
            <SlateReadOnlyFileHandle as FileHandle>::write,
            (appended, data, fetched),
            s,
        ),
        call_ensures(
            <SlateReadOnlyFileHandle as FileHandle>::truncate,
            (cut, new_size, stored_last, stored_keys),
            t,
        ),
        call_ensures(<SlateReadOnlyFileHandle as FileHandle>::sync_batch, (&*final(cut),), u),
    ensures
        final(written).state() == old(written).state(),
        final(appended).state() == old(appended).state(),
        final(cut).state() == old(cut).state(),
        r matches Err(e) && e@.code == ErrorCode::ReadOnlyViolation,
        s matches Err(e) && e@.code == ErrorCode::ReadOnlyViolation,
        t matches Err(e) && e@.code == ErrorCode::ReadOnlyViolation,
        u matches Ok(None),
{
}

/// A handle is given exactly if its flags and its record make sense and a read-only
/// client is asked for reading alone. It knows the recorded file, has nothing to store,
/// and stands at the start, or at the end to append.
pub proof fn handles_are_given_on_their_record(
    client: SlateFileClient,
    file_id: u64,
    metadata: FileMetadata,
    flags: FileOpenFlags,
    r: Result<SlateFileHandle>,
    reader: Result<SlateReadOnlyFileHandle>,
)
    requires
        call_ensures(SlateFileHandle::new, (client, file_id, metadata, flags), r),
        call_ensures(SlateReadOnlyFileHandle::new, (file_id, metadata, flags), reader),
    ensures
        r is Ok <==> {
            &&& flags.read || flags.write
            &&& flags.create || flags.append ==> flags.write
            &&& flags.truncate_existing ==> flags.create
            &&& client == SlateFileClient::ReadOnly ==> flags.read && !flags.write
            &&& 0 < metadata.chunk_size <= usize::MAX
            &&& metadata.chunk_base_offset < metadata.chunk_size
        },
        r matches Ok(handle) ==> {
            let state = handle.state();
            &&& state.wf()
            &&& !state.changed()
            &&& state.metadata() == metadata
            &&& state.file_id == file_id
            &&& state.client == client
            &&& state.flags == flags
            &&& state.position == if flags.append {
                metadata.size
            } else {
                0
            }
        },
        reader is Ok <==> {
            &&& flags.read
            &&& flags.create || flags.append ==> flags.write
            &&& flags.truncate_existing ==> flags.create
            &&& 0 < metadata.chunk_size <= usize::MAX
            &&& metadata.chunk_base_offset < metadata.chunk_size
        },
        reader matches Ok(handle) ==> {
            let state = handle.state();
            &&& state.wf()
            &&& !state.changed()
            &&& state.metadata() == metadata
            &&& state.file_id == file_id
            &&& state.flags == flags
            &&& state.position == 0
        },
{
    if r is Ok || reader is Ok {
        handle_laws::a_handle_opens_on_its_record(
            client,
            file_id,
            metadata,
            flags,
            Map::empty(),
            0,
        );
    }
}

/// Opening a path gives what the laws of opening are about, through either filesystem.
pub proof fn opening_follows_the_laws_of_opening(
    db: &SlateDbFileSystem,
    fs: &SlateFs,
    path: &str,
    flags: FileOpenFlags,
    reads: &Reads,
    r: Result<Step<ResolvedFile>>,
    s: Result<Step<ResolvedFile>>,
)
    requires
        call_ensures(SlateDbFileSystem::open_file, (db, path, flags, reads), r),
        call_ensures(<SlateFs as FileSystem>::open_file, (fs, path, flags, reads), s),
    ensures
        fs_laws::opens(db@, path@, flags, *reads, r),
        slatefs_laws::opens(path@, flags, *reads, s),
{
}

/// A path exists exactly if it is mapped, and where there is no database none does. Once
/// the mapping is known the answer is given.
pub proof fn files_exist_where_they_are_mapped(
    db: &SlateDbFileSystem,
    fs: &SlateFs,
    path: &str,
    reads: &Reads,
    store: Store,
    r: Result<Step<bool>>,
    s: Result<Step<bool>>,
)
    requires
        reads.come_from(store),
        reads.get_answer(keys::path_key_bytes(path@)) is Some,
        path@.len() > 0,
        call_ensures(SlateDbFileSystem::file_exists, (db, path, reads), r),
        call_ensures(<SlateFs as FileSystem>::file_exists, (fs, path, reads), s),
    ensures
        db@ is None ==> r is Err,
        db@ == Some(SlateDbClient::ReadOnly { found: false }) ==> (r matches Ok(Step::Done(found))
            && !found),
        db@ is Some && db@ != Some(SlateDbClient::ReadOnly { found: false }) ==> (r matches Ok(
            Step::Done(found),
        ) && found == store.contains_key(keys::path_key_bytes(path@))),
        s matches Ok(Step::Done(found)) && found == store.contains_key(keys::path_key_bytes(path@)),
{
    fs_laws::existence_is_the_path_mapping(db@, store, *reads, path@);
    slatefs_laws::existence_is_the_path_mapping(store, *reads, path@);
}

/// A filesystem is on the client that it was made with until it is closed. Closing gives
/// the client up once, and a second time there is nothing left.
pub proof fn closing_gives_the_client_up_once(
    client: SlateDbClient,
    metrics: CacheMetrics,
    made: SlateDbFileSystem,
    first: &mut SlateDbFileSystem,
    second: &mut SlateDbFileSystem,
    a: Option<SlateDbClient>,
    b: Option<SlateDbClient>,
)
    requires
        call_ensures(SlateDbFileSystem::new, (client, metrics), made),
        *old(first) == made,
        call_ensures(SlateDbFileSystem::close, (first,), a),
        *old(second) == *final(first),
        call_ensures(SlateDbFileSystem::close, (second,), b),
    ensures
        made@ == Some(client),
        a == Some(client),
        b is None,
        final(first)@ is None,
        final(second)@ is None,
{
}

/// A path is routed here exactly if it starts with the scheme, also across the C ABI,
/// where a filesystem or path that is missing or no text is not routed.
pub proof fn paths_are_routed_by_their_scheme(
    fs: &SlateDbFileSystem,
    path: &str,
    r: bool,
    maybe_fs: Option<&SlateDbFileSystem>,
    bytes: Option<&[u8]>,
    code: i32,
)
    requires
        call_ensures(SlateDbFileSystem::can_handle, (fs, path), r),
        call_ensures(ffi::can_handle, (maybe_fs, bytes), code),
    ensures
        r <==> exists|rest: Seq<char>| path@ == #[trigger] ("duckdb_objfs:"@ + rest),
        code == 0 || code == 1,
        maybe_fs is None || bytes is None ==> code == 0,
        bytes matches Some(text) ==> (!valid_utf8(text@) ==> code == 0),
        maybe_fs is Some ==> (bytes matches Some(text) ==> (encode_utf8(path@) == text@ ==> (code
            == 1 <==> r))),
{
    let scheme = "duckdb_objfs:"@;
    let rest = path@.skip(scheme.len() as int);
    text::parts_are_found_wherever_they_stand(Seq::empty(), scheme, rest, path@);
    if exists|rest: Seq<char>| path@ == #[trigger] (scheme + rest) {
        let rest = choose|rest: Seq<char>| path@ == #[trigger] (scheme + rest);
        text::parts_are_found_wherever_they_stand(Seq::empty(), scheme, rest, path@);
    }
    encode_utf8_decode_utf8(path@);
    encode_utf8_valid_utf8(path@);
}

/// A database is opened at any path that is not empty, in the way that was asked for,
/// with the caches that have room.
pub proof fn databases_are_opened_as_configured(
    path: &str,
    config: CacheConfig,
    mode: SlateDbAccessMode,
    r: Result<OpenPlan>,
)
    requires
        call_ensures(SlateDbFileSystem::open_with_cache_config, (path, config, mode), r),
    ensures
        r is Ok <==> path@.len() > 0,
        r matches Ok(plan) ==> {
            &&& plan.access_mode == mode
            &&& plan.cache_config == config
            &&& plan.db_cache is Some <==> config.block_cache_size_bytes > 0
                || config.metadata_cache_size_bytes > 0
            &&& plan.db_cache matches Some(caches) ==> {
                &&& caches.block_cache is Some <==> config.block_cache_size_bytes > 0
                &&& caches.metadata_cache is Some <==> config.metadata_cache_size_bytes > 0
                &&& caches.block_cache matches Some(cache) ==> cache.max_capacity
                    == config.block_cache_size_bytes && cache.shards == config.cache_shards
                &&& caches.metadata_cache matches Some(cache) ==> cache.max_capacity
                    == config.metadata_cache_size_bytes && cache.shards == config.cache_shards
            }
        },
{
}

/// Caches are built where they have room, each with its own room and with the shards
/// that were asked for, or as many as the default says.
pub proof fn caches_are_built_as_configured(
    config: &CacheConfig,
    plan: DbCachePlan,
    default_shards: usize,
    built: SplitCache,
)
    requires
        call_ensures(CacheConfig::build_db_cache, (config,), Some(plan)),
        cache::can_be_made(plan.block_cache, default_shards),
        cache::can_be_made(plan.metadata_cache, default_shards),
        call_ensures(DbCachePlan::build, (plan, default_shards), built),
    ensures
        ({
            let caches = cache::caches_in(built);
            let shards = match config.cache_shards {
                Some(shards) => shards,
                None => default_shards,
            };
            &&& caches.block_cache is Some <==> config.block_cache_size_bytes > 0
            &&& caches.metadata_cache is Some <==> config.metadata_cache_size_bytes > 0
            &&& caches.block_cache matches Some(cache) ==> cache.max_capacity
                == config.block_cache_size_bytes && cache.shards == shards
            &&& caches.metadata_cache matches Some(cache) ==> cache.max_capacity
                == config.metadata_cache_size_bytes && cache.shards == shards
        }),
{
}

/// Only a filesystem on a client that can write lets a change through.
pub proof fn only_writers_change_anything(
    fs: &SlateDbFileSystem,
    operation: &str,
    r: Result<()>,
)
    requires
        call_ensures(SlateDbFileSystem::ensure_read_write, (fs, operation), r),
    ensures
        r is Ok <==> fs@ == Some(SlateDbClient::ReadWrite),
        fs@ is None ==> (r matches Err(e) && e@.code == ErrorCode::InvalidArgument),
        fs@ is Some && r is Err ==> (r matches Err(e) && e@.code == ErrorCode::ReadOnlyViolation),
{
}

/// A reader that fails to open leaves a filesystem without a database exactly if the
/// data is missing and the failure says so.
pub proof fn missing_databases_hold_nothing(
    kind: SlateDbErrorKind,
    words: &str,
    before: Seq<char>,
    behind: Seq<char>,
    r: Option<SlateDbClient>,
)
    requires
        call_ensures(fs::client_without_reader, (kind, words), r),
    ensures
        r is Some ==> kind is Data && r == Some(SlateDbClient::ReadOnly { found: false }),
        kind is Data && words@ == before + "failed to find latest transactional object"@ + behind
            ==> r is Some,
        !text::has_part(words@, "failed to find latest transactional object"@) ==> r is None,
{
    text::parts_are_found_wherever_they_stand(
        before,
        "failed to find latest transactional object"@,
        behind,
        words@,
    );
}

/// The settings of an S3 client are the configured ones: it is refused exactly if the
/// bucket is missing or the credentials are not whole, and signs exactly if there is a
/// key.
pub proof fn s3_settings_are_the_configured_ones(
    config: S3StorageConfig,
    r: Result<S3Settings>,
)
    requires
        call_ensures(fs::build_s3_settings, (config,), r),
    ensures
        r is Ok <==> config.bucket@.len() > 0 && (config.key_id is Some <==> config.secret is Some)
            && (config.session_token is Some ==> config.key_id is Some),
        r matches Err(e) ==> e@.code == ErrorCode::InvalidArgument,
        r matches Ok(settings) ==> {
            &&& settings.bucket@ == config.bucket@
            &&& settings.root == config.root
            &&& settings.region == config.region
            &&& settings.virtual_host_style == config.virtual_host_style
            &&& settings.endpoint is Some <==> config.endpoint is Some
            &&& settings.endpoint matches Some(endpoint) ==> text::has_part(endpoint@, "://"@)
            &&& settings.credentials is Some <==> config.key_id is Some
            &&& settings.credentials matches Some(credentials) ==> {
                &&& config.key_id matches Some(key_id) && credentials.key_id == key_id
                &&& config.secret matches Some(secret) && credentials.secret == secret
                &&& credentials.session_token == config.session_token
            }
        },
{
    if let Some(endpoint) = config.endpoint {
        fs::endpoints_have_a_scheme(endpoint@, config.use_ssl);
    }
}

/// A persistent cache is set up exactly if it has a path, with the size and the parts
/// that were configured. A reader is told nothing of flushes and compactions.
pub proof fn persistent_caches_are_set_up_as_configured(
    config: &CacheConfig,
    writer: &mut ObjectStoreCacheSettings,
    reader: &mut ObjectStoreCacheSettings,
)
    requires
        call_ensures(CacheConfig::apply_to_settings, (config, writer), ()),
        call_ensures(CacheConfig::apply_to_reader_options, (config, reader), ()),
    ensures
        config.persistent_cache_path is None ==> final(writer)@ == old(writer)@ && final(reader)@
            == old(reader)@,
        config.persistent_cache_path matches Some(path) ==> {
            &&& final(writer)@.root_folder == Some(path@)
            &&& final(writer)@.max_cache_size_bytes == Some(config.persistent_cache_size_bytes)
            &&& final(writer)@.part_size_bytes == config.persistent_cache_part_size_bytes
            &&& final(writer)@.cache_on_flush == config.persistent_cache_on_flush
            &&& final(writer)@.cache_on_compaction == config.persistent_cache_on_compaction
            &&& final(reader)@.root_folder == Some(path@)
            &&& final(reader)@.max_cache_size_bytes == Some(config.persistent_cache_size_bytes)
            &&& final(reader)@.part_size_bytes == config.persistent_cache_part_size_bytes
        },
        final(reader)@.cache_on_flush == old(reader)@.cache_on_flush,
        final(reader)@.cache_on_compaction == old(reader)@.cache_on_compaction,
{
}

/// Every statistic crosses the C ABI under its own name.
pub proof fn statistics_cross_under_their_names(stats: CacheStats, r: FfiCacheStats)
    requires
        call_ensures(FfiCacheStats::new, (stats,), r),
    ensures
        r.block_cache_hits == stats.block_cache_hits,
        r.block_cache_misses == stats.block_cache_misses,
        r.metadata_cache_hits == stats.metadata_cache_hits,
        r.metadata_cache_misses == stats.metadata_cache_misses,
        r.persistent_cache_hits == stats.persistent_cache_hits,
        r.persistent_cache_misses == stats.persistent_cache_misses,
        r.persistent_cache_entries == stats.persistent_cache_entries,
        r.persistent_cache_size_bytes == stats.persistent_cache_size_bytes,
        r.persistent_cache_evictions == stats.persistent_cache_evictions,
        r.persistent_cache_evicted_bytes == stats.persistent_cache_evicted_bytes,
{
}

/// A flag that crosses the C ABI is set unless it is zero, each under its own name, and
/// a database is read-only exactly if it is asked to be with a one.
pub proof fn options_cross_under_their_names(
    options: Option<&FfiOpenOptions>,
    flags: Result<FileOpenFlags>,
    config: Option<&FfiDatabaseConfig>,
    mode: Result<SlateDbAccessMode>,
)
    requires
        call_ensures(ffi::require_options, (options,), flags),
        call_ensures(ffi::require_database_config, (config,), mode),
    ensures
        flags is Ok <==> options is Some,
        flags matches Ok(flags) ==> {
            let options = *options->0;
            &&& flags.read <==> options.read != 0
            &&& flags.write <==> options.write != 0
            &&& flags.create <==> options.create != 0
            &&& flags.append <==> options.append != 0
            &&& flags.truncate_existing <==> options.truncate_existing != 0
        },
        mode is Ok <==> (config matches Some(config) && (config.read_only == 0 || config.read_only
            == 1)),
        mode matches Ok(mode) ==> (mode is ReadOnly <==> config->0.read_only == 1),
{
}

/// A text that crosses the C ABI is read exactly if it is there and is one. A local root
/// must not be empty, and a buffer may be missing only where nothing is transferred.
pub proof fn texts_cross_as_they_are(
    bytes: Option<&[u8]>,
    name: &str,
    r: Result<&str>,
    root: Result<&str>,
    is_null: bool,
    len: usize,
    buffer: Result<()>,
    text: Seq<char>,
)
    requires
        call_ensures(ffi::require_path, (bytes, name), r),
        call_ensures(ffi::require_local_root, (bytes,), root),
        call_ensures(ffi::require_buffer, (is_null, len, name), buffer),
    ensures
        bytes is None ==> r is Err && root is Err,
        bytes matches Some(given) ==> (given@ == encode_utf8(text) ==> (r matches Ok(read)
            && read@ == text)),
        bytes matches Some(given) ==> (given@ == encode_utf8(text) && text.len() > 0 ==> (
        root matches Ok(read) && read@ == text)),
        bytes matches Some(given) ==> (!valid_utf8(given@) ==> r is Err && root is Err),
        bytes matches Some(given) ==> (given@.len() == 0 ==> root is Err),
        buffer is Ok <==> !is_null || len == 0,
{
    if let Some(given) = bytes {
        if given@ == encode_utf8(text) {
            encode_utf8_valid_utf8(text);
            encode_utf8_decode_utf8(text);
            ffi::texts_take_room(text);
            if let Ok(read) = r {
                encode_utf8_decode_utf8(read@);
            }
            if let Ok(read) = root {
                encode_utf8_decode_utf8(read@);
            }
        }
    }
}

/// An S3 configuration that crosses the C ABI says what it was given: its texts, those
/// that are empty or missing as none, and its switches unless they are zero.
pub proof fn s3_configurations_cross_as_they_are(
    config: &FfiS3Config,
    read: S3StorageConfig,
    key_id: Seq<char>,
    secret: Seq<char>,
    bucket: Seq<char>,
)
    requires
        call_ensures(ffi::require_s3_config, (Some(config),), Ok(read)),
        config.bucket matches Some(bytes) && bytes@ == encode_utf8(bucket),
        config.key_id matches Some(bytes) && bytes@ == encode_utf8(key_id),
        config.secret matches Some(bytes) && bytes@ == encode_utf8(secret),
        key_id.len() > 0,
        secret.len() > 0,
    ensures
        read.bucket@ == bucket,
        read.key_id matches Some(text) && text@ == key_id,
        read.secret matches Some(text) && text@ == secret,
        config.session_token is None ==> read.session_token is None,
        config.root is None ==> read.root is None,
        config.endpoint is None ==> read.endpoint is None,
        config.region is None ==> read.region is None,
        read.use_ssl <==> config.use_ssl != 0,
        read.virtual_host_style <==> config.virtual_host_style != 0,
{
    encode_utf8_decode_utf8(bucket);
    ffi::configured_texts_read_back(config.key_id, key_id);
    ffi::configured_texts_read_back(config.secret, secret);
}

/// A reply is zero and silent exactly for a success. A failure replies with its own code
/// and a text, and a panic as a request that makes no sense.
pub proof fn replies_say_how_it_went(outcome: FfiOutcome, r: FfiReply)
    requires
        call_ensures(ffi::ffi_result, (outcome,), r),
    ensures
        r.code == 0 <==> (outcome matches FfiOutcome::Returned(Ok(_))),
        r.message is None <==> (outcome matches FfiOutcome::Returned(Ok(_))),
        outcome matches FfiOutcome::Returned(Err(error)) ==> r.code == error@.code.number(),
        outcome is Panicked ==> r.code == ErrorCode::InvalidArgument.number(),
{
    match outcome {
        FfiOutcome::Returned(Err(error)) => {
            ffi::replies_tell_success_from_failure(r, error@, 0);
        },
        _ => {},
    }
}

/// A condition that did not hold means that nothing has changed exactly if there are
/// negative conditions alone. Only such a failure is told differently.
pub proof fn failed_conditions_are_told_as_they_were_meant(
    conditions: &GetConditions,
    negative: bool,
    result: std::result::Result<u64, object_store::Error>,
    r: std::result::Result<u64, object_store::Error>,
)
    requires
        call_ensures(GetConditions::fail_as_not_modified, (conditions,), negative),
        call_ensures(
            object_store_errors::map_conditional_get_result::<u64>,
            (result, negative),
            r,
        ),
    ensures
        negative <==> (conditions.if_none_match || conditions.if_modified_since)
            && !conditions.if_match && !conditions.if_unmodified_since,
        result is Ok ==> r == result,
        !negative ==> r == result,
        result matches Err(error) ==> {
            let failure = object_store_errors::store_failure(error);
            &&& r is Err
            &&& !(failure is Precondition) ==> r == result
            &&& negative && failure is Precondition ==> (r matches Err(e)
                && object_store_errors::store_failure(e) is NotModified)
        },
{
}

/// A request is counted once, however often its end is noted.
pub proof fn requests_are_counted_once(
    made: RequestRecord,
    first: &mut RequestRecord,
    second: &mut RequestRecord,
    a: bool,
    b: bool,
)
    requires
        call_ensures(RequestRecord::new, (), made),
        *old(first) == made,
        call_ensures(RequestRecord::record_once, (first,), a),
        *old(second) == *final(first),
        call_ensures(RequestRecord::record_once, (second,), b),
    ensures
        a,
        !b,
        final(second)@,
{
}

/// A stream ends with a failure or with nothing read, and a listing with a failure or
/// with no entry found.
pub proof fn streams_end_when_nothing_is_left(
    bytes_read: Option<usize>,
    stream_ended: bool,
    found: Option<bool>,
    listing_ended: bool,
)
    requires
        call_ensures(request_record::ends_stream, (bytes_read,), stream_ended),
        call_ensures(request_record::ends_listing, (found,), listing_ended),
    ensures
        stream_ended <==> bytes_read is None || bytes_read == Some(0usize),
        listing_ended <==> !(found matches Some(more) && more),
{
}

/// A caller that arrived before a flush started, and has its turn after the flush ended,
/// does not flush again and learns how it went. One that arrived after it started
/// flushes itself.
pub proof fn callers_share_a_flush_that_started_after_them(
    early: &FlushBatcher,
    early_arrival: u64,
    flushing: &mut FlushBatcher,
    arrival: u64,
    index: u64,
    late: &FlushBatcher,
    late_arrival: u64,
    ending: &mut FlushBatcher,
    result: &Result<()>,
    covered_turn: &mut FlushBatcher,
    covered: Turn,
    late_turn: &mut FlushBatcher,
    next: Turn,
)
    requires
        old(flushing)@.idle(),
        old(flushing)@.started < u64::MAX - 1,
        early@ == old(flushing)@,
        call_ensures(FlushBatcher::arrive, (early,), early_arrival),
        arrival == early_arrival,
        call_ensures(FlushBatcher::take_turn, (flushing, arrival), Turn::Flush(index)),
        late@ == final(flushing)@,
        call_ensures(FlushBatcher::arrive, (late,), late_arrival),
        old(ending)@ == final(flushing)@,
        call_ensures(FlushBatcher::finish, (ending, index, result), ()),
        old(covered_turn)@ == final(ending)@,
        call_ensures(FlushBatcher::take_turn, (covered_turn, early_arrival), covered),
        old(late_turn)@ == final(ending)@,
        call_ensures(FlushBatcher::take_turn, (late_turn, late_arrival), next),
    ensures
        covered matches Turn::Covered(outcome) && (outcome is Ok <==> *result is Ok) && (
        *result matches Err(error) ==> outcome matches Err(e) && e@ == error@),
        final(ending)@.idle(),
        next matches Turn::Flush(next_index) && next_index == index + 1,
{
}

/// The answers of a transaction are kept: what was taken in last for a key or a prefix is
/// what is found for it, and what the store says of them stays what the store says.
pub proof fn answers_are_found_again(
    got: &mut Reads,
    key: Vec<u8>,
    value: Option<Vec<u8>>,
    scanned: &mut Reads,
    prefix: Vec<u8>,
    found: Vec<Vec<u8>>,
    other: Seq<u8>,
    store: Store,
)
    requires
        call_ensures(Reads::add_get, (got, key, value), ()),
        call_ensures(Reads::add_scan, (scanned, prefix, found), ()),
    ensures
        value is None ==> final(got).get_answer(key@) == Some(None::<Seq<u8>>),
        value matches Some(bytes) ==> final(got).get_answer(key@) == Some(Some(bytes@)),
        other != key@ ==> final(got).get_answer(other) == old(got).get_answer(other),
        final(got).scan_answer(other) == old(got).scan_answer(other),
        final(scanned).scan_answer(prefix@) == Some(found@.map_values(|key: Vec<u8>| key@)),
        other != prefix@ ==> final(scanned).scan_answer(other) == old(scanned).scan_answer(other),
        final(scanned).get_answer(other) == old(scanned).get_answer(other),
        old(got).come_from(store) && (value is Some <==> store.contains_key(key@)) && (
        value matches Some(bytes) ==> bytes@ == store[key@]) ==> final(got).come_from(store),
{
    assert(final(got).took_get(*old(got), key@, catalog::value_of(value)));
    assert(final(scanned).took_scan(*old(scanned), prefix@, catalog::key_list(found@)));
}

/// Chunks that were fetched are kept under their index. A lookup that found nothing
/// leaves the chunk absent, or empty where its contents were asked for.
pub proof fn fetched_chunks_are_found_again(
    looked_up: &mut FetchedChunks,
    read: &mut FetchedChunks,
    index: u64,
    value: Option<Vec<u8>>,
    other: u64,
)
    requires
        call_ensures(FetchedChunks::add_lookup, (looked_up, index, value), ()),
        call_ensures(FetchedChunks::add_contents, (read, index, value), ()),
        other != index,
    ensures
        value matches Some(chunk) ==> final(looked_up)@.contains_key(index) && final(looked_up)@[index] == chunk@,
        value is None ==> final(looked_up)@ == old(looked_up)@,
        final(read)@.contains_key(index),
        value matches Some(chunk) ==> final(read)@[index] == chunk@,
        value is None ==> final(read)@[index].len() == 0,
        final(looked_up)@.contains_key(other) <==> old(looked_up)@.contains_key(other),
        final(read)@.contains_key(other) <==> old(read)@.contains_key(other),
        old(read)@.contains_key(other) ==> final(read)@[other] == old(read)@[other],
        old(looked_up)@.contains_key(other) ==> final(looked_up)@[other] == old(looked_up)@[other],
{
}

/// Requests are merged into reads that serve every one of them, unless one of them reads
/// past the largest offset there is.
pub proof fn merged_reads_serve_their_requests(
    requests: &[ReadRequest],
    r: Result<Vec<MergedRead>>,
    k: int,
)
    requires
        call_ensures(read_coalescer::merge_read_requests, (requests,), r),
        0 <= k < requests@.len() <= usize::MAX,
    ensures
        r is Err <==> exists|i: int|
            0 <= i < requests@.len() && (#[trigger] requests@[i]).offset + requests@[i].len
                > u64::MAX,
        r matches Ok(merged) ==> exists|m: int, i: int|
            0 <= m < merged@.len() && 0 <= i < merged@[m].request_indices@.len() && (
            #[trigger] merged@[m].request_indices@[i]) == k && merged@[m].offset
                <= requests@[k].offset && requests@[k].offset + requests@[k].len
                <= merged@[m].offset + merged@[m].len,
{
    if r is Err {
        let i = choose|i: int| 0 <= i < requests@.len() && (#[trigger] requests@[i]).end()
            > u64::MAX;
        assert(requests@[i].offset + requests@[i].len > u64::MAX);
    }
    if exists|i: int|
        0 <= i < requests@.len() && (#[trigger] requests@[i]).offset + requests@[i].len > u64::MAX {
        let i = choose|i: int|
            0 <= i < requests@.len() && (#[trigger] requests@[i]).offset + requests@[i].len
                > u64::MAX;
        read_coalescer::only_reads_past_the_largest_offset_are_refused(requests@, i);
    }
    if let Ok(merged) = r {
        let order = choose|order: Seq<usize>| #[trigger]
            read_coalescer::lists_by_offset(order, requests@, requests@.len() as int)
                && read_coalescer::merged_views(merged@) == read_coalescer::merged_in_order(
                requests@,
                order,
            );
        let views = read_coalescer::merged_in_order(requests@, order);
        read_coalescer::merged_reads_serve_every_request(requests@, order);
        assert(order.contains(k as usize));
        let (m, i) = read_coalescer::served_by_some_read(views, k as usize);
        assert(views[m] == merged@[m]@);
        assert(read_coalescer::serves_its_requests(views[m], requests@));
        assert(merged@[m].request_indices@[i] == k);
    }
}

/// A lone caller leads, has its own request read and gets its own result.
pub proof fn lone_reads_are_led_by_their_caller(
    made: ReadCoalescer<u64>,
    queued: &mut ReadCoalescer<u64>,
    request: ReadRequest,
    waiter: u64,
    leads: bool,
    taken: &mut ReadCoalescer<u64>,
    batch: Vec<Queued<u64>>,
)
    requires
        call_ensures(ReadCoalescer::<u64>::new, (), made),
        *old(queued) == made,
        call_ensures(ReadCoalescer::<u64>::enqueue, (queued, request, waiter), leads),
        *old(taken) == *final(queued),
        call_ensures(ReadCoalescer::<u64>::take_batch, (taken,), batch),
    ensures
        leads,
        batch@ == seq![(request, waiter)],
        final(taken)@.queue.len() == 0,
        final(taken)@.leader_active,
{
    read_coalescer::batches_take_the_first_reads(final(queued)@);
    read_coalescer::queued_reads_wait_their_turn(made@, request, waiter);
    assert(batch@ =~= seq![(request, waiter)]);
}

/// A stored record reads back as it was written.
pub proof fn stored_records_read_back(
    metadata: &FileMetadata,
    written: Vec<u8>,
    bytes: &[u8],
    r: Result<FileMetadata>,
)
    requires
        call_ensures(FileMetadata::encode_to_bytes, (metadata,), written),
        bytes@ == written@,
        call_ensures(FileMetadata::decode_from_bytes, (bytes,), r),
    ensures
        r matches Ok(read) && read == *metadata,
{
    file_metadata::metadata_round_trips(*metadata);
}

/// A path and a chunk index read back out of the keys they were put into.
pub proof fn keys_read_back(
    path: &str,
    path_key: Vec<u8>,
    key: &[u8],
    read: Option<&str>,
    file_id: u64,
    index: u64,
    chunk_key: Vec<u8>,
    stored: &[u8],
    r: Result<u64>,
)
    requires
        call_ensures(keys::path_key, (path,), path_key),
        key@ == path_key@,
        call_ensures(keys::parse_path_from_key, (key,), read),
        call_ensures(keys::chunk_key, (file_id, index), chunk_key),
        stored@ == chunk_key@,
        call_ensures(keys::parse_chunk_idx, (stored,), r),
    ensures
        read matches Some(text) && text@ == path@,
        r matches Ok(idx) && idx == index,
{
    keys::path_key_round_trips(path@, path@);
    keys::chunk_index_round_trips(file_id, index);
    if let Some(text) = read {
        keys::path_key_round_trips(text@, path@);
    }
}

/// A SlateFS is on the path it was opened at, which must not be empty, and can be closed
/// exactly if no handle is open.
pub proof fn filesystems_close_once_their_handles_are(
    path: &str,
    r: Result<SlateFs>,
    fs: SlateFs,
    handles_open: bool,
    closed: Result<()>,
)
    requires
        call_ensures(SlateFs::open, (path,), r),
        call_ensures(SlateFs::close, (fs, handles_open), closed),
    ensures
        r is Ok <==> path@.len() > 0,
        r matches Ok(fs) ==> fs@ == path@,
        closed is Ok <==> !handles_open,
{
}

/// An error reports the code and status that it was made with.
pub proof fn errors_report_what_they_were_made_with(
    message: String,
    status: ErrorStatus,
    location: String,
    detail: ErrorStruct,
    error: &Error,
    code: ErrorCode,
    reported: ErrorStatus,
)
    requires
        call_ensures(ErrorStruct::new, (message, status, location), detail),
        *error == Error::SlateDb(detail) || *error == Error::Io(detail),
        call_ensures(Error::code, (error,), code),
        call_ensures(Error::status, (error,), reported),
    ensures
        detail@.message == message@,
        detail@.source is None,
        detail@.location == Some(location@),
        reported == status,
        code == if *error is SlateDb {
            ErrorCode::SlateDb
        } else {
            ErrorCode::Io
        },
{
}

/// Before a read, exactly the chunks are asked for that it needs: those with no staged
/// change that hold some of the bytes it will give. Each request is under the keys of the
/// file's chunks that it is for.
pub proof fn reads_ask_for_the_chunks_they_need<H: FileHandle>(
    handle: &H,
    len: usize,
    offset: u64,
    r: Result<Vec<ChunkFetch>>,
    k: u64,
    i: int,
)
    requires
        handle.state().wf(),
        call_ensures(<H as FileHandle>::pread_fetches, (handle, len, offset), r),
    ensures
        r is Ok <==> handle.state().flags.read,
        r matches Ok(fetches) ==> {
            let state = handle.state();
            let n = if offset >= state.size {
                0
            } else if state.size - offset < len {
                state.size - offset
            } else {
                len as int
            };
            let cs = state.chunks.chunk_size as int;
            let at = offset + state.chunks.lead;
            let asked = chunk_manager::expanded(chunk_manager::fetch_ranges(fetches@));
            &&& asked.contains(k) <==> (!state.chunks.pending.contains_key(k) && n > 0 && k * cs < at
                + n && at < (k + 1) * cs)
            &&& 0 <= i < fetches@.len() ==> match fetches@[i] {
                ChunkFetch::Get { index, key } => key@ == keys::chunk_key_bytes(
                    state.chunks.file_id,
                    index,
                ),
                ChunkFetch::Scan { range, first_key, last_key, read_ahead_bytes } => {
                    let span = (range.last - range.first + 1) * state.chunks.chunk_size;
                    &&& range.first < range.last
                    &&& span <= 4194304 ==> read_ahead_bytes == span
                    &&& span > 4194304 ==> read_ahead_bytes == 4194304
                    &&& first_key@ == keys::chunk_key_bytes(state.chunks.file_id, range.first)
                    &&& last_key@ == keys::chunk_key_bytes(state.chunks.file_id, range.last)
                },
            }
        },
{
    if let Ok(fetches) = r {
        let n = handle.state().readable(len as nat, offset as nat);
        if 0 <= i < fetches@.len() {
            assert(fetches@[i].asks_for_its_chunks(
                handle.state().chunks.file_id,
                handle.state().chunks.chunk_size,
            ));
            assert(chunk_manager::fetch_ranges(fetches@)[i] == fetches@[i].range());
            let range = fetches@[i].range();
            let chunk_size = handle.state().chunks.chunk_size;
            assert((range.last - range.first + 1) * chunk_size >= 1) by (nonlinear_arith)
                requires
                    range.first <= range.last,
                    chunk_size > 0,
            ;
            chunks::scans_read_ahead_within_bounds(range.first, range.last, chunk_size);
        }
        handle_laws::reads_stop_only_at_the_end(handle.state(), len as nat, offset as nat);
        handle_laws::reads_ask_for_what_is_missing_alone(
            handle.state(),
            fetches@,
            n,
            offset as nat,
            k,
        );
    }
}

/// Before a truncation, what it needs is asked for: nothing where it does not shrink the
/// file, else the keys of the file's chunks, and what is stored of the chunk that the new
/// end lies in unless that has a staged change or nothing is kept.
pub proof fn truncations_ask_for_what_they_need(
    handle: &SlateFileHandle,
    new_size: u64,
    r: Result<Option<chunk_manager::TruncateReads>>,
)
    requires
        handle.state().wf(),
        call_ensures(<SlateFileHandle as FileHandle>::truncate_reads, (handle, new_size), r),
    ensures
        r is Ok <==> handle.state().flags.write,
        r matches Ok(reads) ==> {
            let state = handle.state();
            let last = ((new_size - 1 + state.chunks.lead) / state.chunks.chunk_size as int) as u64;
            &&& reads is Some <==> new_size < state.size
            &&& reads matches Some(wanted) ==> {
                &&& wanted.prefix@ == keys::chunk_prefix_bytes(state.file_id)
                &&& wanted.last_chunk_key is Some <==> new_size > 0
                    && !state.chunks.pending.contains_key(last)
                &&& wanted.last_chunk_key matches Some(key) ==> key@ == keys::chunk_key_bytes(
                    state.file_id,
                    last,
                )
            }
        },
{
}

/// A handle that a filesystem gives on a resolved file is on that file, and through a
/// read-only filesystem only reads.
pub proof fn filesystems_give_handles_on_resolved_files(
    db: &SlateDbFileSystem,
    file: &ResolvedFile,
    flags: FileOpenFlags,
    r: Result<SlateFileHandle>,
)
    requires
        call_ensures(SlateDbFileSystem::file_handle, (db, file, flags), r),
    ensures
        db@ is None ==> r is Err,
        r matches Ok(handle) ==> {
            let state = handle.state();
            &&& state.wf()
            &&& state.file_id == file.file_id
            &&& state.size == file.metadata.size
            &&& state.flags == flags
            &&& state.client is ReadWrite <==> db@ == Some(SlateDbClient::ReadWrite)
            &&& db@ != Some(SlateDbClient::ReadWrite) ==> !flags.write
        },
        db@ == Some(SlateDbClient::ReadWrite) && fs_laws::sensible(flags) && 0
            < file.metadata.chunk_size <= usize::MAX && file.metadata.chunk_base_offset
            < file.metadata.chunk_size ==> r is Ok,
        db@ is Some && fs_laws::sensible(flags) && flags.read && !flags.write && 0
            < file.metadata.chunk_size <= usize::MAX && file.metadata.chunk_base_offset
            < file.metadata.chunk_size ==> r is Ok,
{
}

/// Removing and moving give what the laws of removing and moving are about, through
/// either filesystem.
pub proof fn changes_follow_the_laws_of_changing(
    db: &SlateDbFileSystem,
    fs: &SlateFs,
    path: &str,
    target: &str,
    reads: &Reads,
    store: Store,
    removed: Result<Step<Vec<Mutation>>>,
    moved: Result<Step<Vec<Mutation>>>,
    fs_removed: Result<Step<Vec<Mutation>>>,
    fs_moved: Result<Step<Vec<Mutation>>>,
)
    requires
        reads.come_from(store),
        call_ensures(SlateDbFileSystem::remove_file, (db, path, reads), removed),
        call_ensures(SlateDbFileSystem::move_file, (db, path, target, reads), moved),
        call_ensures(<SlateFs as FileSystem>::remove_file, (fs, path, reads), fs_removed),
        call_ensures(<SlateFs as FileSystem>::move_file, (fs, path, target, reads), fs_moved),
    ensures
        db@ != Some(SlateDbClient::ReadWrite) ==> removed is Err && moved is Err,
        removed matches Ok(Step::Done(batch)) ==> catalog_laws::file_removed(
            store,
            batch::applied(store, batch::changes_of(batch@)),
            path@,
            catalog_laws::file_at(IdForm::BigEndian, store, path@),
        ),
        fs_removed matches Ok(Step::Done(batch)) ==> catalog_laws::file_removed(
            store,
            batch::applied(store, batch::changes_of(batch@)),
            path@,
            catalog_laws::file_at(IdForm::LittleEndian, store, path@),
        ),
        moved matches Ok(Step::Done(batch)) ==> if path@ == target@ {
            batch@.len() == 0
        } else {
            catalog_laws::file_moved(
                IdForm::BigEndian,
                store,
                batch::applied(store, batch::changes_of(batch@)),
                path@,
                target@,
            )
        },
        fs_moved matches Ok(Step::Done(batch)) ==> if path@ == target@ {
            batch@.len() == 0
        } else {
            catalog_laws::file_moved(
                IdForm::LittleEndian,
                store,
                batch::applied(store, batch::changes_of(batch@)),
                path@,
                target@,
            )
        },
{
    fs_laws::removing_takes_the_file_and_nothing_else(
        db@,
        store,
        *reads,
        path@,
        "remove a file"@,
        removed,
    );
    fs_laws::moving_rebinds_the_path_and_nothing_else(
        db@,
        store,
        *reads,
        path@,
        target@,
        "move a file"@,
        moved,
    );
    slatefs_laws::removing_takes_the_file_and_nothing_else(store, *reads, path@, fs_removed);
    slatefs_laws::moving_rebinds_the_path_and_nothing_else(
        store,
        *reads,
        path@,
        target@,
        fs_moved,
    );
}

/// A reader that could not be opened leaves a filesystem without a database exactly if
/// its failure is of data and says that there is none; any other failure is passed on.
pub proof fn reader_failures_are_settled(failure: SlateDbError, r: Result<SlateDbClient>)
    requires
        call_ensures(fs::settle_reader_failure, (failure,), r),
    ensures
        r matches Ok(client) ==> client == (SlateDbClient::ReadOnly { found: false }),
        r is Ok ==> error::slatedb_error_kind(failure) is Data,
        error::slatedb_error_kind(failure) is Data && text::has_part(
            error::slatedb_error_head(failure),
            "failed to find latest transactional object"@,
        ) ==> r is Ok,
        !error::slatedb_error_is_caused(failure) && !text::has_part(
            error::slatedb_error_head(failure),
            "failed to find latest transactional object"@,
        ) ==> r is Err,
        r matches Err(e) ==> e is SlateDb && e@.source is Some,
{
}

/// Statistics are read out of a snapshot, and those of a filesystem out of one that was
/// taken.
pub proof fn statistics_are_read_out_of_snapshots(
    snapshot: &Metrics,
    r: Option<CacheStats>,
    metrics: &CacheMetrics,
    now: Option<CacheStats>,
    db: &SlateDbFileSystem,
    of_db: Option<CacheStats>,
)
    requires
        call_ensures(cache::cache_stats, (snapshot,), r),
        call_ensures(CacheMetrics::stats, (metrics,), now),
        call_ensures(SlateDbFileSystem::cache_stats, (db,), of_db),
    ensures
        cache::stats_from(cache::metrics_in(*snapshot), r),
        exists|taken: Metrics| #[trigger]
            cache::held_by(*metrics.counted_into(), taken) && cache::stats_from(
                cache::metrics_in(taken),
                now,
            ),
        exists|taken: Metrics| #[trigger]
            cache::held_by(*db.metrics().counted_into(), taken) && cache::stats_from(
                cache::metrics_in(taken),
                of_db,
            ),
{
}

/// Without a configuration the caches are the default ones: both in memory, and none on
/// disk. One that is given is refused only if it cannot be used.
pub proof fn cache_configurations_are_optional(
    none: Result<CacheConfig>,
    config: &ffi::FfiCacheConfig,
    r: Result<CacheConfig>,
)
    requires
        call_ensures(ffi::parse_cache_config, (None::<&ffi::FfiCacheConfig>,), none),
        call_ensures(ffi::parse_cache_config, (Some(config),), r),
    ensures
        none matches Ok(read) && {
            &&& read.block_cache_size_bytes == 512 * 1024 * 1024
            &&& read.metadata_cache_size_bytes == 128 * 1024 * 1024
            &&& read.cache_shards is None
            &&& read.persistent_cache_path is None
            &&& !read.persistent_cache_on_flush
            &&& !read.persistent_cache_on_compaction
        },
        r is Ok <==> {
            let persists = config.persistent_cache_path matches Some(path) && path@.len() > 0;
            &&& config.persistent_cache_path matches Some(path) ==> valid_utf8(path@)
            &&& config.persistent_cache_size_bytes <= usize::MAX
            &&& config.persistent_cache_part_size_bytes <= usize::MAX
            &&& config.cache_shards <= usize::MAX
            &&& persists ==> config.persistent_cache_size_bytes > 0
            &&& persists ==> config.persistent_cache_part_size_bytes > 0
                && config.persistent_cache_part_size_bytes as int % 1024 == 0
        },
        r matches Ok(read) ==> {
            &&& read.block_cache_size_bytes == config.block_cache_size_bytes
            &&& read.metadata_cache_size_bytes == config.metadata_cache_size_bytes
            &&& read.cache_shards is None <==> config.cache_shards == 0
            &&& read.persistent_cache_size_bytes == config.persistent_cache_size_bytes
            &&& read.persistent_cache_part_size_bytes == config.persistent_cache_part_size_bytes
            &&& read.persistent_cache_on_flush <==> config.persistent_cache_on_flush != 0
            &&& read.persistent_cache_on_compaction <==> config.persistent_cache_on_compaction != 0
        },
{
    if let Ok(read) = none {
        assert(read@ == cache::default_config());
        assert(read@.persistent_cache_path is None);
    }
    ffi::cache_configurations_are_accepted_unless_they_cannot_be_used(*config);
    if let Ok(read) = r {
        ffi::cache_configurations_are_read_as_given(*config, Seq::empty());
        assert(read@ == ffi::cache_config_said(*config));
    }
}

/// Storage on S3 is set up from any configuration that is whole, where its region is
/// given and its bucket can be used, and is told what was configured.
pub proof fn s3_storage_is_set_up_from_whole_configurations(
    config: S3StorageConfig,
    r: Result<Operator>,
)
    requires
        call_ensures(s3::build_s3_operator, (config,), r),
    ensures
        ({
            let whole = config.bucket@.len() > 0 && (config.key_id is Some <==> config.secret
                is Some) && (config.session_token is Some ==> config.key_id is Some);
            let ordinary = !(config.virtual_host_style && config.bucket@.contains('.')) && (
            config.bucket@.len() < 6 || config.bucket@.skip(config.bucket@.len() - 6)
                != "--x-s3"@);
            &&& !whole ==> (r matches Err(e) && e@.code == ErrorCode::InvalidArgument)
            &&& whole && ordinary && config.region is Some && config.region->0@.len() > 0 ==> r
                is Ok
            &&& whole && r is Err ==> (r matches Err(e) && e@.code == ErrorCode::Io && e@.source
                is Some)
            &&& whole && config.region is Some && config.region->0@.len() > 0
                && config.virtual_host_style && config.bucket@.contains('.') ==> r is Err
            &&& r matches Ok(operator) ==> s3::operator_setup(operator).bucket == config.bucket@
                && (s3::operator_setup(operator).skip_signature <==> config.key_id is None)
        }),
{
    fs::s3_configurations_are_accepted_unless_something_is_missing(config);
    if config.bucket@.len() > 0 && !(config.virtual_host_style && config.bucket@.contains('.')) && (
    config.bucket@.len() < 6 || config.bucket@.skip(config.bucket@.len() - 6) != "--x-s3"@) {
        s3::ordinary_buckets_can_be_used(config);
    }
    s3::clients_are_told_what_was_configured(config, Seq::empty());
}

/// A record gives its chunk size exactly if chunks of it can be told apart, and a new one
/// is of an empty file that can be used.
pub proof fn records_give_their_chunk_size(
    metadata: &FileMetadata,
    file_id: u64,
    r: Result<usize>,
    now: u64,
    made: FileMetadata,
)
    requires
        call_ensures(FileMetadata::validated_chunk_size, (metadata, file_id), r),
        call_ensures(FileMetadata::new_at, (now,), made),
    ensures
        r is Ok <==> 0 < metadata.chunk_size <= usize::MAX && metadata.chunk_base_offset
            < metadata.chunk_size,
        r matches Ok(size) ==> size == metadata.chunk_size,
        r matches Err(e) ==> e@.code == ErrorCode::InvalidArgument,
        made.size == 0,
        made.modified_at_ms == now,
        made.chunk_size == 262144,
        made.chunk_base_offset == 12288,
{
    file_metadata::records_can_be_used_unless_chunks_cannot_be_told_apart(*metadata, file_id);
    file_metadata::fresh_records_can_be_used(now, file_id);
}

/// Completing a batch hands each of its reads its own result, and the leader leads on
/// exactly if something is queued.
pub proof fn completed_batches_are_handed_out(
    coalescer: &mut ReadCoalescer<u64>,
    batch: Vec<Queued<u64>>,
    results: Vec<Result<Vec<u8>>>,
    end: BatchEnd<u64>,
    i: int,
)
    requires
        old(coalescer)@.leader_active,
        results@.len() == batch@.len(),
        call_ensures(
            ReadCoalescer::<u64>::complete_batch,
            (coalescer, batch, BatchOutcome::Returned(results)),
            end,
        ),
        0 <= i < batch@.len(),
    ensures
        end.completions@.len() == batch@.len(),
        end.completions@[i].0 == batch@[i].1,
        end.completions@[i].1 == results@[i],
        end.leads_on <==> old(coalescer)@.queue.len() > 0,
        final(coalescer)@.queue == old(coalescer)@.queue,
        final(coalescer)@.leader_active <==> end.leads_on,
{
    read_coalescer::every_read_of_a_batch_is_answered(
        end.completions@,
        old(coalescer)@,
        batch@,
        Some(results@),
        i,
    );
    read_coalescer::a_leader_leads_on_while_reads_are_queued(old(coalescer)@, results@);
}

/// An error without a cause is shown as its message, whether it is worth retrying, and
/// where it comes from. Across the C ABI it is the same text, where that holds no NUL.
pub proof fn errors_are_shown_in_full(
    error: &Error,
    shown: String,
    reply: FfiReply,
    location: Seq<char>,
)
    requires
        error@.source is None,
        error@.location == Some(location),
        call_ensures(Error::to_string, (error,), shown),
        call_ensures(ffi::store_error, (error,), reply),
    ensures
        error@.status is Temporary ==> shown@ == error@.message + " (temporary)"@ + " at "@
            + location,
        error@.status is Permanent ==> shown@ == error@.message + " (permanent)"@ + " at "@
            + location,
        reply.code == error@.code.number(),
        (forall|i: int| 0 <= i < shown@.len() ==> shown@[i] != '\0') ==> (
        reply.message matches Some(text) && text@ == shown@),
{
    error_struct::renderings_say_everything(
        error@.message,
        error@.status,
        location,
        Some(location),
        Seq::empty(),
    );
    text::escaping_goes_character_by_character(shown@, Seq::empty(), ' ');
}

/// A batch that SlateDB takes holds for each key what the last write to it does.
pub proof fn batches_hold_the_last_write_to_each_key(
    mutations: &[Mutation],
    fits: bool,
    batch: WriteBatch,
    store: Store,
)
    requires
        call_ensures(batch::fits_in_batch, (mutations,), fits),
        fits ==> call_ensures(batch::write_batch, (mutations,), batch),
    ensures
        fits <==> forall|i: int|
            0 <= i < mutations@.len() ==> match #[trigger] mutations@[i] {
                Mutation::Put { key, value } => 0 < key@.len() <= u32::MAX && value@.len()
                    <= u32::MAX,
                Mutation::Delete { key } => 0 < key@.len() <= u32::MAX,
            },
        fits ==> batch::settled(store, batch::held_in(batch)) == batch::applied(
            store,
            batch::changes_of(mutations@),
        ),
{
    let changes = batch::changes_of(mutations@);
    assert forall|i: int| 0 <= i < mutations@.len() implies ((#[trigger] changes[i]).fits() <==> (
    match mutations@[i] {
        Mutation::Put { key, value } => 0 < key@.len() <= u32::MAX && value@.len() <= u32::MAX,
        Mutation::Delete { key } => 0 < key@.len() <= u32::MAX,
    })) by {
        match mutations@[i] {
            Mutation::Put { key, value } => {
                batch::writes_fit_unless_they_cannot_be_counted(key@, value@);
            },
            Mutation::Delete { key } => {
                batch::writes_fit_unless_they_cannot_be_counted(key@, Seq::empty());
            },
        }
    }
    if fits {
        assert forall|i: int| 0 <= i < mutations@.len() implies match #[trigger] mutations@[i] {
            Mutation::Put { key, value } => 0 < key@.len() <= u32::MAX && value@.len() <= u32::MAX,
            Mutation::Delete { key } => 0 < key@.len() <= u32::MAX,
        } by {
            assert(changes[i].fits());
        }
        batch::a_batch_does_what_its_writes_do(store, changes);
    } else if forall|i: int|
        0 <= i < mutations@.len() ==> match #[trigger] mutations@[i] {
            Mutation::Put { key, value } => 0 < key@.len() <= u32::MAX && value@.len() <= u32::MAX,
            Mutation::Delete { key } => 0 < key@.len() <= u32::MAX,
        } {
        assert forall|i: int| 0 <= i < changes.len() implies (#[trigger] changes[i]).fits() by {
            assert(match mutations@[i] {
                Mutation::Put { key, value } => 0 < key@.len() <= u32::MAX && value@.len()
                    <= u32::MAX,
                Mutation::Delete { key } => 0 < key@.len() <= u32::MAX,
            });
        }
    }
}

/// A stored ID reads back, most significant byte first and not the reserved one in one
/// catalog, and least significant byte first in the other.
pub proof fn stored_ids_read_back(
    id: u64,
    big: &[u8],
    little: &[u8],
    name: &str,
    r: Result<u64>,
    s: Result<u64>,
)
    requires
        big@ == ids::stored_id(IdForm::BigEndian, id),
        little@ == ids::stored_id(IdForm::LittleEndian, id),
        call_ensures(database_metadata::decode_file_id, (big, name), r),
        call_ensures(slatefs::decode_file_id, (little, name), s),
    ensures
        id != 0 ==> (r matches Ok(read) && read == id),
        id == 0 ==> (r matches Err(e) && e@.code == ErrorCode::MetadataDecode),
        s matches Ok(read) && read == id,
{
    ids::held_ids_round_trip(IdForm::BigEndian, id, big@);
    ids::held_ids_round_trip(IdForm::LittleEndian, id, little@);
    if r is Ok && id == 0 {
        ids::eight_bytes_hold_an_id(IdForm::BigEndian, big@);
        ids::stored_ids_round_trip(0);
        ids::stored_ids_round_trip(r->Ok_0);
    }
}

} // verus!
