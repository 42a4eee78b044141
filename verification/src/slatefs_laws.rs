//! What the operations of SlateFS do to the store they are committed to.

use vstd::prelude::*;

use crate::batch;
use crate::batch::{Mutation, Store};
use crate::catalog;
use crate::catalog::{Plan, Reads, Step};
use crate::catalog_laws::{file_at, file_created, file_moved, file_removed, next_id};
use crate::chunk_manager;
use crate::chunk_manager::Stored;
use crate::database_metadata;
use crate::database_metadata::ResolvedFile;
use crate::error::{ErrorCode, Result};
use crate::file_contents;
use crate::file_handle::{FileHandle, SlateFileClient, SlateFileHandle};
use crate::file_metadata;
use crate::file_metadata::FileMetadata;
use crate::flags::FileOpenFlags;
use crate::ids;
use crate::ids::IdForm;
use crate::keys;
use crate::slatefs;
use crate::util;

verus! {

/// Whether `r` is what opening a path gives for these answers.
pub open spec fn opens(
    path: Seq<char>,
    flags: FileOpenFlags,
    reads: Reads,
    r: Result<Step<ResolvedFile>>,
) -> bool {
    database_metadata::follows_resolution(
        r,
        slatefs::resolve_plan(path, flags, reads, database_metadata::resolved_at(r)),
    )
}

/// Opening a path that is mapped finds the stored file: its ID and its record are the
/// stored ones, and nothing is written, whatever the flags say.
pub proof fn opening_finds_the_stored_file(
    store: Store,
    reads: Reads,
    path: Seq<char>,
    flags: FileOpenFlags,
    r: Result<Step<ResolvedFile>>,
)
    requires
        reads.come_from(store),
        store.contains_key(keys::path_key_bytes(path)),
        opens(path, flags, reads, r),
        r matches Ok(Step::Done(_)),
    ensures
        r matches Ok(Step::Done(file)) && {
            let record_key = keys::metadata_key_bytes(file.file_id);
            &&& ids::id_held(IdForm::LittleEndian, store[keys::path_key_bytes(path)]) == Some(
                file.file_id,
            )
            &&& store.contains_key(record_key)
            &&& file_metadata::decoded(store[record_key]) == Some(file.metadata)
            &&& file.batch@.len() == 0
        },
{
    let now = database_metadata::resolved_at(r);
    slatefs::opening_finds_the_stored_file(store, reads, path, flags, now);
    assert(r->Ok_0->Done_0@.changes.len() == 0);
    assert(reads.get_answer(keys::path_key_bytes(path))->0 == Some(
        store[keys::path_key_bytes(path)],
    ));
}

/// Opening a path that is not mapped creates an empty file where the flags ask for it,
/// or ask for a file to be cleared that may be written: under the next free ID, with its
/// mapping, its record and the counter written and nothing else. Where they do not, the
/// file is not found.
pub proof fn opening_creates_only_where_allowed(
    store: Store,
    reads: Reads,
    path: Seq<char>,
    flags: FileOpenFlags,
    r: Result<Step<ResolvedFile>>,
)
    requires
        reads.come_from(store),
        !store.contains_key(keys::path_key_bytes(path)),
        opens(path, flags, reads, r),
    ensures
        r matches Ok(Step::Done(file)) ==> {
            &&& flags.create || (flags.truncate_existing && flags.write)
            &&& file.file_id == next_id(IdForm::LittleEndian, store)
            &&& file.metadata.size == 0
            &&& util::is_clock_time(file.metadata.modified_at_ms)
            &&& batch::applied(store, batch::changes_of(file.batch@)) == file_created(
                IdForm::LittleEndian,
                store,
                path,
                file.file_id,
                file.metadata,
            )
        },
        path.len() > 0 && !flags.create && !(flags.truncate_existing && flags.write)
            && reads.get_answer(keys::path_key_bytes(path)) is Some ==> (r matches Err(e)
            && e@.code == ErrorCode::FileNotFound),
{
    let now = database_metadata::resolved_at(r);
    let path_key = keys::path_key_bytes(path);
    assert(reads.get_answer(path_key) is Some ==> reads.get_answer(path_key)->0 is None);
    if r matches Ok(Step::Done(_)) {
        slatefs::creating_takes_the_next_id(store, reads, path, now);
        let resolved = slatefs::create_plan(path, reads, now)->Done_0;
        assert(r->Ok_0->Done_0@ == resolved);
        assert(resolved.changes.len() > 0);
    }
}

/// Opening a path is done once its questions are answered. A mapped path needs its
/// mapping and its record; one that is to be created needs its mapping and the counter.
/// An empty path is refused.
pub proof fn opening_is_done_once_it_is_answered(
    store: Store,
    reads: Reads,
    path: Seq<char>,
    flags: FileOpenFlags,
    r: Result<Step<ResolvedFile>>,
)
    requires
        reads.come_from(store),
        reads.get_answer(keys::path_key_bytes(path)) is Some,
        opens(path, flags, reads, r),
    ensures
        path.len() == 0 ==> (r matches Err(e) && e@.code == ErrorCode::InvalidArgument),
        ({
            let mapping = store[keys::path_key_bytes(path)];
            let record_key = keys::metadata_key_bytes(file_at(IdForm::LittleEndian, store, path));
            &&& path.len() > 0
            &&& store.contains_key(keys::path_key_bytes(path))
            &&& ids::id_held(IdForm::LittleEndian, mapping) is Some
            &&& store.contains_key(record_key)
            &&& file_metadata::decoded(store[record_key]) is Some
            &&& reads.get_answer(record_key) is Some
        }) ==> r matches Ok(Step::Done(_)),
        ({
            let counter_key = keys::next_file_id_key_bytes();
            &&& path.len() > 0
            &&& !store.contains_key(keys::path_key_bytes(path))
            &&& flags.create || (flags.truncate_existing && flags.write)
            &&& reads.get_answer(counter_key) is Some
            &&& store.contains_key(counter_key) ==> ids::id_held(
                IdForm::LittleEndian,
                store[counter_key],
            ) is Some
            &&& next_id(IdForm::LittleEndian, store) < u64::MAX
        }) ==> r matches Ok(Step::Done(_)),
{
    let path_key = keys::path_key_bytes(path);
    let record_key = keys::metadata_key_bytes(file_at(IdForm::LittleEndian, store, path));
    let counter_key = keys::next_file_id_key_bytes();
    assert(reads.get_answer(path_key) == Some(
        if store.contains_key(path_key) {
            Some(store[path_key])
        } else {
            None
        },
    ));
    assert(reads.get_answer(record_key) is Some && store.contains_key(record_key)
        ==> reads.get_answer(record_key) == Some(Some(store[record_key])));
    assert(reads.get_answer(counter_key) is Some ==> reads.get_answer(counter_key) == Some(
        if store.contains_key(counter_key) {
            Some(store[counter_key])
        } else {
            None
        },
    ));
}

/// A handle that is refused says why: that something is wrong with the flags or the
/// record, or that a key to clear names no chunk, with what is wrong with the key as the
/// cause.
pub proof fn refused_handles_say_why(
    file_id: u64,
    metadata: FileMetadata,
    flags: FileOpenFlags,
    chunk_keys: Seq<Vec<u8>>,
    r: Result<SlateFileHandle>,
)
    requires
        slatefs::handle_outcome(file_id, metadata, flags, chunk_keys, r),
    ensures
        r matches Err(e) ==> e is InvalidArgument || e is MetadataDecode,
        r matches Err(e) ==> (e is MetadataDecode ==> e@.source is Some && flags.truncate_existing
            && metadata.size > 0),
        r matches Err(e) ==> (e is InvalidArgument ==> e@.source is None),
{
}

/// A handle on a file that is to be cleared finds it empty, with every stored chunk
/// staged to go; any other handle finds the recorded file. It opens whenever the access
/// and the record make sense and each stored key names a chunk.
pub proof fn handles_open_on_the_file_or_on_an_empty_one(
    file_id: u64,
    metadata: FileMetadata,
    flags: FileOpenFlags,
    stored: Stored,
    indices: Seq<u64>,
    chunk_keys: Seq<Vec<u8>>,
    r: Result<SlateFileHandle>,
)
    requires
        chunk_keys.len() == indices.len(),
        forall|i: int|
            0 <= i < chunk_keys.len() ==> (#[trigger] chunk_keys[i])@ == keys::chunk_key_bytes(
                file_id,
                indices[i],
            ),
        forall|k: u64| #[trigger] indices.contains(k) <==> stored.contains_key(k),
        slatefs::handle_outcome(file_id, metadata, flags, chunk_keys, r),
    ensures
        r is Ok <==> {
            &&& flags.read || flags.write
            &&& flags.create || flags.append ==> flags.write
            &&& flags.truncate_existing ==> flags.create || flags.write
            &&& 0 < metadata.chunk_size <= usize::MAX
            &&& metadata.chunk_base_offset < metadata.chunk_size
        },
        r matches Ok(handle) ==> {
            let state = handle.state();
            &&& state.wf()
            &&& state.file_id == file_id
            &&& state.client == SlateFileClient::ReadWrite
            &&& state.flags.read == flags.read && state.flags.write == flags.write
                && state.flags.append == flags.append
            &&& !flags.truncate_existing ==> state.size == metadata.size && !state.changed()
            &&& flags.truncate_existing ==> state.size == 0
            &&& flags.truncate_existing && metadata.size > 0 ==> state.changed() && forall|
                pos: nat,
            |
                pos <= u64::MAX ==> #[trigger] state.byte(stored, pos) == 0
        },
{
    file_contents::stored_keys_name_their_chunks(file_id, indices, chunk_keys, 0);
    if r is Ok && flags.truncate_existing && metadata.size > 0 {
        let state = r->Ok_0.state();
        let dropped = chunk_manager::indices_from(chunk_keys, 0);
        assert forall|pos: nat| pos <= u64::MAX implies #[trigger] state.byte(stored, pos)
            == 0 by {
            file_contents::truncate_cuts_the_file(
                metadata.chunk_size as nat,
                Map::empty(),
                stored,
                dropped,
                0,
                state.chunks.at(pos),
            );
        }
    }
}

/// A path exists exactly if it is mapped.
pub proof fn existence_is_the_path_mapping(store: Store, reads: Reads, path: Seq<char>)
    requires
        reads.come_from(store),
    ensures
        path.len() == 0 ==> slatefs::exists_plan(path, reads) is Fail,
        path.len() > 0 && reads.get_answer(keys::path_key_bytes(path)) is Some
            ==> slatefs::exists_plan(path, reads) == Plan::Done(
            store.contains_key(keys::path_key_bytes(path)),
        ),
{
    let key = keys::path_key_bytes(path);
    assert(reads.get_answer(key) is Some ==> (reads.get_answer(key)->0 is Some
        <==> store.contains_key(key)));
}

/// Removing a path leaves nothing of its file behind and touches nothing else. It is
/// done once the mapping and the keys of the chunks are known, and a path that is not
/// mapped is not found.
pub proof fn removing_takes_the_file_and_nothing_else(
    store: Store,
    reads: Reads,
    path: Seq<char>,
    r: Result<Step<Vec<Mutation>>>,
)
    requires
        reads.come_from(store),
        catalog::follows_batch(r, slatefs::remove_plan(path, reads)),
    ensures
        r matches Ok(Step::Done(batch)) ==> store.contains_key(keys::path_key_bytes(path))
            && file_removed(
            store,
            batch::applied(store, batch::changes_of(batch@)),
            path,
            file_at(IdForm::LittleEndian, store, path),
        ),
        path.len() > 0 && reads.get_answer(keys::path_key_bytes(path)) is Some ==> {
            let mapped = store.contains_key(keys::path_key_bytes(path));
            let mapping = store[keys::path_key_bytes(path)];
            let id = file_at(IdForm::LittleEndian, store, path);
            &&& !mapped ==> (r matches Err(e) && e@.code == ErrorCode::FileNotFound)
            &&& mapped && ids::id_held(IdForm::LittleEndian, mapping) is Some && reads.scan_answer(
                keys::chunk_prefix_bytes(id),
            ) is Some ==> r matches Ok(Step::Done(_))
        },
{
    let key = keys::path_key_bytes(path);
    assert(reads.get_answer(key) is Some ==> reads.get_answer(key) == Some(
        if store.contains_key(key) {
            Some(store[key])
        } else {
            None
        },
    ));
    if r matches Ok(Step::Done(_)) {
        slatefs::removing_leaves_nothing_behind(store, reads, path);
    }
}

/// Moving a path binds the destination to the same file without touching the file's
/// data, unbinds the source, and frees a file that the destination named. Moving a path
/// to itself changes nothing. It is done once the mappings, and the keys of the chunks
/// that go, are known, and a source that is not mapped is not found.
pub proof fn moving_rebinds_the_path_and_nothing_else(
    store: Store,
    reads: Reads,
    src: Seq<char>,
    dst: Seq<char>,
    r: Result<Step<Vec<Mutation>>>,
)
    requires
        reads.come_from(store),
        catalog::follows_batch(r, slatefs::move_plan(src, dst, reads)),
    ensures
        r matches Ok(Step::Done(batch)) ==> if src == dst {
            batch@.len() == 0
        } else {
            store.contains_key(keys::path_key_bytes(src)) && file_moved(
                IdForm::LittleEndian,
                store,
                batch::applied(store, batch::changes_of(batch@)),
                src,
                dst,
            )
        },
        src.len() > 0 && src == dst ==> r matches Ok(Step::Done(_)),
        src.len() > 0 && dst.len() > 0 && src != dst && reads.get_answer(
            keys::path_key_bytes(src),
        ) is Some && reads.get_answer(keys::path_key_bytes(dst)) is Some ==> {
            let src_key = keys::path_key_bytes(src);
            let dst_key = keys::path_key_bytes(dst);
            let id = file_at(IdForm::LittleEndian, store, src);
            let replaced = file_at(IdForm::LittleEndian, store, dst);
            &&& !store.contains_key(src_key) ==> (r matches Err(e) && e@.code
                == ErrorCode::FileNotFound)
            &&& store.contains_key(src_key) && ids::id_held(
                IdForm::LittleEndian,
                store[src_key],
            ) is Some && (store.contains_key(dst_key) ==> ids::id_held(
                IdForm::LittleEndian,
                store[dst_key],
            ) is Some && (replaced == id || reads.scan_answer(keys::chunk_prefix_bytes(replaced))
                is Some)) ==> r matches Ok(Step::Done(_))
        },
{
    let src_key = keys::path_key_bytes(src);
    let dst_key = keys::path_key_bytes(dst);
    assert(reads.get_answer(src_key) is Some ==> reads.get_answer(src_key) == Some(
        if store.contains_key(src_key) {
            Some(store[src_key])
        } else {
            None
        },
    ));
    assert(reads.get_answer(dst_key) is Some ==> reads.get_answer(dst_key) == Some(
        if store.contains_key(dst_key) {
            Some(store[dst_key])
        } else {
            None
        },
    ));
    if r matches Ok(Step::Done(_)) {
        if src != dst {
            slatefs::moving_rebinds_without_moving_data(store, reads, src, dst);
        } else {
            let batch = r->Ok_0->Done_0;
            assert(batch::changes_of(batch@).len() == 0);
        }
    }
}

} // verus!
