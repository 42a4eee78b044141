//! What the filesystem's operations do to the store they are committed to.

use vstd::prelude::*;

use crate::batch;
use crate::batch::{Mutation, Store};
use crate::catalog;
use crate::catalog::{Plan, Reads, Step};
use crate::catalog_laws;
use crate::catalog_laws::{file_at, file_created, file_moved, file_removed, next_id};
use crate::database_metadata;
use crate::database_metadata::ResolvedFile;
use crate::error::{ErrorCode, Result};
use crate::file_metadata;
use crate::flags::FileOpenFlags;
use crate::fs;
use crate::fs::SlateDbClient;
use crate::ids;
use crate::ids::IdForm;
use crate::keys;
use crate::util;

verus! {

/// Whether a combination of flags makes sense.
pub open spec fn sensible(flags: FileOpenFlags) -> bool {
    &&& flags.read || flags.write
    &&& flags.create || flags.append ==> flags.write
    &&& flags.truncate_existing ==> flags.create
}

/// Whether `r` is what opening a path through `client` gives for these answers.
pub open spec fn opens(
    client: Option<SlateDbClient>,
    path: Seq<char>,
    flags: FileOpenFlags,
    reads: Reads,
    r: Result<Step<ResolvedFile>>,
) -> bool {
    database_metadata::follows_resolution(
        r,
        fs::open_file_plan(client, path, flags, reads, database_metadata::resolved_at(r)),
    )
}

/// Opening a path that is mapped finds the stored file unless it is to be emptied: its
/// ID and its record are the stored ones, and nothing is written, whatever the flags
/// say of creating and appending.
pub proof fn opening_finds_the_stored_file(
    client: Option<SlateDbClient>,
    store: Store,
    reads: Reads,
    path: Seq<char>,
    flags: FileOpenFlags,
    r: Result<Step<ResolvedFile>>,
)
    requires
        reads.come_from(store),
        store.contains_key(keys::path_key_bytes(path)),
        !flags.truncate_existing,
        opens(client, path, flags, reads, r),
        r matches Ok(Step::Done(_)),
    ensures
        r matches Ok(Step::Done(file)) && {
            let record_key = keys::metadata_key_bytes(file.file_id);
            &&& ids::id_held(IdForm::BigEndian, store[keys::path_key_bytes(path)]) == Some(
                file.file_id,
            )
            &&& store.contains_key(record_key)
            &&& file_metadata::decoded(store[record_key]) == Some(file.metadata)
            &&& file.batch@.len() == 0
        },
{
    let now = database_metadata::resolved_at(r);
    let create = match client {
        Some(SlateDbClient::ReadWrite) => flags.create,
        _ => false,
    };
    catalog_laws::opening_finds_the_stored_file(store, reads, path, create, now);
    assert(r->Ok_0->Done_0@.changes.len() == 0);
    assert(reads.get_answer(keys::path_key_bytes(path))->0 == Some(
        store[keys::path_key_bytes(path)],
    ));
}

/// Opening a path that is mapped to be emptied keeps the file's ID, leaves it no bytes
/// and none of its chunks, and touches nothing else. What was opened is what is then
/// stored.
pub proof fn opening_to_empty_leaves_an_empty_file(
    client: Option<SlateDbClient>,
    store: Store,
    reads: Reads,
    path: Seq<char>,
    flags: FileOpenFlags,
    r: Result<Step<ResolvedFile>>,
)
    requires
        reads.come_from(store),
        store.contains_key(keys::path_key_bytes(path)),
        flags.truncate_existing,
        opens(client, path, flags, reads, r),
        r matches Ok(Step::Done(_)),
    ensures
        client == Some(SlateDbClient::ReadWrite),
        r matches Ok(Step::Done(file)) && {
            let record_key = keys::metadata_key_bytes(file.file_id);
            let prefix = keys::chunk_prefix_bytes(file.file_id);
            let after = batch::applied(store, batch::changes_of(file.batch@));
            &&& file.file_id == file_at(IdForm::BigEndian, store, path)
            &&& file.metadata.size == 0
            &&& util::is_clock_time(file.metadata.modified_at_ms)
            &&& after.contains_key(record_key)
            &&& file_metadata::decoded(after[record_key]) == Some(file.metadata)
            &&& forall|key: Seq<u8>|
                keys::starts_with(key, prefix) && key != record_key
                    ==> !#[trigger] after.contains_key(key)
            &&& forall|key: Seq<u8>|
                !keys::starts_with(key, prefix) && key != record_key ==> (
                #[trigger] after.contains_key(key) <==> store.contains_key(key)) && (
                store.contains_key(key) ==> after[key] == store[key])
        },
{
    let now = database_metadata::resolved_at(r);
    let path_key = keys::path_key_bytes(path);
    let id = file_at(IdForm::BigEndian, store, path);
    assert(reads.get_answer(path_key) is Some);
    assert(reads.get_answer(path_key)->0 == Some(store[path_key]));
    catalog_laws::emptying_leaves_no_chunks(store, reads, id, now);
    let resolved = database_metadata::open_plan(id, true, reads, now)->Done_0;
    assert(r->Ok_0->Done_0@ == resolved);
    assert(resolved.changes.len() > 0);
}

/// Opening a path that is not mapped creates an empty file where the flags allow it:
/// under the next free ID, with its mapping, its record and the counter written and
/// nothing else. Where they do not, the file is not found.
pub proof fn opening_creates_only_where_allowed(
    client: Option<SlateDbClient>,
    store: Store,
    reads: Reads,
    path: Seq<char>,
    flags: FileOpenFlags,
    r: Result<Step<ResolvedFile>>,
)
    requires
        reads.come_from(store),
        !store.contains_key(keys::path_key_bytes(path)),
        opens(client, path, flags, reads, r),
    ensures
        r matches Ok(Step::Done(file)) ==> {
            &&& flags.create
            &&& client == Some(SlateDbClient::ReadWrite)
            &&& file.file_id == next_id(IdForm::BigEndian, store)
            &&& file.metadata.size == 0
            &&& util::is_clock_time(file.metadata.modified_at_ms)
            &&& batch::applied(store, batch::changes_of(file.batch@)) == file_created(
                IdForm::BigEndian,
                store,
                path,
                file.file_id,
                file.metadata,
            )
        },
        sensible(flags) && path.len() > 0 && !flags.create && reads.get_answer(
            keys::path_key_bytes(path),
        ) is Some && client is Some && (client == Some(SlateDbClient::ReadWrite) || !flags.write)
            ==> (r matches Err(e) && e@.code == ErrorCode::FileNotFound),
{
    let now = database_metadata::resolved_at(r);
    let path_key = keys::path_key_bytes(path);
    assert(reads.get_answer(path_key) is Some ==> reads.get_answer(path_key)->0 is None);
    if r matches Ok(Step::Done(_)) {
        catalog_laws::creating_takes_the_next_id(store, reads, path, now);
        let resolved = database_metadata::create_plan(path, reads, now)->Done_0;
        assert(r->Ok_0->Done_0@ == resolved);
        assert(resolved.changes.len() > 0);
    }
}

/// Opening a path is done once its questions are answered. A mapped path needs its
/// mapping and its record, and to be emptied the keys of its chunks; one that is to be
/// created needs its mapping and the counter.
pub proof fn opening_is_done_once_it_is_answered(
    client: Option<SlateDbClient>,
    store: Store,
    reads: Reads,
    path: Seq<char>,
    flags: FileOpenFlags,
    r: Result<Step<ResolvedFile>>,
)
    requires
        reads.come_from(store),
        path.len() > 0,
        sensible(flags),
        client == Some(SlateDbClient::ReadWrite) || (client == Some(
            SlateDbClient::ReadOnly { found: true },
        ) && !flags.write),
        reads.get_answer(keys::path_key_bytes(path)) is Some,
        opens(client, path, flags, reads, r),
    ensures
        ({
            let mapping = store[keys::path_key_bytes(path)];
            let id = file_at(IdForm::BigEndian, store, path);
            let record_key = keys::metadata_key_bytes(id);
            &&& store.contains_key(keys::path_key_bytes(path))
            &&& ids::id_held(IdForm::BigEndian, mapping) is Some
            &&& store.contains_key(record_key)
            &&& file_metadata::decoded(store[record_key]) is Some
            &&& reads.get_answer(record_key) is Some
            &&& flags.truncate_existing ==> reads.scan_answer(keys::chunk_prefix_bytes(id)) is Some
        }) ==> r matches Ok(Step::Done(_)),
        ({
            let counter_key = keys::next_file_id_key_bytes();
            &&& !store.contains_key(keys::path_key_bytes(path))
            &&& flags.create
            &&& reads.get_answer(counter_key) is Some
            &&& store.contains_key(counter_key) ==> ids::id_held(
                IdForm::BigEndian,
                store[counter_key],
            ) is Some
            &&& next_id(IdForm::BigEndian, store) < u64::MAX
        }) ==> r matches Ok(Step::Done(_)),
{
    let path_key = keys::path_key_bytes(path);
    let id = file_at(IdForm::BigEndian, store, path);
    let record_key = keys::metadata_key_bytes(id);
    let counter_key = keys::next_file_id_key_bytes();
    assert(reads.get_answer(path_key) == Some(
        if store.contains_key(path_key) {
            Some(store[path_key])
        } else {
            None
        },
    ));
    assert(reads.get_answer(record_key) is Some && store.contains_key(record_key)
        ==> reads.get_answer(record_key) == Some(Some(store[record_key])));
    assert(reads.get_answer(counter_key) is Some ==> reads.get_answer(counter_key) == Some(
        if store.contains_key(counter_key) {
            Some(store[counter_key])
        } else {
            None
        },
    ));
}

/// An open is refused before anything is read exactly if the flags make no sense, the
/// filesystem is closed, the path is empty, or a read-only filesystem is asked for more
/// than reading or has no database. A read-only filesystem writes nothing.
pub proof fn opens_that_cannot_be_are_refused_at_once(
    client: Option<SlateDbClient>,
    reads: Reads,
    path: Seq<char>,
    flags: FileOpenFlags,
    r: Result<Step<ResolvedFile>>,
)
    requires
        opens(client, path, flags, reads, r),
    ensures
        !sensible(flags) ==> (r matches Err(e) && e@.code == ErrorCode::InvalidArgument),
        client is None ==> (r matches Err(e) && e@.code == ErrorCode::InvalidArgument),
        client != Some(SlateDbClient::ReadWrite) && client is Some && sensible(flags) && flags.write
            ==> (r matches Err(e) && e@.code == ErrorCode::ReadOnlyViolation),
        client == Some(SlateDbClient::ReadOnly { found: false }) && sensible(flags) && !flags.write
            ==> (r matches Err(e) && e@.code == ErrorCode::FileNotFound),
        path.len() == 0 ==> r is Err,
        client != Some(SlateDbClient::ReadWrite) ==> (r matches Ok(Step::Done(file)) ==>
            file.batch@.len() == 0),
        sensible(flags) && path.len() > 0 && reads.get_answer(keys::path_key_bytes(path)) is None
            && (client == Some(SlateDbClient::ReadWrite) || (client == Some(
            SlateDbClient::ReadOnly { found: true },
        ) && !flags.write)) ==> (r matches Ok(Step::Read(request)) && request@
            == catalog::Wanted::Get(keys::path_key_bytes(path))),
{
    if client != Some(SlateDbClient::ReadWrite) && r matches Ok(Step::Done(_)) {
        assert(r->Ok_0->Done_0@.changes.len() == 0);
    }
}

/// No operation of the filesystem asks for what has been answered, so answering its
/// questions brings it to an end.
pub proof fn nothing_is_asked_twice(
    client: Option<SlateDbClient>,
    path: Seq<char>,
    target: Seq<char>,
    flags: FileOpenFlags,
    operation: Seq<char>,
    reads: Reads,
    now: u64,
)
    ensures
        catalog::asks_for_news(fs::open_file_plan(client, path, flags, reads, now), reads),
        catalog::asks_for_news(fs::exists_plan(client, path, reads), reads),
        catalog::asks_for_news(
            fs::change_plan(client, operation, database_metadata::remove_plan(path, reads)),
            reads,
        ),
        catalog::asks_for_news(
            fs::change_plan(client, operation, database_metadata::move_plan(path, target, reads)),
            reads,
        ),
{
}

/// A path exists exactly if it is mapped. Where there is no database, none exists.
pub proof fn existence_is_the_path_mapping(
    client: Option<SlateDbClient>,
    store: Store,
    reads: Reads,
    path: Seq<char>,
)
    requires
        reads.come_from(store),
    ensures
        ({
            let plan = fs::exists_plan(client, path, reads);
            &&& client is None ==> plan is Fail
            &&& client == Some(SlateDbClient::ReadOnly { found: false }) ==> plan == Plan::Done(
                false,
            )
            &&& client is Some && client != Some(SlateDbClient::ReadOnly { found: false })
                && path.len() > 0 && reads.get_answer(keys::path_key_bytes(path)) is Some ==> plan
                == Plan::Done(store.contains_key(keys::path_key_bytes(path)))
            &&& client is Some && client != Some(SlateDbClient::ReadOnly { found: false })
                && path.len() == 0 ==> plan is Fail
        }),
{
    let key = keys::path_key_bytes(path);
    assert(reads.get_answer(key) is Some ==> (reads.get_answer(key)->0 is Some
        <==> store.contains_key(key)));
}

/// Removing a path leaves nothing of its file behind and touches nothing else. It is
/// done once the mapping and the keys of the chunks are known; a path that is not mapped
/// is not found; and only a filesystem that can be written removes anything.
pub proof fn removing_takes_the_file_and_nothing_else(
    client: Option<SlateDbClient>,
    store: Store,
    reads: Reads,
    path: Seq<char>,
    operation: Seq<char>,
    r: Result<Step<Vec<Mutation>>>,
)
    requires
        reads.come_from(store),
        catalog::follows_batch(
            r,
            fs::change_plan(client, operation, database_metadata::remove_plan(path, reads)),
        ),
    ensures
        client != Some(SlateDbClient::ReadWrite) ==> r is Err,
        r matches Ok(Step::Done(batch)) ==> {
            let id = file_at(IdForm::BigEndian, store, path);
            &&& store.contains_key(keys::path_key_bytes(path))
            &&& file_removed(
                store,
                batch::applied(store, batch::changes_of(batch@)),
                path,
                id,
            )
        },
        client == Some(SlateDbClient::ReadWrite) && path.len() > 0 && reads.get_answer(
            keys::path_key_bytes(path),
        ) is Some ==> {
            let mapped = store.contains_key(keys::path_key_bytes(path));
            let mapping = store[keys::path_key_bytes(path)];
            let id = file_at(IdForm::BigEndian, store, path);
            &&& !mapped ==> (r matches Err(e) && e@.code == ErrorCode::FileNotFound)
            &&& mapped && ids::id_held(IdForm::BigEndian, mapping) is Some && reads.scan_answer(
                keys::chunk_prefix_bytes(id),
            ) is Some ==> r matches Ok(Step::Done(_))
        },
{
    let key = keys::path_key_bytes(path);
    assert(reads.get_answer(key) is Some ==> reads.get_answer(key) == Some(
        if store.contains_key(key) {
            Some(store[key])
        } else {
            None
        },
    ));
    if r matches Ok(Step::Done(_)) {
        catalog_laws::removing_leaves_nothing_behind(store, reads, path);
    }
}

/// Moving a path binds the destination to the same file without touching the file's
/// data, unbinds the source, and frees a file that the destination named. Moving a path
/// to itself changes nothing. It is done once the mappings, and the keys of the chunks
/// that go, are known; a source that is not mapped is not found; and only a filesystem
/// that can be written moves anything.
pub proof fn moving_rebinds_the_path_and_nothing_else(
    client: Option<SlateDbClient>,
    store: Store,
    reads: Reads,
    source: Seq<char>,
    target: Seq<char>,
    operation: Seq<char>,
    r: Result<Step<Vec<Mutation>>>,
)
    requires
        reads.come_from(store),
        catalog::follows_batch(
            r,
            fs::change_plan(
                client,
                operation,
                database_metadata::move_plan(source, target, reads),
            ),
        ),
    ensures
        client != Some(SlateDbClient::ReadWrite) ==> r is Err,
        r matches Ok(Step::Done(batch)) ==> if source == target {
            batch@.len() == 0
        } else {
            store.contains_key(keys::path_key_bytes(source)) && file_moved(
                IdForm::BigEndian,
                store,
                batch::applied(store, batch::changes_of(batch@)),
                source,
                target,
            )
        },
        client == Some(SlateDbClient::ReadWrite) && source.len() > 0 && source == target
            ==> r matches Ok(Step::Done(_)),
        client == Some(SlateDbClient::ReadWrite) && source.len() > 0 && target.len() > 0 && source
            != target && reads.get_answer(keys::path_key_bytes(source)) is Some
            && reads.get_answer(keys::path_key_bytes(target)) is Some ==> {
            let source_key = keys::path_key_bytes(source);
            let target_key = keys::path_key_bytes(target);
            let id = file_at(IdForm::BigEndian, store, source);
            let replaced = file_at(IdForm::BigEndian, store, target);
            &&& !store.contains_key(source_key) ==> (r matches Err(e) && e@.code
                == ErrorCode::FileNotFound)
            &&& store.contains_key(source_key) && ids::id_held(
                IdForm::BigEndian,
                store[source_key],
            ) is Some && (store.contains_key(target_key) ==> ids::id_held(
                IdForm::BigEndian,
                store[target_key],
            ) is Some && (replaced == id || reads.scan_answer(keys::chunk_prefix_bytes(replaced))
                is Some)) ==> r matches Ok(Step::Done(_))
        },
{
    let source_key = keys::path_key_bytes(source);
    let target_key = keys::path_key_bytes(target);
    assert(reads.get_answer(source_key) is Some ==> reads.get_answer(source_key) == Some(
        if store.contains_key(source_key) {
            Some(store[source_key])
        } else {
            None
        },
    ));
    assert(reads.get_answer(target_key) is Some ==> reads.get_answer(target_key) == Some(
        if store.contains_key(target_key) {
            Some(store[target_key])
        } else {
            None
        },
    ));
    if r matches Ok(Step::Done(_)) {
        if source != target {
            catalog_laws::moving_rebinds_without_moving_data(store, reads, source, target);
        } else {
            let batch = r->Ok_0->Done_0;
            assert(batch::changes_of(batch@).len() == 0);
        }
    }
}

/// What was created is found: opening the path again after the creation is committed
/// finds the same file with the same record, and writes nothing.
pub proof fn a_created_file_is_found_again(
    client: Option<SlateDbClient>,
    later: Option<SlateDbClient>,
    store: Store,
    reads: Reads,
    reads_later: Reads,
    path: Seq<char>,
    flags: FileOpenFlags,
    flags_later: FileOpenFlags,
    r: Result<Step<ResolvedFile>>,
    r_later: Result<Step<ResolvedFile>>,
)
    requires
        catalog_laws::catalog_ok(IdForm::BigEndian, store),
        reads.come_from(store),
        !store.contains_key(keys::path_key_bytes(path)),
        opens(client, path, flags, reads, r),
        r matches Ok(Step::Done(_)),
        reads_later.come_from(
            batch::applied(store, batch::changes_of(r->Ok_0->Done_0.batch@)),
        ),
        !flags_later.truncate_existing,
        opens(later, path, flags_later, reads_later, r_later),
        r_later matches Ok(Step::Done(_)),
    ensures
        r_later->Ok_0->Done_0.file_id == r->Ok_0->Done_0.file_id,
        r_later->Ok_0->Done_0.metadata == r->Ok_0->Done_0.metadata,
        r_later->Ok_0->Done_0.batch@.len() == 0,
{
    let file = r->Ok_0->Done_0;
    opening_creates_only_where_allowed(client, store, reads, path, flags, r);
    let now = database_metadata::resolved_at(r);
    catalog_laws::creating_takes_the_next_id(store, reads, path, now);
    catalog_laws::creating_keeps_the_catalog(IdForm::BigEndian, store, path, file.metadata);
    let after = batch::applied(store, batch::changes_of(file.batch@));
    opening_finds_the_stored_file(later, after, reads_later, path, flags_later, r_later);
}

} // verus!
