//! What a catalog keeps to, and what its operations do to the store they are
//! committed to.

use vstd::prelude::*;

use crate::batch;
use crate::batch::{Change, Store};
use crate::catalog;
use crate::catalog::{Plan, Reads};
use crate::chunk_manager;
use crate::database_metadata;
use crate::file_contents;
use crate::file_handle;
use crate::file_handle::HandleState;
use crate::file_metadata;
use crate::file_metadata::FileMetadata;
use crate::handle_laws;
use crate::ids;
use crate::ids::IdForm;
use crate::keys;

verus! {

/// Whether a key is part of the data of a file: its metadata record, or anything
/// under its chunk prefix.
pub open spec fn is_data_of(key: Seq<u8>, id: u64) -> bool {
    key == keys::metadata_key_bytes(id) || keys::starts_with(key, keys::chunk_prefix_bytes(id))
}

/// The next free file ID of a store.
pub open spec fn next_id(form: IdForm, store: Store) -> u64 {
    let key = keys::next_file_id_key_bytes();
    if store.contains_key(key) {
        ids::id_held(form, store[key])->0
    } else {
        1
    }
}

/// The file that a path names.
pub open spec fn file_at(form: IdForm, store: Store, path: Seq<char>) -> u64 {
    ids::id_held(form, store[keys::path_key_bytes(path)])->0
}

/// Whether a path names a file with a record.
pub open spec fn path_ok(form: IdForm, store: Store, path: Seq<char>) -> bool {
    &&& ids::id_held(form, store[keys::path_key_bytes(path)]) is Some
    &&& file_at(form, store, path) < next_id(form, store)
    &&& store.contains_key(keys::metadata_key_bytes(file_at(form, store, path)))
}

/// What a catalog keeps to: the counter holds an ID, every path names a file that
/// has a record, no two paths name one file, and no ID from the counter on is in
/// use.
pub open spec fn catalog_ok(form: IdForm, store: Store) -> bool {
    &&& store.contains_key(keys::next_file_id_key_bytes()) ==> ids::id_held(
        form,
        store[keys::next_file_id_key_bytes()],
    ) is Some
    &&& forall|path: Seq<char>| #[trigger]
        store.contains_key(keys::path_key_bytes(path)) ==> path_ok(form, store, path)
    &&& forall|a: Seq<char>, b: Seq<char>|
        #![trigger store.contains_key(keys::path_key_bytes(a)), store.contains_key(
            keys::path_key_bytes(b),
        )]
        store.contains_key(keys::path_key_bytes(a)) && store.contains_key(keys::path_key_bytes(b))
            && file_at(form, store, a) == file_at(form, store, b) ==> a == b
    &&& forall|key: Seq<u8>, id: u64|
        store.contains_key(key) && #[trigger] is_data_of(key, id) ==> id < next_id(form, store)
}

/// Whether `after` is `store` without `path` and the data of the file `id`.
pub open spec fn file_removed(store: Store, after: Store, path: Seq<char>, id: u64) -> bool {
    let path_key = keys::path_key_bytes(path);
    &&& forall|key: Seq<u8>| #[trigger]
        after.contains_key(key) <==> store.contains_key(key) && key != path_key && !is_data_of(
            key,
            id,
        )
    &&& forall|key: Seq<u8>| #[trigger] after.contains_key(key) ==> after[key] == store[key]
}

/// Whether `after` is `store` with `target` naming the file that `source` named,
/// `source` naming none, and the data of a file that `target` named gone.
pub open spec fn file_moved(
    form: IdForm,
    store: Store,
    after: Store,
    source: Seq<char>,
    target: Seq<char>,
) -> bool {
    let source_key = keys::path_key_bytes(source);
    let target_key = keys::path_key_bytes(target);
    let id = file_at(form, store, source);
    let replaced = file_at(form, store, target);
    let replaces = store.contains_key(target_key) && replaced != id;
    &&& after.contains_key(target_key)
    &&& after[target_key] == ids::stored_id(form, id)
    &&& forall|key: Seq<u8>|
        key != target_key ==> (#[trigger] after.contains_key(key) <==> store.contains_key(key)
            && key != source_key && !(replaces && is_data_of(key, replaced)))
    &&& forall|key: Seq<u8>|
        key != target_key && #[trigger] after.contains_key(key) ==> after[key] == store[key]
}

/// `store` with `path` naming the new file `id`, its record in place and the
/// counter past it.
pub open spec fn file_created(
    form: IdForm,
    store: Store,
    path: Seq<char>,
    id: u64,
    metadata: FileMetadata,
) -> Store {
    store.insert(keys::path_key_bytes(path), ids::stored_id(form, id)).insert(
        keys::metadata_key_bytes(id),
        file_metadata::encoded(metadata),
    ).insert(keys::next_file_id_key_bytes(), ids::stored_id(form, (id + 1) as u64))
}

/// A batch in two parts leaves what its second part leaves of its first.
pub proof fn batches_apply_in_parts(store: Store, a: Seq<Change>, b: Seq<Change>)
    ensures
        batch::applied(store, a + b) == batch::applied(batch::applied(store, a), b),
    decreases b.len(),
{
    if b.len() == 0 {
        assert(a + b =~= a);
    } else {
        assert((a + b).drop_last() =~= a + b.drop_last());
        batches_apply_in_parts(store, a, b.drop_last());
    }
}

/// A list of deletions takes away the keys it lists and nothing else.
pub proof fn deletions_delete_what_they_list(store: Store, gone: Seq<Seq<u8>>)
    ensures
        ({
            let after = batch::applied(store, catalog::deletions(gone));
            &&& forall|key: Seq<u8>| #[trigger]
                after.contains_key(key) <==> store.contains_key(key) && !gone.contains(key)
            &&& forall|key: Seq<u8>| #[trigger]
                after.contains_key(key) ==> after[key] == store[key]
        }),
    decreases gone.len(),
{
    let after = batch::applied(store, catalog::deletions(gone));
    if gone.len() > 0 {
        let less = gone.drop_last();
        let last = gone.last();
        deletions_delete_what_they_list(store, less);
        assert(catalog::deletions(gone).drop_last() =~= catalog::deletions(less));
        assert(catalog::deletions(gone).last() == Change::Delete(last));
        let before = batch::applied(store, catalog::deletions(less));
        assert(after == before.remove(last));
        assert forall|key: Seq<u8>| #[trigger] after.contains_key(key) <==> store.contains_key(key)
            && !gone.contains(key) by {
            if less.contains(key) {
                let i = less.index_of(key);
                assert(gone[i] == key);
            }
            assert(gone[gone.len() - 1] == last);
            if gone.contains(key) && key != last {
                let i = gone.index_of(key);
                assert(less[i] == key);
            }
        }
    }
}

/// No metadata key, path key or counter starts like a chunk key.
proof fn lemma_not_a_chunk(id: u64, other: u64, path: Seq<char>)
    ensures
        !keys::starts_with(keys::metadata_key_bytes(other), keys::chunk_prefix_bytes(id)),
        !keys::starts_with(keys::path_key_bytes(path), keys::chunk_prefix_bytes(id)),
        !keys::starts_with(keys::next_file_id_key_bytes(), keys::chunk_prefix_bytes(id)),
{
    let prefix = keys::chunk_prefix_bytes(id);
    keys::key_families_are_disjoint(id, 0, other, path);
    lemma_starts_alike(keys::metadata_key_bytes(other), prefix);
    lemma_starts_alike(keys::path_key_bytes(path), prefix);
    lemma_starts_alike(keys::next_file_id_key_bytes(), prefix);
}

proof fn lemma_starts_alike(key: Seq<u8>, prefix: Seq<u8>)
    requires
        prefix.len() > 0,
    ensures
        keys::starts_with(key, prefix) ==> key[0] == prefix[0],
{
    if keys::starts_with(key, prefix) {
        assert(key.subrange(0, prefix.len() as int)[0] == key[0]);
    }
}

/// A list of keys that holds a file's record and every key a scan of its chunks
/// found holds the file's data.
pub proof fn scanned_keys_are_the_data(
    store: Store,
    id: u64,
    chunks: Seq<Seq<u8>>,
    gone: Seq<Seq<u8>>,
)
    requires
        forall|key: Seq<u8>| #[trigger]
            chunks.contains(key) <==> store.contains_key(key) && keys::starts_with(
                key,
                keys::chunk_prefix_bytes(id),
            ),
        gone == seq![keys::metadata_key_bytes(id)] + chunks || gone == chunks.push(
            keys::metadata_key_bytes(id),
        ),
    ensures
        forall|key: Seq<u8>|
            store.contains_key(key) ==> #[trigger] gone.contains(key) == is_data_of(key, id),
{
    let record = keys::metadata_key_bytes(id);
    let first = gone == seq![record] + chunks;
    assert forall|key: Seq<u8>| store.contains_key(key) implies #[trigger] gone.contains(key)
        == is_data_of(key, id) by {
        if gone.contains(key) && key != record {
            let i = gone.index_of(key);
            if first {
                assert(chunks[i - 1] == key);
            } else {
                assert(chunks[i] == key);
            }
            assert(chunks.contains(key));
        }
        if key == record {
            if first {
                assert(gone[0] == key);
            } else {
                assert(gone[gone.len() - 1] == key);
            }
        }
        if chunks.contains(key) {
            let i = chunks.index_of(key);
            if first {
                assert(gone[i + 1] == key);
            } else {
                assert(gone[i] == key);
            }
        }
    }
}

/// An empty store is a catalog with nothing in it.
pub proof fn empty_catalog_is_ok(form: IdForm)
    ensures
        catalog_ok(form, Map::empty()),
        next_id(form, Map::empty()) == 1,
{
}

/// Removing a path and its file keeps the catalog in order, and hands no ID out
/// again.
pub proof fn removing_keeps_the_catalog(
    form: IdForm,
    store: Store,
    after: Store,
    path: Seq<char>,
)
    requires
        catalog_ok(form, store),
        store.contains_key(keys::path_key_bytes(path)),
        file_removed(store, after, path, file_at(form, store, path)),
    ensures
        catalog_ok(form, after),
        next_id(form, after) == next_id(form, store),
        !after.contains_key(keys::path_key_bytes(path)),
{
    let path_key = keys::path_key_bytes(path);
    let id = file_at(form, store, path);
    let next_key = keys::next_file_id_key_bytes();
    assert(!is_data_of(next_key, id) && next_key != path_key) by {
        keys::metadata_keys_are_distinct(id, id);
        lemma_not_a_chunk(id, id, path);
        keys::key_families_are_disjoint(id, 0, id, path);
    }
    assert forall|other: Seq<char>| #[trigger] after.contains_key(
        keys::path_key_bytes(other),
    ) implies path_ok(form, after, other) by {
        let other_key = keys::path_key_bytes(other);
        assert(store.contains_key(other_key));
        let other_id = file_at(form, store, other);
        let record = keys::metadata_key_bytes(other_id);
        assert(other_id != id);
        keys::metadata_keys_are_distinct(other_id, id);
        keys::key_families_are_disjoint(id, 0, other_id, path);
        lemma_not_a_chunk(id, other_id, path);
        assert(store.contains_key(record));
        assert(after.contains_key(record));
    }
    assert forall|a: Seq<char>, b: Seq<char>|
        #![trigger after.contains_key(keys::path_key_bytes(a)), after.contains_key(
            keys::path_key_bytes(b),
        )]
        after.contains_key(keys::path_key_bytes(a)) && after.contains_key(keys::path_key_bytes(b))
            && file_at(form, after, a) == file_at(form, after, b) implies a == b by {
        assert(store.contains_key(keys::path_key_bytes(a)));
        assert(store.contains_key(keys::path_key_bytes(b)));
    }
}

/// Moving a path keeps the catalog in order: the destination names the file that
/// the source named, and the source names nothing.
pub proof fn moving_keeps_the_catalog(
    form: IdForm,
    store: Store,
    after: Store,
    source: Seq<char>,
    target: Seq<char>,
)
    requires
        catalog_ok(form, store),
        source != target,
        store.contains_key(keys::path_key_bytes(source)),
        file_moved(form, store, after, source, target),
    ensures
        catalog_ok(form, after),
        next_id(form, after) == next_id(form, store),
        !after.contains_key(keys::path_key_bytes(source)),
        after.contains_key(keys::path_key_bytes(target)),
        file_at(form, after, target) == file_at(form, store, source),
{
    let source_key = keys::path_key_bytes(source);
    let target_key = keys::path_key_bytes(target);
    let id = file_at(form, store, source);
    let replaced = file_at(form, store, target);
    let replaces = store.contains_key(target_key) && replaced != id;
    let next_key = keys::next_file_id_key_bytes();
    keys::path_key_round_trips(source, target);
    assert(path_ok(form, store, source));
    ids::held_ids_round_trip(form, id, store[source_key]);
    assert(ids::id_held(form, after[target_key]) == Some(id));
    assert(next_key != target_key && next_key != source_key && !is_data_of(next_key, replaced)) by {
        keys::metadata_keys_are_distinct(replaced, replaced);
        lemma_not_a_chunk(replaced, replaced, source);
        keys::key_families_are_disjoint(id, 0, id, source);
        keys::key_families_are_disjoint(id, 0, id, target);
    }
    assert(next_id(form, after) == next_id(form, store));
    assert forall|other: Seq<char>| #[trigger] after.contains_key(
        keys::path_key_bytes(other),
    ) implies path_ok(form, after, other) by {
        let other_key = keys::path_key_bytes(other);
        keys::path_key_round_trips(other, target);
        keys::path_key_round_trips(other, source);
        let other_id = if other == target {
            id
        } else {
            file_at(form, store, other)
        };
        if other != target {
            assert(store.contains_key(other_key));
        }
        let record = keys::metadata_key_bytes(other_id);
        assert(store.contains_key(record));
        keys::metadata_keys_are_distinct(other_id, replaced);
        keys::key_families_are_disjoint(id, 0, other_id, source);
        keys::key_families_are_disjoint(id, 0, other_id, target);
        lemma_not_a_chunk(replaced, other_id, source);
        if replaces {
            assert(other_id != replaced);
        }
        assert(after.contains_key(record));
    }
    assert forall|a: Seq<char>, b: Seq<char>|
        #![trigger after.contains_key(keys::path_key_bytes(a)), after.contains_key(
            keys::path_key_bytes(b),
        )]
        after.contains_key(keys::path_key_bytes(a)) && after.contains_key(keys::path_key_bytes(b))
            && file_at(form, after, a) == file_at(form, after, b) implies a == b by {
        keys::path_key_round_trips(a, target);
        keys::path_key_round_trips(b, target);
        keys::path_key_round_trips(a, source);
        keys::path_key_round_trips(b, source);
        assert(store.contains_key(source_key));
        if a != target {
            assert(store.contains_key(keys::path_key_bytes(a)));
        }
        if b != target {
            assert(store.contains_key(keys::path_key_bytes(b)));
        }
    }
    assert forall|key: Seq<u8>, other_id: u64|
        after.contains_key(key) && #[trigger] is_data_of(key, other_id) implies other_id < next_id(
        form,
        after,
    ) by {
        lemma_not_a_chunk(other_id, other_id, target);
        keys::key_families_are_disjoint(id, 0, other_id, target);
        assert(key != target_key);
        assert(store.contains_key(key));
    }
}

/// A file that is created under the counter's ID has an ID that nothing used, so
/// it inherits no stale chunks, and the catalog stays in order.
pub proof fn creating_keeps_the_catalog(
    form: IdForm,
    store: Store,
    path: Seq<char>,
    metadata: FileMetadata,
)
    requires
        catalog_ok(form, store),
        !store.contains_key(keys::path_key_bytes(path)),
        next_id(form, store) < u64::MAX,
    ensures
        ({
            let id = next_id(form, store);
            let after = file_created(form, store, path, id, metadata);
            &&& forall|key: Seq<u8>| #[trigger] is_data_of(key, id) ==> !store.contains_key(key)
            &&& forall|other: Seq<char>| #[trigger]
                store.contains_key(keys::path_key_bytes(other)) ==> file_at(form, store, other)
                    != id
            &&& after.contains_key(keys::path_key_bytes(path))
            &&& file_at(form, after, path) == id
            &&& file_metadata::decoded(after[keys::metadata_key_bytes(id)]) == Some(metadata)
            &&& file_contents::file_chunks(after, id) == Map::<u64, Seq<u8>>::empty()
            &&& catalog_ok(form, after)
            &&& next_id(form, after) == id + 1
        }),
{
    let id = next_id(form, store);
    let after = file_created(form, store, path, id, metadata);
    let next_key = keys::next_file_id_key_bytes();
    let path_key = keys::path_key_bytes(path);
    let record_key = keys::metadata_key_bytes(id);
    let bumped = (id + 1) as u64;
    assert forall|other: Seq<char>| #[trigger]
        store.contains_key(keys::path_key_bytes(other)) implies file_at(form, store, other)
        != id by {
        assert(path_ok(form, store, other));
    }
    ids::held_ids_round_trip(form, id, store[next_key]);
    ids::held_ids_round_trip(form, bumped, store[next_key]);
    keys::metadata_keys_are_distinct(id, id);
    keys::key_families_are_disjoint(id, 0, id, path);
    file_metadata::metadata_round_trips(metadata);
    assert(after[next_key] == ids::stored_id(form, bumped));
    assert(after[record_key] == file_metadata::encoded(metadata));
    assert(after[path_key] == ids::stored_id(form, id));
    assert(next_id(form, after) == bumped);
    assert(file_contents::file_chunks(after, id) =~= Map::<u64, Seq<u8>>::empty()) by {
        assert forall|idx: u64| !after.contains_key(keys::chunk_key_bytes(id, idx)) by {
            keys::key_families_are_disjoint(id, idx, id, path);
            keys::chunk_prefix_matches_only_its_own_file(id, id, idx);
            assert(is_data_of(keys::chunk_key_bytes(id, idx), id));
        }
    }
    assert forall|other: Seq<char>| #[trigger] after.contains_key(
        keys::path_key_bytes(other),
    ) implies path_ok(form, after, other) by {
        let other_key = keys::path_key_bytes(other);
        keys::path_key_round_trips(other, path);
        keys::key_families_are_disjoint(id, 0, id, other);
        if other != path {
            assert(store.contains_key(other_key));
            let other_id = file_at(form, store, other);
            keys::metadata_keys_are_distinct(other_id, id);
            keys::key_families_are_disjoint(id, 0, other_id, path);
            assert(after[other_key] == store[other_key]);
        }
    }
    assert forall|a: Seq<char>, b: Seq<char>|
        #![trigger after.contains_key(keys::path_key_bytes(a)), after.contains_key(
            keys::path_key_bytes(b),
        )]
        after.contains_key(keys::path_key_bytes(a)) && after.contains_key(keys::path_key_bytes(b))
            && file_at(form, after, a) == file_at(form, after, b) implies a == b by {
        keys::path_key_round_trips(a, path);
        keys::path_key_round_trips(b, path);
        keys::key_families_are_disjoint(id, 0, id, a);
        keys::key_families_are_disjoint(id, 0, id, b);
        if a != path {
            assert(store.contains_key(keys::path_key_bytes(a)));
        }
        if b != path {
            assert(store.contains_key(keys::path_key_bytes(b)));
        }
    }
    assert forall|key: Seq<u8>, other_id: u64|
        after.contains_key(key) && #[trigger] is_data_of(key, other_id) implies other_id < next_id(
        form,
        after,
    ) by {
        lemma_not_a_chunk(other_id, id, path);
        keys::key_families_are_disjoint(id, 0, other_id, path);
        keys::metadata_keys_are_distinct(other_id, id);
        if key != record_key {
            assert(store.contains_key(key));
        }
    }
}

/// Changing nothing but the data of a file that a path names keeps the catalog
/// in order, as long as the file keeps a record.
pub proof fn rewriting_data_keeps_the_catalog(form: IdForm, store: Store, after: Store, id: u64)
    requires
        catalog_ok(form, store),
        id < next_id(form, store),
        after.contains_key(keys::metadata_key_bytes(id)),
        forall|key: Seq<u8>|
            !is_data_of(key, id) ==> (#[trigger] after.contains_key(key) <==> store.contains_key(
                key,
            )),
        forall|key: Seq<u8>|
            !is_data_of(key, id) && #[trigger] after.contains_key(key) ==> after[key]
                == store[key],
    ensures
        catalog_ok(form, after),
        next_id(form, after) == next_id(form, store),
{
    let next_key = keys::next_file_id_key_bytes();
    assert(!is_data_of(next_key, id)) by {
        keys::metadata_keys_are_distinct(id, id);
        lemma_not_a_chunk(id, id, Seq::empty());
    }
    assert(next_id(form, after) == next_id(form, store));
    assert forall|path: Seq<char>| !is_data_of(#[trigger] keys::path_key_bytes(path), id) by {
        lemma_not_a_chunk(id, id, path);
        keys::key_families_are_disjoint(id, 0, id, path);
    }
    assert forall|path: Seq<char>| #[trigger] after.contains_key(
        keys::path_key_bytes(path),
    ) implies path_ok(form, after, path) by {
        assert(store.contains_key(keys::path_key_bytes(path)));
        let other_id = file_at(form, store, path);
        let record = keys::metadata_key_bytes(other_id);
        keys::metadata_keys_are_distinct(other_id, id);
        lemma_not_a_chunk(id, other_id, path);
        assert(store.contains_key(record));
        assert(after.contains_key(record));
    }
    assert forall|a: Seq<char>, b: Seq<char>|
        #![trigger after.contains_key(keys::path_key_bytes(a)), after.contains_key(
            keys::path_key_bytes(b),
        )]
        after.contains_key(keys::path_key_bytes(a)) && after.contains_key(keys::path_key_bytes(b))
            && file_at(form, after, a) == file_at(form, after, b) implies a == b by {
        assert(store.contains_key(keys::path_key_bytes(a)));
        assert(store.contains_key(keys::path_key_bytes(b)));
    }
    assert forall|key: Seq<u8>, other_id: u64|
        after.contains_key(key) && #[trigger] is_data_of(key, other_id) implies other_id < next_id(
        form,
        after,
    ) by {
        if is_data_of(key, id) {
            lemma_data_of_one_file(key, id, other_id);
        } else {
            assert(store.contains_key(key));
        }
    }
}

/// A key is part of the data of at most one file.
proof fn lemma_data_of_one_file(key: Seq<u8>, a: u64, b: u64)
    requires
        is_data_of(key, a),
        is_data_of(key, b),
    ensures
        a == b,
{
    keys::metadata_keys_are_distinct(a, b);
    lemma_not_a_chunk(a, b, Seq::empty());
    lemma_not_a_chunk(b, a, Seq::empty());
    if keys::starts_with(key, keys::chunk_prefix_bytes(a)) {
        keys::a_key_has_one_chunk_prefix(key, a, b);
    }
}

/// Syncing a handle on a file that a path names keeps the catalog in order.
pub proof fn syncing_keeps_the_catalog(
    form: IdForm,
    store: Store,
    state: HandleState,
    order: Seq<u64>,
)
    requires
        catalog_ok(form, store),
        state.wf(),
        state.file_id < next_id(form, store),
        chunk_manager::lists_pending(order, state.chunks.pending),
    ensures
        catalog_ok(form, batch::applied(store, file_handle::sync_changes(state, order))),
{
    let after = batch::applied(store, file_handle::sync_changes(state, order));
    handle_laws::synced_file_reopens(store, state, order, state.client, state.flags, 0);
    assert forall|key: Seq<u8>| !is_data_of(key, state.file_id) implies (
    #[trigger] after.contains_key(key) <==> store.contains_key(key)) && (after.contains_key(key)
        ==> after[key] == store[key]) by {
        handle_laws::sync_touches_only_its_file(store, state, order, key);
    }
    rewriting_data_keeps_the_catalog(form, store, after, state.file_id);
}

/// An operation of [`database_metadata`] asks for nothing twice, so answering its
/// questions brings it to an end.
pub proof fn nothing_is_asked_twice(
    path: Seq<char>,
    target: Seq<char>,
    create: bool,
    truncate_existing: bool,
    reads: Reads,
    now: u64,
)
    ensures
        catalog::asks_for_news(database_metadata::exists_plan(path, reads), reads),
        catalog::asks_for_news(database_metadata::remove_plan(path, reads), reads),
        catalog::asks_for_news(database_metadata::move_plan(path, target, reads), reads),
        catalog::asks_for_news(
            database_metadata::get_or_create_plan(path, create, truncate_existing, reads, now),
            reads,
        ),
{
}

/// Opening a path through [`database_metadata`] finds the file that the path
/// names with the record that was stored for it, and writes nothing.
pub proof fn opening_finds_the_stored_file(
    store: Store,
    reads: Reads,
    path: Seq<char>,
    create: bool,
    now: u64,
)
    requires
        reads.come_from(store),
        store.contains_key(keys::path_key_bytes(path)),
        database_metadata::get_or_create_plan(path, create, false, reads, now) is Done,
    ensures
        ({
            let resolved = database_metadata::get_or_create_plan(
                path,
                create,
                false,
                reads,
                now,
            )->Done_0;
            let id = file_at(IdForm::BigEndian, store, path);
            let record_key = keys::metadata_key_bytes(id);
            &&& resolved.file_id == id
            &&& store.contains_key(record_key)
            &&& file_metadata::decoded(store[record_key]) == Some(resolved.metadata)
            &&& resolved.changes == Seq::<Change>::empty()
        }),
{
    let path_key = keys::path_key_bytes(path);
    let id = file_at(IdForm::BigEndian, store, path);
    assert(reads.get_answer(path_key) is Some);
    assert(reads.get_answer(path_key)->0 == Some(store[path_key]));
    assert(reads.get_answer(keys::metadata_key_bytes(id)) is Some);
}

/// Whether a path exists is whether it is mapped.
pub proof fn existence_follows_the_path_mapping(store: Store, reads: Reads, path: Seq<char>)
    requires
        reads.come_from(store),
    ensures
        database_metadata::exists_plan(path, reads) matches Plan::Done(exists) ==> exists
            == store.contains_key(keys::path_key_bytes(path)),
{
    let key = keys::path_key_bytes(path);
    assert(reads.get_answer(key) is Some ==> (reads.get_answer(key)->0 is Some
        <==> store.contains_key(key)));
}

/// Removing a path through [`database_metadata`] leaves none of its file behind,
/// and touches nothing else.
pub proof fn removing_leaves_nothing_behind(store: Store, reads: Reads, path: Seq<char>)
    requires
        reads.come_from(store),
        database_metadata::remove_plan(path, reads) is Done,
    ensures
        store.contains_key(keys::path_key_bytes(path)),
        ids::id_held(IdForm::BigEndian, store[keys::path_key_bytes(path)]) is Some,
        file_removed(
            store,
            batch::applied(store, database_metadata::remove_plan(path, reads)->Done_0),
            path,
            file_at(IdForm::BigEndian, store, path),
        ),
{
    let path_key = keys::path_key_bytes(path);
    let id = file_at(IdForm::BigEndian, store, path);
    let prefix = keys::chunk_prefix_bytes(id);
    assert(reads.get_answer(path_key) is Some);
    assert(reads.scan_answer(prefix) is Some);
    let chunks = reads.scan_answer(prefix)->0;
    let data = seq![keys::metadata_key_bytes(id)] + chunks;
    let changes = database_metadata::remove_plan(path, reads)->Done_0;
    assert(changes =~= catalog::deletions(seq![path_key]) + catalog::deletions(data));
    batches_apply_in_parts(
        store,
        catalog::deletions(seq![path_key]),
        catalog::deletions(data),
    );
    deletions_delete_what_they_list(store, seq![path_key]);
    let without = batch::applied(store, catalog::deletions(seq![path_key]));
    deletions_delete_what_they_list(without, data);
    scanned_keys_are_the_data(store, id, chunks, data);
    assert forall|key: Seq<u8>| #[trigger] seq![path_key].contains(key) <==> key == path_key by {
        assert(seq![path_key][0] == path_key);
    }
}

/// Moving a path through [`database_metadata`] rebinds the destination to the
/// same file without touching the file's data, unbinds the source, and frees the
/// data of a file that it replaced.
pub proof fn moving_rebinds_without_moving_data(
    store: Store,
    reads: Reads,
    source: Seq<char>,
    target: Seq<char>,
)
    requires
        reads.come_from(store),
        source != target,
        database_metadata::move_plan(source, target, reads) is Done,
    ensures
        store.contains_key(keys::path_key_bytes(source)),
        ids::id_held(IdForm::BigEndian, store[keys::path_key_bytes(source)]) is Some,
        file_moved(
            IdForm::BigEndian,
            store,
            batch::applied(store, database_metadata::move_plan(source, target, reads)->Done_0),
            source,
            target,
        ),
{
    let source_key = keys::path_key_bytes(source);
    let target_key = keys::path_key_bytes(target);
    let id = file_at(IdForm::BigEndian, store, source);
    let replaced = file_at(IdForm::BigEndian, store, target);
    let replaces = store.contains_key(target_key) && replaced != id;
    let changes = database_metadata::move_plan(source, target, reads)->Done_0;
    let moved = database_metadata::rebinding(source, target, id);
    assert(reads.get_answer(source_key) is Some);
    assert(reads.get_answer(target_key) is Some);
    let prefix = keys::chunk_prefix_bytes(replaced);
    let chunks = reads.scan_answer(prefix)->0;
    let gone = if replaces {
        seq![keys::metadata_key_bytes(replaced)] + chunks
    } else {
        Seq::empty()
    };
    assert(changes =~= catalog::deletions(gone) + moved);
    batches_apply_in_parts(store, catalog::deletions(gone), moved);
    deletions_delete_what_they_list(store, gone);
    let freed = batch::applied(store, catalog::deletions(gone));
    reveal_with_fuel(batch::applied, 3);
    assert(moved.drop_last().drop_last() =~= Seq::empty());
    assert(batch::applied(freed, moved) == freed.remove(source_key).insert(
        target_key,
        ids::be_id(id),
    ));
    keys::path_key_round_trips(source, target);
    if replaces {
        assert(reads.scan_answer(prefix) is Some);
        scanned_keys_are_the_data(store, replaced, chunks, gone);
    }
}

/// Creating a path through [`database_metadata`] takes the counter's ID, and
/// writes only the mapping, the record and the counter.
pub proof fn creating_takes_the_next_id(store: Store, reads: Reads, path: Seq<char>, now: u64)
    requires
        reads.come_from(store),
        database_metadata::create_plan(path, reads, now) is Done,
    ensures
        ({
            let resolved = database_metadata::create_plan(path, reads, now)->Done_0;
            &&& resolved.file_id == next_id(IdForm::BigEndian, store)
            &&& resolved.file_id < u64::MAX
            &&& resolved.metadata == file_metadata::fresh(now)
            &&& batch::applied(store, resolved.changes) == file_created(
                IdForm::BigEndian,
                store,
                path,
                resolved.file_id,
                resolved.metadata,
            )
        }),
{
    let resolved = database_metadata::create_plan(path, reads, now)->Done_0;
    let next_key = keys::next_file_id_key_bytes();
    assert(reads.get_answer(next_key) is Some);
    reveal_with_fuel(batch::applied, 4);
    assert(resolved.changes.drop_last().drop_last().drop_last() =~= Seq::empty());
}

/// Opening a file to empty it leaves none of its chunks and a fresh record, and
/// touches nothing else.
pub proof fn emptying_leaves_no_chunks(store: Store, reads: Reads, id: u64, now: u64)
    requires
        reads.come_from(store),
        database_metadata::open_plan(id, true, reads, now) is Done,
    ensures
        ({
            let resolved = database_metadata::open_plan(id, true, reads, now)->Done_0;
            let after = batch::applied(store, resolved.changes);
            let record_key = keys::metadata_key_bytes(id);
            &&& resolved.metadata == file_metadata::fresh(now)
            &&& after.contains_key(record_key)
            &&& file_metadata::decoded(after[record_key]) == Some(file_metadata::fresh(now))
            &&& forall|key: Seq<u8>|
                key != record_key ==> (#[trigger] after.contains_key(key) <==> store.contains_key(
                    key,
                ) && !keys::starts_with(key, keys::chunk_prefix_bytes(id)))
            &&& forall|key: Seq<u8>|
                key != record_key && #[trigger] after.contains_key(key) ==> after[key]
                    == store[key]
        }),
{
    let resolved = database_metadata::open_plan(id, true, reads, now)->Done_0;
    let record_key = keys::metadata_key_bytes(id);
    let prefix = keys::chunk_prefix_bytes(id);
    assert(reads.get_answer(record_key) is Some);
    assert(reads.scan_answer(prefix) is Some);
    let chunks = reads.scan_answer(prefix)->0;
    let record = file_metadata::encoded(file_metadata::fresh(now));
    assert(resolved.changes.drop_last() =~= catalog::deletions(chunks));
    deletions_delete_what_they_list(store, chunks);
    file_metadata::metadata_round_trips(file_metadata::fresh(now));
    let freed = batch::applied(store, catalog::deletions(chunks));
    assert(batch::applied(store, resolved.changes) == freed.insert(record_key, record));
}

} // verus!
