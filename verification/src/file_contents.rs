//! What chunk operations mean for the bytes of a file.
//!
//! Positions are counted from the start of the first chunk, where a file need not
//! start.

use vstd::arithmetic::div_mod::*;
use vstd::arithmetic::mul::*;
use vstd::prelude::*;

use crate::batch;
use crate::batch::Store;
use crate::chunk_manager;
use crate::chunk_manager::{Pair, Pending, Stored};
use crate::chunks;
use crate::index_map;
use crate::keys;

verus! {

/// The stored chunks of a file.
pub open spec fn file_chunks(store: Store, file_id: u64) -> Stored {
    Map::new(
        |idx: u64| store.contains_key(keys::chunk_key_bytes(file_id, idx)),
        |idx: u64| store[keys::chunk_key_bytes(file_id, idx)],
    )
}

proof fn lemma_index_fits(cs: nat, pos: nat)
    requires
        0 < cs,
        pos < u64::MAX + cs,
    ensures
        pos / cs <= u64::MAX,
        (pos / cs) * cs <= pos < (pos / cs + 1) * cs,
        pos % cs == pos - (pos / cs) * cs,
{
    lemma_fundamental_div_mod(pos as int, cs as int);
    lemma_mod_bound(pos as int, cs as int);
    lemma_mul_is_commutative(cs as int, (pos / cs) as int);
    assert((pos / cs + 1) * cs == (pos / cs) * cs + cs) by (nonlinear_arith);
    let idx = pos / cs;
    if idx > u64::MAX {
        assert(idx * cs >= u64::MAX + cs) by (nonlinear_arith)
            requires
                idx >= u64::MAX + 1,
                0 < cs,
        ;
    }
}

/// A position lies in a span exactly if its chunk is one of the span's and it
/// lies in the part of that chunk that the span covers.
proof fn lemma_in_span(cs: nat, len: nat, offset: nat, pos: nat)
    requires
        0 < cs,
        pos < u64::MAX + cs,
    ensures
        ({
            let idx = pos / cs;
            let first = chunks::first_chunk(cs, offset);
            let end = chunks::end_chunk(cs, len, offset);
            &&& offset <= pos < offset + len ==> first <= idx < end
            &&& first <= idx < end ==> (offset <= pos < offset + len <==> chunks::part_start(
                cs,
                offset,
                idx,
            ) <= pos < chunks::part_end(cs, len, offset, idx))
        }),
{
    let idx = pos / cs;
    lemma_index_fits(cs, pos);
    if offset <= pos < offset + len {
        lemma_div_is_ordered(offset as int, pos as int, cs as int);
        lemma_div_is_ordered(pos as int, offset + len - 1, cs as int);
    }
    if chunks::first_chunk(cs, offset) <= idx < chunks::end_chunk(cs, len, offset) {
        chunks::lemma_slice_at(cs, len, offset, idx);
    }
}

/// Writing `data` at `offset` puts its bytes there and changes no other byte of
/// the file.
pub proof fn write_changes_only_its_bytes(
    chunk_size: nat,
    pending: Pending,
    stored: Stored,
    data: Seq<u8>,
    offset: nat,
    pos: nat,
)
    requires
        0 < chunk_size,
        offset + data.len() <= u64::MAX + chunk_size,
        pos < u64::MAX + chunk_size,
    ensures
        chunk_manager::byte_at(
            chunk_size,
            chunk_manager::staged(
                chunk_size,
                pending,
                stored,
                data,
                offset,
                chunks::end_chunk(chunk_size, data.len(), offset),
            ),
            stored,
            pos,
        ) == if offset <= pos < offset + data.len() {
            data[pos - offset]
        } else {
            chunk_manager::byte_at(chunk_size, pending, stored, pos)
        },
{
    let idx = pos / chunk_size;
    let first = chunks::first_chunk(chunk_size, offset);
    let end = chunks::end_chunk(chunk_size, data.len(), offset);
    lemma_index_fits(chunk_size, pos);
    lemma_in_span(chunk_size, data.len(), offset, pos);
    if first <= idx < end {
        chunks::lemma_slice_at(chunk_size, data.len(), offset, idx);
    }
}

/// A write that stopped for a stored chunk and was called again with it ends as
/// if the chunk had been there from the start.
pub proof fn interrupted_write_resumes(
    chunk_size: nat,
    pending: Pending,
    known: Stored,
    known_later: Stored,
    data: Seq<u8>,
    offset: nat,
    stop: nat,
)
    requires
        0 < chunk_size,
        offset + data.len() <= u64::MAX + chunk_size,
        chunks::first_chunk(chunk_size, offset) <= stop <= chunks::end_chunk(
            chunk_size,
            data.len(),
            offset,
        ),
        forall|k: nat|
            chunks::first_chunk(chunk_size, offset) <= k < stop ==> !(
            #[trigger] chunk_manager::needs_stored(
                chunk_size,
                pending,
                known,
                data.len(),
                offset,
                k,
            )),
        forall|k: u64| #[trigger]
            known.contains_key(k) ==> known_later.contains_key(k) && known_later[k] == known[k],
    ensures
        ({
            let end = chunks::end_chunk(chunk_size, data.len(), offset);
            let first_try = chunk_manager::staged(chunk_size, pending, known, data, offset, stop);
            chunk_manager::staged(chunk_size, first_try, known_later, data, offset, end)
                == chunk_manager::staged(chunk_size, pending, known_later, data, offset, end)
        }),
{
    let first = chunks::first_chunk(chunk_size, offset);
    let end = chunks::end_chunk(chunk_size, data.len(), offset);
    let first_try = chunk_manager::staged(chunk_size, pending, known, data, offset, stop);
    let resumed = chunk_manager::staged(chunk_size, first_try, known_later, data, offset, end);
    let at_once = chunk_manager::staged(chunk_size, pending, known_later, data, offset, end);
    assert forall|k: u64| resumed.contains_key(k) implies resumed[k] == at_once[k] by {
        if first <= k < end {
            let idx = k as nat;
            let a = chunk_manager::written_chunk(
                chunk_size,
                first_try,
                known_later,
                data,
                offset,
                idx,
            );
            let b = chunk_manager::written_chunk(
                chunk_size,
                pending,
                known_later,
                data,
                offset,
                idx,
            );
            if k < stop {
                assert(!chunk_manager::needs_stored(
                    chunk_size,
                    pending,
                    known,
                    data.len(),
                    offset,
                    idx,
                ));
                chunks::lemma_slice_at(chunk_size, data.len(), offset, idx);
                assert(a =~= b);
            }
        }
    }
    assert(resumed =~= at_once);
}

proof fn lemma_missing(pending: Pending, first: nat, end: nat, idx: nat)
    requires
        first <= idx < end,
        end <= u64::MAX + 1,
        !pending.contains_key(idx as u64),
    ensures
        chunk_manager::missing_indices(pending, first, end).contains(idx as u64),
    decreases end,
{
    let all = chunk_manager::missing_indices(pending, first, end);
    let before = chunk_manager::missing_indices(pending, first, (end - 1) as nat);
    if idx == end - 1 {
        assert(all.last() == idx as u64);
    } else {
        lemma_missing(pending, first, (end - 1) as nat, idx);
        let i = before.index_of(idx as u64);
        assert(all[i] == idx as u64);
    }
}

/// The chunks of a range with no staged change are listed, each once and in order, and
/// no other.
pub proof fn missing_chunks_are_listed(pending: Pending, first: nat, end: nat, k: u64)
    requires
        end <= u64::MAX + 1 || end <= first,
    ensures
        chunk_manager::missing_indices(pending, first, end).contains(k) <==> first <= k < end
            && !pending.contains_key(k),
        index_map::ascending(chunk_manager::missing_indices(pending, first, end)),
    decreases end,
{
    if first < end {
        let before = chunk_manager::missing_indices(pending, first, (end - 1) as nat);
        let all = chunk_manager::missing_indices(pending, first, end);
        let last = (end - 1) as u64;
        missing_chunks_are_listed(pending, first, (end - 1) as nat, k);
        if before.contains(k) {
            let i = before.index_of(k);
            assert(all[i] == k);
        }
        if !pending.contains_key(last) {
            assert(all[before.len() as int] == last);
            assert forall|i: int, j: int| 0 <= i < j < all.len() implies all[i] < all[j] by {
                if j == before.len() {
                    missing_chunks_are_listed(pending, first, (end - 1) as nat, before[i]);
                    assert(before.contains(before[i]));
                } else {
                    assert(all[i] == before[i] && all[j] == before[j]);
                }
            }
            if all.contains(k) && k != last {
                let i = all.index_of(k);
                assert(before[i] == k);
            }
        }
    }
}

/// Keys that each name a chunk are all accepted.
pub proof fn good_keys_are_not_refused(stored_keys: Seq<Vec<u8>>)
    requires
        forall|i: int|
            0 <= i < stored_keys.len() ==> keys::chunk_index_of((#[trigger] stored_keys[i])@)
                is Some,
    ensures
        chunk_manager::first_bad_key(stored_keys) == stored_keys.len(),
    decreases stored_keys.len(),
{
    if stored_keys.len() > 0 {
        let less = stored_keys.drop_last();
        assert forall|i: int| 0 <= i < less.len() implies keys::chunk_index_of(
            (#[trigger] less[i])@,
        ) is Some by {
            assert(less[i] == stored_keys[i]);
        }
        good_keys_are_not_refused(less);
        assert(stored_keys[stored_keys.len() - 1] == stored_keys.last());
    }
}

/// A read whose requests were answered truthfully sees the file: fetching the
/// chunks with no staged change is enough.
pub proof fn read_sees_the_file(
    chunk_size: nat,
    pending: Pending,
    fetched: Stored,
    stored: Stored,
    len: nat,
    offset: nat,
    pos: nat,
)
    requires
        0 < chunk_size,
        offset + len <= u64::MAX + chunk_size,
        offset <= pos < offset + len,
        forall|k: u64| #[trigger]
            chunk_manager::missing_indices(
                pending,
                chunks::first_chunk(chunk_size, offset),
                chunks::end_chunk(chunk_size, len, offset),
            ).contains(k) ==> {
                &&& fetched.contains_key(k) <==> stored.contains_key(k)
                &&& fetched.contains_key(k) ==> fetched[k] == stored[k]
            },
    ensures
        chunk_manager::byte_at(chunk_size, pending, fetched, pos) == chunk_manager::byte_at(
            chunk_size,
            pending,
            stored,
            pos,
        ),
{
    let idx = pos / chunk_size;
    let first = chunks::first_chunk(chunk_size, offset);
    let end = chunks::end_chunk(chunk_size, len, offset);
    lemma_index_fits(chunk_size, pos);
    lemma_in_span(chunk_size, len, offset, pos);
    lemma_index_fits(chunk_size, (offset + len - 1) as nat);
    if !pending.contains_key(idx as u64) {
        lemma_missing(pending, first, end, idx);
    }
}

/// The pairs of a scan give the chunks their keys name.
pub proof fn scanned_pairs_are_their_chunks(file_id: u64, indices: Seq<u64>, pairs: Seq<Pair>)
    requires
        pairs.len() == indices.len(),
        index_map::ascending(indices),
        forall|i: int|
            0 <= i < pairs.len() ==> (#[trigger] pairs[i]).0@ == keys::chunk_key_bytes(
                file_id,
                indices[i],
            ),
    ensures
        chunk_manager::first_bad_pair(pairs) == pairs.len(),
        ({
            let chunks = chunk_manager::with_pairs(Map::empty(), pairs);
            &&& forall|k: u64| #[trigger] chunks.contains_key(k) <==> indices.contains(k)
            &&& forall|i: int|
                0 <= i < pairs.len() ==> chunks[#[trigger] indices[i]] == pairs[i].1@
        }),
    decreases pairs.len(),
{
    let chunks = chunk_manager::with_pairs(Map::empty(), pairs);
    if pairs.len() > 0 {
        let less = pairs.drop_last();
        let less_indices = indices.drop_last();
        let before = chunk_manager::with_pairs(Map::empty(), less);
        let last = indices.last();
        assert forall|i: int| 0 <= i < less.len() implies (#[trigger] less[i]).0@
            == keys::chunk_key_bytes(file_id, less_indices[i]) by {
            assert(pairs[i].0@ == keys::chunk_key_bytes(file_id, indices[i]));
        }
        scanned_pairs_are_their_chunks(file_id, less_indices, less);
        assert(pairs[pairs.len() - 1].0@ == keys::chunk_key_bytes(file_id, last));
        keys::chunk_index_round_trips(file_id, last);
        assert forall|k: u64| #[trigger] chunks.contains_key(k) <==> indices.contains(k) by {
            assert(indices =~= less_indices.push(last));
            if less_indices.contains(k) {
                let i = less_indices.index_of(k);
                assert(indices[i] == k);
            }
            assert(indices[indices.len() - 1] == last);
            if indices.contains(k) && k != last {
                let i = indices.index_of(k);
                assert(less_indices[i] == k);
            }
        }
        assert forall|i: int| 0 <= i < pairs.len() implies chunks[#[trigger] indices[i]]
            == pairs[i].1@ by {
            if i < pairs.len() - 1 {
                assert(less_indices[i] == indices[i]);
                assert(indices[i] < indices[indices.len() - 1]);
                assert(less_indices.contains(less_indices[i]));
            }
        }
    }
}

/// Keys under a file's prefix read back as the indices they were made from.
pub proof fn stored_keys_name_their_chunks(
    file_id: u64,
    indices: Seq<u64>,
    stored_keys: Seq<Vec<u8>>,
    min: nat,
)
    requires
        stored_keys.len() == indices.len(),
        forall|i: int|
            0 <= i < stored_keys.len() ==> (#[trigger] stored_keys[i])@ == keys::chunk_key_bytes(
                file_id,
                indices[i],
            ),
    ensures
        chunk_manager::first_bad_key(stored_keys) == stored_keys.len(),
        forall|k: u64| #[trigger]
            chunk_manager::indices_from(stored_keys, min).contains(k) <==> indices.contains(k) && k
                >= min,
    decreases stored_keys.len(),
{
    let found = chunk_manager::indices_from(stored_keys, min);
    if stored_keys.len() > 0 {
        let less = stored_keys.drop_last();
        let less_indices = indices.drop_last();
        let before = chunk_manager::indices_from(less, min);
        let last = indices.last();
        assert forall|i: int| 0 <= i < less.len() implies (#[trigger] less[i])@
            == keys::chunk_key_bytes(file_id, less_indices[i]) by {
            assert(stored_keys[i]@ == keys::chunk_key_bytes(file_id, indices[i]));
        }
        stored_keys_name_their_chunks(file_id, less_indices, less, min);
        assert(stored_keys[stored_keys.len() - 1]@ == keys::chunk_key_bytes(file_id, last));
        keys::chunk_index_round_trips(file_id, last);
        assert forall|k: u64| #[trigger] found.contains(k) <==> indices.contains(k) && k >= min by {
            assert(indices =~= less_indices.push(last));
            if less_indices.contains(k) {
                let i = less_indices.index_of(k);
                assert(indices[i] == k);
            }
            assert(indices[indices.len() - 1] == last);
            if indices.contains(k) && k != last {
                let i = indices.index_of(k);
                assert(less_indices[i] == k);
            }
            if before.contains(k) {
                let i = before.index_of(k);
                assert(found[i] == k);
            }
            if last >= min {
                assert(found =~= before.push(last));
                assert(found[before.len() as int] == last);
                if found.contains(k) && k != last {
                    let i = found.index_of(k);
                    assert(before[i] == k);
                }
            }
        }
    }
}

/// Cutting a file at `end` keeps the bytes before that and leaves zeroes after it,
/// where the truncation was told what the store holds.
pub proof fn truncate_cuts_the_file(
    chunk_size: nat,
    pending: Pending,
    stored: Stored,
    dropped: Seq<u64>,
    end: nat,
    pos: nat,
)
    requires
        0 < chunk_size,
        end < u64::MAX + chunk_size,
        pos < u64::MAX + chunk_size,
        forall|k: u64| #[trigger]
            dropped.contains(k) <==> stored.contains_key(k) && k >= chunk_manager::first_dropped(
                chunk_size,
                end,
            ),
    ensures
        ({
            let last = chunk_manager::last_chunk_of(chunk_size, end) as u64;
            let stored_last = if stored.contains_key(last) {
                stored[last]
            } else {
                Seq::empty()
            };
            let after = chunk_manager::truncated(
                chunk_size,
                pending,
                stored_last,
                dropped,
                end,
            );
            chunk_manager::byte_at(chunk_size, after, stored, pos) == if pos < end {
                chunk_manager::byte_at(chunk_size, pending, stored, pos)
            } else {
                0
            }
        }),
{
    let idx = pos / chunk_size;
    lemma_index_fits(chunk_size, pos);
    if end > 0 {
        let last_pos = (end - 1) as nat;
        lemma_index_fits(chunk_size, last_pos);
        let last = last_pos / chunk_size;
        if pos < end {
            lemma_div_is_ordered(pos as int, last_pos as int, chunk_size as int);
        } else {
            lemma_div_is_ordered(last_pos as int, pos as int, chunk_size as int);
        }
        if idx == last {
            assert(pos < end <==> pos % chunk_size < chunk_manager::last_len_of(
                chunk_size,
                end,
            ));
        }
    }
}

/// Writing the staged changes of a file leaves its contents as they were: what
/// was staged is stored, so the file reads the same with nothing staged.
pub proof fn flush_keeps_the_contents(
    store: Store,
    file_id: u64,
    pending: Pending,
    order: Seq<u64>,
    idx: u64,
)
    requires
        chunk_manager::lists_pending(order, pending),
    ensures
        ({
            let after = batch::applied(
                store,
                chunk_manager::pending_changes(file_id, pending, order),
            );
            chunk_manager::chunk_at(Map::empty(), file_chunks(after, file_id), idx)
                == chunk_manager::chunk_at(pending, file_chunks(store, file_id), idx)
        }),
{
    let changes = chunk_manager::pending_changes(file_id, pending, order);
    let key = keys::chunk_key_bytes(file_id, idx);
    if pending.contains_key(idx) {
        assert(order.contains(idx));
        let i = order.index_of(idx);
        assert(changes[i] == chunk_manager::pending_change(file_id, pending, idx));
        assert forall|j: int| i < j < changes.len() implies (#[trigger] changes[j]).key()
            != changes[i].key() by {
            assert(changes[j] == chunk_manager::pending_change(file_id, pending, order[j]));
            keys::chunk_keys_are_distinct(file_id, order[j], file_id, idx);
        }
        batch::last_write_stays(store, changes, i);
    } else {
        assert(!batch::touches(changes, key)) by {
            if batch::touches(changes, key) {
                let j = choose|j: int|
                    0 <= j < changes.len() && (#[trigger] changes[j]).key() == key;
                assert(changes[j] == chunk_manager::pending_change(file_id, pending, order[j]));
                keys::chunk_keys_are_distinct(file_id, order[j], file_id, idx);
                assert(order.contains(order[j]));
            }
        }
        batch::untouched_keys_stay(store, changes, key);
    }
}

/// Writing the staged changes of a file touches no key but those of its chunks.
pub proof fn flush_touches_only_its_file(
    store: Store,
    file_id: u64,
    pending: Pending,
    order: Seq<u64>,
    key: Seq<u8>,
)
    requires
        !keys::starts_with(key, keys::chunk_prefix_bytes(file_id)),
    ensures
        ({
            let after = batch::applied(
                store,
                chunk_manager::pending_changes(file_id, pending, order),
            );
            &&& after.contains_key(key) <==> store.contains_key(key)
            &&& store.contains_key(key) ==> after[key] == store[key]
        }),
{
    let changes = chunk_manager::pending_changes(file_id, pending, order);
    assert(!batch::touches(changes, key)) by {
        if batch::touches(changes, key) {
            let j = choose|j: int| 0 <= j < changes.len() && (#[trigger] changes[j]).key() == key;
            assert(changes[j] == chunk_manager::pending_change(file_id, pending, order[j]));
            keys::chunk_prefix_matches_only_its_own_file(file_id, file_id, order[j]);
        }
    }
    batch::untouched_keys_stay(store, changes, key);
}

} // verus!
