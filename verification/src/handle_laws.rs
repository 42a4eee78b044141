//! What handle operations mean for the file they were opened on.

use vstd::prelude::*;

use crate::batch;
use crate::batch::Store;
use crate::chunk_manager;
use crate::chunk_manager::{ChunkManagerView, Stored};
use crate::chunks;
use crate::error::Result;
use crate::file_contents;
use crate::file_handle;
use crate::file_handle::{HandleState, SlateFileClient, WriteStep};
use crate::file_metadata;
use crate::file_metadata::FileMetadata;
use crate::flags::FileOpenFlags;
use crate::index_map;
use crate::keys;

verus! {

/// Whether every chunk that was fetched is what the store holds: the stored
/// bytes, or nothing where no key is stored.
pub open spec fn fetched_truthfully(known: Stored, stored: Stored) -> bool {
    forall|k: u64| #[trigger]
        known.contains_key(k) ==> known[k] == chunk_manager::chunk_at(Map::empty(), stored, k)
}

/// Each of the blocks that a file is made of from its base offset on fills exactly
/// one chunk, if it has a chunk's size.
pub proof fn blocks_fill_chunks(state: HandleState, block: nat)
    requires
        state.wf(),
    ensures
        ({
            let cs = state.chunks.chunk_size as nat;
            let slices = chunks::slices_of(
                cs,
                cs,
                state.chunks.at(state.chunk_base_offset as nat + block * cs),
            );
            slices.len() == 1 && slices[0].chunk_offset == 0 && slices[0].len == cs
        }),
{
    chunks::a_block_fills_one_chunk(
        state.chunks.chunk_size as nat,
        state.chunk_base_offset as nat,
        block,
    );
}

/// Whether a file holds only zeroes past its end.
pub open spec fn zero_past_end(state: HandleState, stored: Stored) -> bool {
    forall|pos: nat| state.size <= pos <= u64::MAX ==> #[trigger] state.byte(stored, pos) == 0
}

/// A positional write that went through puts its bytes at its offset, changes no
/// other byte, and grows the file to its end where that lies past it.
pub proof fn finished_write_changes_only_its_bytes(
    before: HandleState,
    after: HandleState,
    data: Seq<u8>,
    offset: nat,
    known: Stored,
    stored: Stored,
    pos: nat,
)
    requires
        before.wf(),
        before.flags.write,
        data.len() > 0,
        offset + data.len() <= u64::MAX,
        file_handle::pwrite_outcome(before, after, data, offset, known, Ok(None)),
        fetched_truthfully(known, stored),
        pos <= u64::MAX,
    ensures
        after.byte(stored, pos) == if offset <= pos < offset + data.len() {
            data[pos - offset]
        } else {
            before.byte(stored, pos)
        },
        after.size == if offset + data.len() > before.size {
            offset + data.len()
        } else {
            before.size as nat
        },
{
    let cs = before.chunks.chunk_size as nat;
    let pending = before.chunks.pending;
    let at = before.chunks.at(offset);
    let first = chunks::first_chunk(cs, at);
    let end = chunks::end_chunk(cs, data.len(), at);
    let from_known = chunk_manager::staged(cs, pending, known, data, at, end);
    let from_stored = chunk_manager::staged(cs, pending, stored, data, at, end);
    assert(from_known =~= from_stored) by {
        assert forall|k: u64| first <= k < end implies chunk_manager::written_chunk(
            cs,
            pending,
            known,
            data,
            at,
            k as nat,
        ) == chunk_manager::written_chunk(cs, pending, stored, data, at, k as nat) by {
            assert(!chunk_manager::needs_stored(
                cs,
                pending,
                known,
                data.len(),
                at,
                k as nat,
            ));
        }
    }
    file_contents::write_changes_only_its_bytes(
        cs,
        pending,
        stored,
        data,
        at,
        before.chunks.at(pos),
    );
}

/// A write keeps the rule that a file holds only zeroes past its end, so the gap
/// that a write past the end leaves reads as zeroes.
pub proof fn writes_leave_zeroes_past_the_end(
    before: HandleState,
    after: HandleState,
    data: Seq<u8>,
    offset: nat,
    known: Stored,
    stored: Stored,
)
    requires
        before.wf(),
        before.flags.write,
        data.len() > 0,
        offset + data.len() <= u64::MAX,
        file_handle::pwrite_outcome(before, after, data, offset, known, Ok(None)),
        fetched_truthfully(known, stored),
        zero_past_end(before, stored),
    ensures
        zero_past_end(after, stored),
        forall|pos: nat| before.size <= pos < offset ==> #[trigger] after.byte(stored, pos) == 0,
{
    assert forall|pos: nat| after.size <= pos <= u64::MAX implies #[trigger] after.byte(
        stored,
        pos,
    ) == 0 by {
        finished_write_changes_only_its_bytes(before, after, data, offset, known, stored, pos);
        assert(before.byte(stored, pos) == 0);
    }
    assert forall|pos: nat| before.size <= pos < offset implies #[trigger] after.byte(stored, pos)
        == 0 by {
        finished_write_changes_only_its_bytes(before, after, data, offset, known, stored, pos);
        assert(before.byte(stored, pos) == 0);
    }
}

/// Whether what was fetched for a read of `len` bytes at `offset` is what the
/// store holds of the chunks that were asked for.
pub open spec fn answered_truthfully(
    fetched: Stored,
    stored: Stored,
    state: HandleState,
    len: nat,
    offset: nat,
) -> bool {
    let cs = state.chunks.chunk_size as nat;
    let asked = chunk_manager::missing_indices(
        state.chunks.pending,
        chunks::first_chunk(cs, state.chunks.at(offset)),
        chunks::end_chunk(cs, len, state.chunks.at(offset)),
    );
    forall|k: u64| #[trigger]
        asked.contains(k) ==> {
            &&& fetched.contains_key(k) <==> stored.contains_key(k)
            &&& fetched.contains_key(k) ==> fetched[k] == stored[k]
        }
}

/// A read gives the bytes of the file, up to its end.
pub proof fn reads_see_the_file(
    state: HandleState,
    got: Seq<u8>,
    was: Seq<u8>,
    fetched: Stored,
    stored: Stored,
    len: nat,
    offset: nat,
)
    requires
        state.wf(),
        len <= got.len(),
        file_handle::holds_read(
            got,
            was,
            state,
            fetched,
            state.readable(len, offset),
            offset,
        ),
        answered_truthfully(fetched, stored, state, state.readable(len, offset), offset),
    ensures
        forall|i: int|
            0 <= i < state.readable(len, offset) ==> #[trigger] got[i] == state.byte(
                stored,
                (offset + i) as nat,
            ),
{
    let n = state.readable(len, offset);
    assert forall|i: int| 0 <= i < n implies #[trigger] got[i] == state.byte(
        stored,
        (offset + i) as nat,
    ) by {
        file_contents::read_sees_the_file(
            state.chunks.chunk_size as nat,
            state.chunks.pending,
            fetched,
            stored,
            n,
            state.chunks.at(offset),
            state.chunks.at((offset + i) as nat),
        );
    }
}

/// A read gives back what was written: reading the span of a write that went
/// through gives its bytes, all of them.
pub proof fn reads_give_back_what_was_written(
    before: HandleState,
    after: HandleState,
    data: Seq<u8>,
    offset: nat,
    known: Stored,
    got: Seq<u8>,
    was: Seq<u8>,
    fetched: Stored,
    stored: Stored,
)
    requires
        before.wf(),
        before.flags.write,
        data.len() > 0,
        offset + data.len() <= u64::MAX,
        file_handle::pwrite_outcome(before, after, data, offset, known, Ok(None)),
        fetched_truthfully(known, stored),
        got.len() == data.len(),
        file_handle::holds_read(
            got,
            was,
            after,
            fetched,
            after.readable(data.len(), offset),
            offset,
        ),
        answered_truthfully(fetched, stored, after, after.readable(data.len(), offset), offset),
    ensures
        after.readable(data.len(), offset) == data.len(),
        got == data,
{
    reads_see_the_file(after, got, was, fetched, stored, data.len(), offset);
    assert forall|i: int| 0 <= i < got.len() implies got[i] == data[i] by {
        finished_write_changes_only_its_bytes(
            before,
            after,
            data,
            offset,
            known,
            stored,
            (offset + i) as nat,
        );
    }
    assert(got =~= data);
}

/// A handle whose file was cut from `before` to `new_size` bytes, where the
/// truncation was told what the store holds.
pub open spec fn shrunk(
    before: HandleState,
    stored: Stored,
    dropped: Seq<u64>,
    new_size: u64,
) -> HandleState {
    let cs = before.chunks.chunk_size as nat;
    let end = before.chunks.end_at(new_size as nat);
    let last = chunk_manager::last_chunk_of(cs, end) as u64;
    HandleState {
        size: new_size,
        chunks: ChunkManagerView {
            pending: chunk_manager::truncated(
                cs,
                before.chunks.pending,
                chunk_manager::chunk_at(Map::empty(), stored, last),
                dropped,
                end,
            ),
            ..before.chunks
        },
        ..before
    }
}

/// A truncation keeps the bytes before the new end and leaves only zeroes past
/// it. That holds for shrinking whatever was there, and for growing if there
/// were only zeroes past the old end.
pub proof fn truncation_keeps_what_it_does_not_cut(
    before: HandleState,
    stored: Stored,
    dropped: Seq<u64>,
    new_size: u64,
)
    requires
        before.wf(),
        forall|k: u64| #[trigger]
            dropped.contains(k) <==> stored.contains_key(k) && k >= chunk_manager::first_dropped(
                before.chunks.chunk_size as nat,
                before.chunks.end_at(new_size as nat),
            ),
    ensures
        ({
            let after = shrunk(before, stored, dropped, new_size);
            &&& zero_past_end(after, stored)
            &&& forall|pos: nat|
                pos < new_size ==> #[trigger] after.byte(stored, pos) == before.byte(stored, pos)
        }),
        zero_past_end(before, stored) && before.size <= new_size ==> zero_past_end(
            HandleState { size: new_size, ..before },
            stored,
        ),
{
    let cs = before.chunks.chunk_size as nat;
    let after = shrunk(before, stored, dropped, new_size);
    let pending = before.chunks.pending;
    assert forall|pos: nat| pos <= u64::MAX implies #[trigger] after.byte(stored, pos) == (if pos
        < new_size {
        before.byte(stored, pos)
    } else {
        0
    }) by {
        file_contents::truncate_cuts_the_file(
            cs,
            pending,
            stored,
            dropped,
            before.chunks.end_at(new_size as nat),
            before.chunks.at(pos),
        );
    }
    if zero_past_end(before, stored) && before.size <= new_size {
        let grown = HandleState { size: new_size, ..before };
        assert forall|pos: nat| grown.size <= pos <= u64::MAX implies #[trigger] grown.byte(
            stored,
            pos,
        ) == 0 by {
            assert(before.byte(stored, pos) == 0);
        }
    }
}

/// What was synced is what a handle opened afterwards finds: the recorded size
/// and times, and the same bytes with nothing staged.
pub proof fn synced_file_reopens(
    store: Store,
    state: HandleState,
    order: Seq<u64>,
    client: SlateFileClient,
    flags: FileOpenFlags,
    pos: nat,
)
    requires
        state.wf(),
        chunk_manager::lists_pending(order, state.chunks.pending),
    ensures
        ({
            let after = batch::applied(store, file_handle::sync_changes(state, order));
            let record = after[keys::metadata_key_bytes(state.file_id)];
            let reopened = file_handle::opened(client, state.file_id, state.metadata(), flags);
            &&& after.contains_key(keys::metadata_key_bytes(state.file_id))
            &&& file_metadata::decoded(record) == Some(state.metadata())
            &&& reopened.size == state.size
            &&& reopened.modified_at_ms == state.modified_at_ms
            &&& reopened.byte(file_contents::file_chunks(after, state.file_id), pos) == state.byte(
                file_contents::file_chunks(store, state.file_id),
                pos,
            )
        }),
{
    let chunk_changes = chunk_manager::pending_changes(state.file_id, state.chunks.pending, order);
    let changes = file_handle::sync_changes(state, order);
    let after_chunks = batch::applied(store, chunk_changes);
    let after = batch::applied(store, changes);
    let idx = (state.chunks.at(pos) / (state.chunks.chunk_size as nat)) as u64;
    file_metadata::metadata_round_trips(state.metadata());
    assert(changes.drop_last() =~= chunk_changes);
    file_contents::flush_keeps_the_contents(
        store,
        state.file_id,
        state.chunks.pending,
        order,
        idx,
    );
    assert(file_contents::file_chunks(after, state.file_id) =~= file_contents::file_chunks(
        after_chunks,
        state.file_id,
    )) by {
        assert forall|k: u64| keys::chunk_key_bytes(state.file_id, k) != keys::metadata_key_bytes(
            state.file_id,
        ) by {
            keys::key_families_are_disjoint(state.file_id, k, state.file_id, Seq::empty());
        }
    }
}

/// Syncing a file changes nothing of any other file: not its chunks, not its
/// metadata, and no path.
pub proof fn sync_touches_only_its_file(
    store: Store,
    state: HandleState,
    order: Seq<u64>,
    key: Seq<u8>,
)
    requires
        state.wf(),
        !keys::starts_with(key, keys::chunk_prefix_bytes(state.file_id)),
        key != keys::metadata_key_bytes(state.file_id),
    ensures
        ({
            let after = batch::applied(store, file_handle::sync_changes(state, order));
            &&& after.contains_key(key) <==> store.contains_key(key)
            &&& store.contains_key(key) ==> after[key] == store[key]
        }),
{
    let chunk_changes = chunk_manager::pending_changes(state.file_id, state.chunks.pending, order);
    let changes = file_handle::sync_changes(state, order);
    assert(changes.drop_last() =~= chunk_changes);
    file_contents::flush_touches_only_its_file(
        store,
        state.file_id,
        state.chunks.pending,
        order,
        key,
    );
}

/// The number of bytes that a read gives is the lesser of what it asks for and what is
/// left of the file: it never reads past the end, and it stops short of what it asks
/// for only there.
pub proof fn reads_stop_only_at_the_end(state: HandleState, len: nat, offset: nat)
    ensures
        state.readable(len, offset) <= len,
        offset >= state.size ==> state.readable(len, offset) == 0,
        offset < state.size ==> {
            let n = state.readable(len, offset);
            offset + n <= state.size && (n == len || offset + n == state.size)
        },
        offset < state.size && len > 0 ==> state.readable(len, offset) > 0,
        len >= state.size ==> state.readable(len, 0) == state.size,
{
}

/// A read at an offset asks the store for chunks with no staged change alone, each
/// once and in order, and for none that its bytes do not touch.
pub proof fn reads_ask_for_what_is_missing_alone(
    state: HandleState,
    fetches: Seq<chunk_manager::ChunkFetch>,
    len: nat,
    offset: nat,
    k: u64,
)
    requires
        state.wf(),
        offset + len <= u64::MAX,
        file_handle::asks_for_read(fetches, state, len, offset),
    ensures
        ({
            let asked = chunk_manager::expanded(chunk_manager::fetch_ranges(fetches));
            let cs = state.chunks.chunk_size as nat;
            let at = offset + state.chunks.lead;
            &&& asked.contains(k) ==> !state.chunks.pending.contains_key(k) && len > 0 && k * cs
                < at + len && at < (k + 1) * cs
            &&& !state.chunks.pending.contains_key(k) && len > 0 && k * cs < at + len && at < (k
                + 1) * cs ==> asked.contains(k)
            &&& index_map::ascending(asked)
        }),
{
    let cs = state.chunks.chunk_size as nat;
    let at = state.chunks.at(offset);
    let first = chunks::first_chunk(cs, at);
    let end = chunks::end_chunk(cs, len, at);
    chunks::chunk_indices_fit(cs, len, at);
    file_contents::missing_chunks_are_listed(state.chunks.pending, first, end, k);
    if first <= k < end {
        chunks::lemma_slice_at(cs, len, at, k as nat);
    }
    chunks::touched_chunks_are_counted(cs, len, at, k as nat);
}

/// One sequential read after another gives the bytes that follow: the second goes on
/// where the first stopped, and one that gives nothing, though it asks for something,
/// has found the end of the file.
pub proof fn reads_in_a_row_go_on_where_they_stopped(
    before: HandleState,
    middle: HandleState,
    after: HandleState,
    first_was: Seq<u8>,
    first: Seq<u8>,
    second_was: Seq<u8>,
    second: Seq<u8>,
    fetched: Stored,
    fetched_later: Stored,
    stored: Stored,
    a: usize,
    b: usize,
)
    requires
        before.wf(),
        file_handle::read_outcome(before, middle, first_was, first, fetched, Ok(a)),
        file_handle::read_outcome(middle, after, second_was, second, fetched_later, Ok(b)),
        answered_truthfully(fetched, stored, before, a as nat, before.position as nat),
        answered_truthfully(fetched_later, stored, middle, b as nat, middle.position as nat),
    ensures
        forall|i: int|
            0 <= i < a ==> #[trigger] first[i] == before.byte(
                stored,
                (before.position + i) as nat,
            ),
        forall|i: int|
            0 <= i < b ==> #[trigger] second[i] == before.byte(
                stored,
                (before.position + a + i) as nat,
            ),
        a <= first_was.len(),
        b <= second_was.len(),
        after.position == before.position + a + b,
        after == (HandleState { position: after.position, ..before }),
        b == 0 && second_was.len() > 0 ==> before.position + a >= before.size,
        before.position < before.size ==> before.position + a + b <= before.size,
{
    reads_stop_only_at_the_end(before, first_was.len(), before.position as nat);
    reads_stop_only_at_the_end(middle, second_was.len(), middle.position as nat);
    reads_see_the_file(
        before,
        first,
        first_was,
        fetched,
        stored,
        first_was.len(),
        before.position as nat,
    );
    reads_see_the_file(
        middle,
        second,
        second_was,
        fetched_later,
        stored,
        second_was.len(),
        middle.position as nat,
    );
    assert forall|i: int| 0 <= i < b implies #[trigger] second[i] == before.byte(
        stored,
        (before.position + a + i) as nat,
    ) by {
        assert(second[i] == middle.byte(stored, (middle.position + i) as nat));
    }
}

/// A sequential read is refused only through a handle that was not opened for
/// reading, and then changes nothing.
pub proof fn sequential_reads_are_refused_only_without_access(
    before: HandleState,
    after: HandleState,
    was: Seq<u8>,
    got: Seq<u8>,
    fetched: Stored,
    r: Result<usize>,
)
    requires
        file_handle::read_outcome(before, after, was, got, fetched, r),
    ensures
        before.flags.read ==> r is Ok,
        !before.flags.read && before.position < before.size && was.len() > 0 ==> r is Err,
        r is Err ==> after == before && got == was,
{
}

/// A positional write through a handle that may write is refused only where it would
/// end past the largest offset there is, and a refused one changes nothing.
pub proof fn writes_are_refused_only_past_the_largest_offset(
    before: HandleState,
    after: HandleState,
    data: Seq<u8>,
    offset: nat,
    known: Stored,
    r: Result<Option<u64>>,
)
    requires
        file_handle::pwrite_outcome(before, after, data, offset, known, r),
    ensures
        r is Err <==> (!before.flags.write || (data.len() > 0 && offset + data.len() > u64::MAX)),
        r is Err || data.len() == 0 ==> after == before,
{
}

/// A write stops for a stored chunk only if it changes that chunk in part and neither
/// knows what is stored of it nor has a staged change to it. So it goes through once
/// the chunks that it touches are known.
pub proof fn writes_wait_only_for_chunks_they_change_in_part(
    before: HandleState,
    after: HandleState,
    data: Seq<u8>,
    offset: nat,
    known: Stored,
    r: Result<Option<u64>>,
)
    requires
        before.wf(),
        before.flags.write,
        offset + data.len() <= u64::MAX,
        file_handle::pwrite_outcome(before, after, data, offset, known, r),
    ensures
        ({
            let cs = before.chunks.chunk_size as nat;
            let at = offset + before.chunks.lead;
            &&& r matches Ok(Some(idx)) ==> {
                &&& !known.contains_key(idx)
                &&& !before.chunks.pending.contains_key(idx)
                &&& idx * cs < at + data.len()
                &&& at < (idx + 1) * cs
                &&& !(at <= idx * cs && (idx + 1) * cs <= at + data.len())
                &&& after.size == before.size
                &&& after.position == before.position
                &&& after.modified_at_ms == before.modified_at_ms
            }
            &&& (forall|k: u64|
                k * cs < at + data.len() && at < (k + 1) * cs ==> #[trigger] known.contains_key(k)
                    || before.chunks.pending.contains_key(k)) ==> r matches Ok(None)
        }),
{
    let cs = before.chunks.chunk_size as nat;
    let at = before.chunks.at(offset);
    if let Ok(Some(idx)) = r {
        chunks::lemma_slice_at(cs, data.len(), at, idx as nat);
        assert(!known.contains_key(idx));
    }
}

/// A write that has stopped for a stored chunk has put some of its bytes in place and
/// changed nothing outside its span.
pub proof fn unfinished_writes_stay_in_their_span(
    before: HandleState,
    after: HandleState,
    data: Seq<u8>,
    offset: nat,
    known: Stored,
    stored: Stored,
    idx: u64,
    pos: nat,
)
    requires
        before.wf(),
        before.flags.write,
        offset + data.len() <= u64::MAX,
        file_handle::pwrite_outcome(before, after, data, offset, known, Ok(Some(idx))),
        fetched_truthfully(known, stored),
        pos <= u64::MAX,
    ensures
        after.wf(),
        after.byte(stored, pos) == before.byte(stored, pos) || (offset <= pos < offset
            + data.len() && after.byte(stored, pos) == data[pos - offset]),
{
    let cs = before.chunks.chunk_size as nat;
    let pending = before.chunks.pending;
    let at = before.chunks.at(offset);
    let first = chunks::first_chunk(cs, at);
    let end = chunks::end_chunk(cs, data.len(), at);
    let here = before.chunks.at(pos);
    let c = (here / cs) as u64;
    if data.len() > 0 {
        file_contents::write_changes_only_its_bytes(cs, pending, stored, data, at, here);
        if first <= c < idx {
            assert(!chunk_manager::needs_stored(cs, pending, known, data.len(), at, c as nat));
            assert(chunk_manager::written_chunk(cs, pending, known, data, at, c as nat)
                == chunk_manager::written_chunk(cs, pending, stored, data, at, c as nat));
        }
    }
}

/// A write that stopped for a stored chunk and was called again with it ends as one
/// that went through at once: its bytes are in place, and nothing else has changed.
pub proof fn a_write_that_was_picked_up_is_whole(
    before: HandleState,
    middle: HandleState,
    after: HandleState,
    data: Seq<u8>,
    offset: nat,
    known: Stored,
    known_later: Stored,
    stored: Stored,
    idx: u64,
    pos: nat,
)
    requires
        before.wf(),
        before.flags.write,
        data.len() > 0,
        offset + data.len() <= u64::MAX,
        file_handle::pwrite_outcome(before, middle, data, offset, known, Ok(Some(idx))),
        file_handle::pwrite_outcome(middle, after, data, offset, known_later, Ok(None)),
        fetched_truthfully(known, stored),
        fetched_truthfully(known_later, stored),
        pos <= u64::MAX,
    ensures
        after.byte(stored, pos) == if offset <= pos < offset + data.len() {
            data[pos - offset]
        } else {
            before.byte(stored, pos)
        },
        after.size == if offset + data.len() > before.size {
            offset + data.len()
        } else {
            before.size as nat
        },
        after.position == before.position,
{
    unfinished_writes_stay_in_their_span(
        before,
        middle,
        data,
        offset,
        known,
        stored,
        idx,
        pos,
    );
    finished_write_changes_only_its_bytes(
        middle,
        after,
        data,
        offset,
        known_later,
        stored,
        pos,
    );
}

/// A sequential write puts its bytes where the handle stands: at the position before
/// the call, or at the end of the file through a handle that appends. It leaves the
/// position just past them, and changes no other byte.
pub proof fn a_sequential_write_goes_where_the_handle_stands(
    before: HandleState,
    after: HandleState,
    data: Seq<u8>,
    known: Stored,
    stored: Stored,
    n: usize,
    pos: nat,
)
    requires
        before.wf(),
        file_handle::write_outcome(before, after, data, known, Ok(WriteStep::Written(n))),
        fetched_truthfully(known, stored),
        pos <= u64::MAX,
    ensures
        n == data.len(),
        !before.flags.append ==> {
            &&& after.position == before.position + data.len()
            &&& after.byte(stored, pos) == if before.position <= pos < before.position
                + data.len() {
                data[pos - before.position]
            } else {
                before.byte(stored, pos)
            }
            &&& after.size == if data.len() > 0 && before.position + data.len() > before.size {
                before.position + data.len()
            } else {
                before.size as int
            }
        },
        before.flags.append ==> {
            &&& after.position == before.size + data.len()
            &&& after.byte(stored, pos) == if before.size <= pos < before.size + data.len() {
                data[pos - before.size]
            } else {
                before.byte(stored, pos)
            }
            &&& after.size == before.size + data.len()
        },
        after.wf(),
        after.file_id == before.file_id,
        after.flags == before.flags,
        after.client == before.client,
{
    let start: nat = if before.flags.append {
        before.size as nat
    } else {
        before.position as nat
    };
    assert(file_handle::write_offset(before) == start);
    let staged = HandleState { position: before.position, ..after };
    if data.len() > 0 {
        finished_write_changes_only_its_bytes(before, staged, data, start, known, stored, pos);
    }
    assert(after.byte(stored, pos) == staged.byte(stored, pos));
}

/// Two sequential writes in a row, through a handle that does not append, leave the
/// bytes of the first and then those of the second from the position on.
pub proof fn writes_in_a_row_follow_one_another(
    before: HandleState,
    middle: HandleState,
    after: HandleState,
    a: Seq<u8>,
    b: Seq<u8>,
    known: Stored,
    known_later: Stored,
    stored: Stored,
    m: usize,
    n: usize,
    pos: nat,
)
    requires
        before.wf(),
        !before.flags.append,
        file_handle::write_outcome(before, middle, a, known, Ok(WriteStep::Written(m))),
        file_handle::write_outcome(middle, after, b, known_later, Ok(WriteStep::Written(n))),
        fetched_truthfully(known, stored),
        fetched_truthfully(known_later, stored),
        pos <= u64::MAX,
    ensures
        after.position == before.position + a.len() + b.len(),
        after.byte(stored, pos) == if before.position <= pos < before.position + a.len()
            + b.len() {
            (a + b)[pos - before.position]
        } else {
            before.byte(stored, pos)
        },
{
    a_sequential_write_goes_where_the_handle_stands(
        before,
        middle,
        a,
        known,
        stored,
        m,
        pos,
    );
    a_sequential_write_goes_where_the_handle_stands(
        middle,
        after,
        b,
        known_later,
        stored,
        n,
        pos,
    );
}

/// Two sequential writes in a row through a handle that appends leave the file as it
/// was and behind it the bytes of the first and then those of the second.
pub proof fn appended_writes_follow_one_another(
    before: HandleState,
    middle: HandleState,
    after: HandleState,
    a: Seq<u8>,
    b: Seq<u8>,
    known: Stored,
    known_later: Stored,
    stored: Stored,
    m: usize,
    n: usize,
    pos: nat,
)
    requires
        before.wf(),
        before.flags.append,
        file_handle::write_outcome(before, middle, a, known, Ok(WriteStep::Written(m))),
        file_handle::write_outcome(middle, after, b, known_later, Ok(WriteStep::Written(n))),
        fetched_truthfully(known, stored),
        fetched_truthfully(known_later, stored),
        pos <= u64::MAX,
    ensures
        after.size == before.size + a.len() + b.len(),
        after.position == after.size,
        after.byte(stored, pos) == if before.size <= pos < before.size + a.len() + b.len() {
            (a + b)[pos - before.size]
        } else {
            before.byte(stored, pos)
        },
{
    a_sequential_write_goes_where_the_handle_stands(
        before,
        middle,
        a,
        known,
        stored,
        m,
        pos,
    );
    a_sequential_write_goes_where_the_handle_stands(
        middle,
        after,
        b,
        known_later,
        stored,
        n,
        pos,
    );
}

/// A sequential write right after a seek puts its bytes where the seek went, through
/// a handle that does not append.
pub proof fn a_write_after_a_seek_goes_there(
    before: HandleState,
    target: u64,
    after: HandleState,
    data: Seq<u8>,
    known: Stored,
    stored: Stored,
    n: usize,
    i: int,
)
    requires
        before.wf(),
        !before.flags.append,
        file_handle::write_outcome(
            (HandleState { position: target, ..before }),
            after,
            data,
            known,
            Ok(WriteStep::Written(n)),
        ),
        fetched_truthfully(known, stored),
        0 <= i < data.len(),
    ensures
        after.byte(stored, (target + i) as nat) == data[i],
        after.position == target + data.len(),
{
    a_sequential_write_goes_where_the_handle_stands(
        HandleState { position: target, ..before },
        after,
        data,
        known,
        stored,
        n,
        (target + i) as nat,
    );
}

/// A sequential write through a handle that may write is refused only where it would
/// end past the largest offset there is, and a refused one changes nothing. One that
/// knows every chunk that it touches goes through.
pub proof fn sequential_writes_are_refused_only_past_the_largest_offset(
    before: HandleState,
    after: HandleState,
    data: Seq<u8>,
    known: Stored,
    r: Result<WriteStep>,
)
    requires
        before.wf(),
        file_handle::write_outcome(before, after, data, known, r),
    ensures
        ({
            let start = if before.flags.append {
                before.size
            } else {
                before.position
            };
            let cs = before.chunks.chunk_size as nat;
            let at = start + before.chunks.lead;
            &&& r is Err <==> (!before.flags.write || (data.len() > 0 && start + data.len()
                > u64::MAX))
            &&& r is Err ==> after == before
            &&& before.flags.write && start + data.len() <= u64::MAX && (forall|k: u64|
                k * cs < at + data.len() && at < (k + 1) * cs ==> #[trigger] known.contains_key(k)
                    || before.chunks.pending.contains_key(k)) ==> r matches Ok(
                WriteStep::Written(_),
            )
        }),
{
    let start: nat = if before.flags.append {
        before.size as nat
    } else {
        before.position as nat
    };
    if let Ok(WriteStep::NeedsChunk(idx)) = r {
        if before.flags.write && start + data.len() <= u64::MAX {
            writes_wait_only_for_chunks_they_change_in_part(
                before,
                after,
                data,
                start,
                known,
                Ok(Some(idx)),
            );
        }
    }
}

/// A change is never lost to a sync: a handle that a write or a truncation went
/// through has something to store, and a handle with nothing to store has no chunk
/// staged.
pub proof fn changes_wait_to_be_stored(
    before: HandleState,
    written: HandleState,
    data: Seq<u8>,
    offset: nat,
    known: Stored,
    cut: HandleState,
    new_size: u64,
    stored_last: Seq<u8>,
    stored_keys: Seq<Vec<u8>>,
)
    requires
        before.flags.write,
        data.len() > 0,
        offset + data.len() <= u64::MAX,
        file_handle::pwrite_outcome(before, written, data, offset, known, Ok(None)),
        new_size != before.size,
        file_handle::truncate_outcome(before, cut, new_size, stored_last, stored_keys, Ok(())),
    ensures
        written.changed(),
        written.metadata_dirty,
        cut.changed(),
        cut.metadata_dirty,
        !before.changed() ==> !before.metadata_dirty && before.chunks.pending == Map::<
            u64,
            Option<Seq<u8>>,
        >::empty(),
{
    if !before.changed() {
        assert(before.chunks.pending =~= Map::<u64, Option<Seq<u8>>>::empty());
    }
}

/// A truncation that is told what the store holds goes through. The file is then
/// `new_size` bytes long, its bytes before both ends are as they were, and past the
/// new end it holds only zeroes.
pub proof fn truncation_sets_the_size_and_cuts_the_bytes(
    before: HandleState,
    after: HandleState,
    new_size: u64,
    stored: Stored,
    stored_last: Seq<u8>,
    indices: Seq<u64>,
    stored_keys: Seq<Vec<u8>>,
    r: Result<()>,
)
    requires
        before.wf(),
        before.flags.write,
        zero_past_end(before, stored),
        stored_keys.len() == indices.len(),
        forall|i: int|
            0 <= i < stored_keys.len() ==> (#[trigger] stored_keys[i])@ == keys::chunk_key_bytes(
                before.file_id,
                indices[i],
            ),
        forall|k: u64| #[trigger] indices.contains(k) <==> stored.contains_key(k),
        new_size > 0 ==> {
            let last = ((new_size - 1 + before.chunks.lead) / before.chunks.chunk_size as int)
                as u64;
            before.chunks.pending.contains_key(last) || stored_last == chunk_manager::chunk_at(
                Map::empty(),
                stored,
                last,
            )
        },
        file_handle::truncate_outcome(before, after, new_size, stored_last, stored_keys, r),
    ensures
        r is Ok,
        after.size == new_size,
        after.position == before.position,
        after.file_id == before.file_id,
        after.flags == before.flags,
        after.wf(),
        forall|pos: nat|
            pos < new_size && pos < before.size ==> #[trigger] after.byte(stored, pos)
                == before.byte(stored, pos),
        forall|pos: nat|
            before.size <= pos < new_size ==> #[trigger] after.byte(stored, pos) == 0,
        zero_past_end(after, stored),
{
    let cs = before.chunks.chunk_size as nat;
    let end = before.chunks.end_at(new_size as nat);
    let pending = before.chunks.pending;
    let min = chunk_manager::first_dropped(cs, end);
    let dropped = chunk_manager::indices_from(stored_keys, min);
    file_contents::stored_keys_name_their_chunks(before.file_id, indices, stored_keys, min);
    if new_size < before.size {
        let last = chunk_manager::last_chunk_of(cs, end) as u64;
        let told = chunk_manager::chunk_at(Map::empty(), stored, last);
        assert(chunk_manager::truncated(cs, pending, stored_last, dropped, end)
            == chunk_manager::truncated(cs, pending, told, dropped, end));
        assert forall|pos: nat| pos <= u64::MAX implies #[trigger] after.byte(stored, pos) == (
        if pos < new_size {
            before.byte(stored, pos)
        } else {
            0
        }) by {
            file_contents::truncate_cuts_the_file(
                cs,
                pending,
                stored,
                dropped,
                end,
                before.chunks.at(pos),
            );
        }
    } else {
        assert forall|pos: nat| #[trigger] after.byte(stored, pos) == before.byte(
            stored,
            pos,
        ) by {}
        assert forall|pos: nat| before.size <= pos <= u64::MAX implies #[trigger] after.byte(
            stored,
            pos,
        ) == 0 by {
            assert(before.byte(stored, pos) == 0);
        }
    }
}

/// A truncation is refused only through a handle that may not write, or where it
/// shrinks the file and some stored key names no chunk. A refused one changes nothing.
pub proof fn truncation_is_refused_only_for_keys_that_name_no_chunk(
    before: HandleState,
    after: HandleState,
    new_size: u64,
    stored_last: Seq<u8>,
    stored_keys: Seq<Vec<u8>>,
    r: Result<()>,
)
    requires
        file_handle::truncate_outcome(before, after, new_size, stored_last, stored_keys, r),
    ensures
        !before.flags.write ==> r is Err,
        r is Err ==> after == before,
        before.flags.write && new_size >= before.size ==> r is Ok,
        before.flags.write && (forall|i: int|
            0 <= i < stored_keys.len() ==> keys::chunk_index_of((#[trigger] stored_keys[i])@)
                is Some) ==> r is Ok,
{
    if forall|i: int|
        0 <= i < stored_keys.len() ==> keys::chunk_index_of((#[trigger] stored_keys[i])@) is Some {
        file_contents::good_keys_are_not_refused(stored_keys);
    }
}

/// A handle opens on its record: it knows the recorded size and time, has nothing
/// staged or to store, reads what is stored, and stands at the start of the file, or
/// at its end to append.
pub proof fn a_handle_opens_on_its_record(
    client: SlateFileClient,
    file_id: u64,
    metadata: FileMetadata,
    flags: FileOpenFlags,
    stored: Stored,
    pos: nat,
)
    requires
        0 < metadata.chunk_size <= usize::MAX,
        metadata.chunk_base_offset < metadata.chunk_size,
    ensures
        ({
            let state = file_handle::opened(client, file_id, metadata, flags);
            let lead = (metadata.chunk_size - metadata.chunk_base_offset)
                % metadata.chunk_size as int;
            &&& state.wf()
            &&& !state.changed()
            &&& state.metadata() == metadata
            &&& state.client == client && state.file_id == file_id && state.flags == flags
            &&& flags.append ==> state.position == metadata.size
            &&& !flags.append ==> state.position == 0
            &&& state.byte(stored, pos) == {
                let chunk = ((pos + lead) / metadata.chunk_size as int) as u64;
                let place = (pos + lead) % metadata.chunk_size as int;
                if stored.contains_key(chunk) && place < stored[chunk].len() {
                    stored[chunk][place]
                } else {
                    0
                }
            }
        }),
{
    let size = metadata.chunk_size as int;
    let base = metadata.chunk_base_offset as int;
    let state = file_handle::opened(client, file_id, metadata, flags);
    if base == 0 {
        assert(size % size == 0) by {
            vstd::arithmetic::div_mod::lemma_mod_self_0(size);
        }
    } else {
        vstd::arithmetic::div_mod::lemma_small_mod((size - base) as nat, size as nat);
    }
    assert(state.chunks.lead == (size - base) % size);
}

/// A handle is refused exactly if its flags make no sense, a read-only client is asked
/// for more than reading, or the record's chunks cannot be told apart.
pub proof fn handles_open_unless_something_is_wrong(
    client: SlateFileClient,
    file_id: u64,
    metadata: FileMetadata,
    flags: FileOpenFlags,
)
    ensures
        file_handle::open_error(client, file_id, metadata, flags) is None <==> {
            &&& flags.read || flags.write
            &&& flags.create || flags.append ==> flags.write
            &&& flags.truncate_existing ==> flags.create
            &&& client == SlateFileClient::ReadOnly ==> flags.read && !flags.write
            &&& 0 < metadata.chunk_size <= usize::MAX
            &&& metadata.chunk_base_offset < metadata.chunk_size
        },
{
}

} // verus!
