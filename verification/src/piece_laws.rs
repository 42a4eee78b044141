//! What the pieces give that files and filesystems are put together from: errors, flags,
//! IDs, texts, keys, staged chunks and queues.

use vstd::prelude::*;
use vstd::utf8::*;

use crate::batch::Mutation;
use crate::catalog;
use crate::catalog::Reads;
use crate::chunk_manager;
use crate::chunk_manager::{ChunkManager, ChunkRange, FetchedChunks};
use crate::chunks;
use crate::chunks::ChunkSlice;
use crate::error;
use crate::error::{Error, ErrorCode, Result, SlateDbErrorKind};
use crate::ffi;
use crate::file_contents;
use crate::file_handle::{FileHandle, SlateFileHandle};
use crate::flags;
use crate::flags::FileOpenFlags;
use crate::flush_batcher::FlushBatcher;
use crate::fs_laws;
use crate::ids;
use crate::index_map;
use crate::keys;
use crate::parse;
use crate::read_coalescer::{Queued, ReadCoalescer, ReadRequest, MAX_BATCH_REQUESTS};
use crate::text;
use crate::util;

verus! {

/// An error that is made says what it was made with, is permanent, and has no cause.
pub proof fn errors_are_made_as_asked(
    message: String,
    location: &str,
    path: &str,
    argument: Error,
    read_only: Error,
    decode: Error,
    missing: Error,
    lock: Error,
)
    requires
        call_ensures(Error::invalid_argument, (message, location), argument),
        call_ensures(Error::read_only_violation, (message, location), read_only),
        call_ensures(Error::metadata_decode, (message, location), decode),
        call_ensures(Error::file_not_found, (path, location), missing),
        call_ensures(Error::poisoned_lock, (location,), lock),
    ensures
        argument is InvalidArgument,
        read_only is ReadOnlyViolation,
        decode is MetadataDecode,
        missing is FileNotFound,
        lock is Io,
        argument@.message == message@,
        read_only@.message == message@,
        decode@.message == message@,
        text::has_part(missing@.message, path@),
        argument@.location == Some(location@),
        read_only@.location == Some(location@),
        decode@.location == Some(location@),
        missing@.location == Some(location@),
        lock@.location == Some(location@),
        argument@.status is Permanent && argument@.source is None,
        read_only@.status is Permanent && read_only@.source is None,
        decode@.status is Permanent && decode@.source is None,
        missing@.status is Permanent && missing@.source is None,
        lock@.status is Permanent && lock@.source is None,
{
    text::parts_are_found_wherever_they_stand(
        "file not found: "@,
        path@,
        Seq::empty(),
        Seq::empty(),
    );
    assert("file not found: "@ + path@ + Seq::empty() =~= "file not found: "@ + path@);
}

/// A failure of a layer below is worth retrying exactly if that kind of failure may pass,
/// and keeps its cause.
pub proof fn failures_below_are_passed_on(
    source: slatedb::Error,
    io_source: std::io::Error,
    bytes_source: prost::DecodeError,
    location: &str,
    of_slatedb: Error,
    of_io: Error,
    of_bytes: Error,
)
    requires
        call_ensures(Error::slatedb_failure, (source, location), of_slatedb),
        call_ensures(Error::io_failure, (io_source, location), of_io),
        call_ensures(Error::undecodable, (bytes_source, location), of_bytes),
    ensures
        of_slatedb is SlateDb && of_slatedb@.source is Some,
        of_io is Io && of_io@.source is Some,
        of_bytes is MetadataDecode && of_bytes@.source is Some,
        of_slatedb@.location == Some(location@),
        of_io@.location == Some(location@),
        of_bytes@.location == Some(location@),
        of_slatedb@.status is Temporary <==> match error::slatedb_error_kind(source) {
            SlateDbErrorKind::Unavailable => true,
            SlateDbErrorKind::Transaction => true,
            _ => false,
        },
        of_io@.status is Temporary <==> !(error::io_error_kind(io_source) is Other),
        of_bytes@.status is Permanent,
{
}

/// Each error crosses the C ABI under its own number.
pub proof fn errors_cross_under_their_numbers(code: ErrorCode, n: i32)
    requires
        call_ensures(ErrorCode::as_i32, (code,), n),
    ensures
        n == 1 <==> code is MetadataDecode,
        n == 2 <==> code is FileNotFound,
        n == 3 <==> code is FileAlreadyExists,
        n == 4 <==> code is ReadOnlyViolation,
        n == 5 <==> code is SlateDb,
        n == 6 <==> code is InvalidArgument,
        n == 7 <==> code is Io,
        1 <= n <= 7,
{
}

/// Flags are refused exactly if they contradict themselves, and a read or a change
/// exactly if they do not allow it. A refusal names the file.
pub proof fn flags_allow_what_they_say(
    flags: &FileOpenFlags,
    file_id: u64,
    valid: Result<()>,
    readable: Result<()>,
    writable: Result<()>,
)
    requires
        call_ensures(FileOpenFlags::validate, (flags,), valid),
        call_ensures(FileOpenFlags::ensure_readable, (flags, file_id), readable),
        call_ensures(FileOpenFlags::ensure_writable, (flags, file_id), writable),
    ensures
        valid is Ok <==> fs_laws::sensible(*flags),
        valid matches Err(e) ==> e is InvalidArgument,
        readable is Ok <==> flags.read,
        writable is Ok <==> flags.write,
        readable matches Err(e) ==> e is InvalidArgument && text::has_part(
            e@.message,
            text::decimal(file_id as nat),
        ),
        writable matches Err(e) ==> e is ReadOnlyViolation && text::has_part(
            e@.message,
            text::decimal(file_id as nat),
        ),
{
    flags::flags_make_sense_unless_they_contradict_themselves(*flags);
    flags::refusals_tell_reads_from_changes(file_id);
}

/// A write that would end past the largest offset, and a sync through a client that only
/// reads, are refused with an error that names the file.
pub proof fn refused_changes_name_the_file(
    handle: &mut SlateFileHandle,
    data: &[u8],
    offset: u64,
    fetched: &FetchedChunks,
    r: Result<Option<u64>>,
    synced: &SlateFileHandle,
    s: Result<Option<Vec<Mutation>>>,
)
    requires
        old(handle).state().wf(),
        call_ensures(
            <SlateFileHandle as FileHandle>::pwrite,
            (handle, data, offset, fetched),
            r,
        ),
        call_ensures(<SlateFileHandle as FileHandle>::sync_batch, (synced,), s),
    ensures
        r matches Err(e) ==> text::has_part(
            e@.message,
            text::decimal(old(handle).state().file_id as nat),
        ),
        r matches Err(e) ==> (old(handle).state().flags.write ==> e is InvalidArgument),
        s matches Err(e) ==> e is ReadOnlyViolation && text::has_part(
            e@.message,
            text::decimal(synced.state().file_id as nat),
        ),
{
    let id = text::decimal(old(handle).state().file_id as nat);
    flags::refusals_tell_reads_from_changes(old(handle).state().file_id);
    text::parts_are_found_wherever_they_stand(
        "write overflow for file_id "@,
        id,
        Seq::empty(),
        Seq::empty(),
    );
    assert("write overflow for file_id "@ + id + Seq::empty() =~= "write overflow for file_id "@
        + id);
    text::parts_are_found_wherever_they_stand(
        "cannot sync file_id "@,
        text::decimal(synced.state().file_id as nat),
        " through a read-only SlateDB client"@,
        Seq::empty(),
    );
}

/// An ID is written in eight bytes, most significant first or last, and read back from
/// them.
pub proof fn ids_are_written_and_read(
    id: u64,
    be: Vec<u8>,
    le: Vec<u8>,
    be_bytes: &[u8],
    le_bytes: &[u8],
    r: u64,
    s: u64,
)
    requires
        call_ensures(ids::id_to_be_bytes, (id,), be),
        call_ensures(ids::id_to_le_bytes, (id,), le),
        be_bytes@ == be@,
        le_bytes@ == le@,
        call_ensures(ids::id_from_be_bytes, (be_bytes,), r),
        call_ensures(ids::id_from_le_bytes, (le_bytes,), s),
    ensures
        be@.len() == 8,
        le@.len() == 8,
        r == id,
        s == id,
        forall|i: int| 0 <= i < 8 ==> #[trigger] le@[i] == be@[7 - i],
        id == be@[0] * 0x100_0000_0000_0000 + be@[1] * 0x1_0000_0000_0000 + be@[2]
            * 0x100_0000_0000 + be@[3] * 0x1_0000_0000 + be@[4] * 0x100_0000 + be@[5] * 0x1_0000
            + be@[6] * 0x100 + be@[7],
{
    ids::stored_ids_round_trip(id);
    reveal_with_fuel(ids::be_value, 9);
}

/// Joined texts follow one another, a part is found wherever it stands, a head only at
/// the start, and a number is written in digits that read back.
pub proof fn texts_are_put_together_and_found(
    a: &str,
    b: &str,
    c: &str,
    two: String,
    three: String,
    found: bool,
    starts: bool,
    n: u64,
    written: String,
    escaped: String,
)
    requires
        call_ensures(text::join2, (a, b), two),
        call_ensures(text::join3, (a, b, c), three),
        call_ensures(text::contains, (a, b), found),
        call_ensures(text::starts_with, (a, b), starts),
        call_ensures(text::decimal_text, (n,), written),
        call_ensures(text::escape_nul, (a,), escaped),
    ensures
        two@ == a@ + b@,
        three@ == a@ + b@ + c@,
        found <==> exists|i: int|
            0 <= i <= a@.len() - b@.len() && #[trigger] a@.subrange(i, i + b@.len()) == b@,
        starts <==> b@.len() <= a@.len() && a@.take(b@.len() as int) == b@,
        parse::digits_value(written@, 10) == n,
        written@.len() > 0,
        n > 0 ==> written@[0] != '0',
        forall|i: int| 0 <= i < escaped@.len() ==> #[trigger] escaped@[i] != '\0',
        (forall|i: int| 0 <= i < a@.len() ==> a@[i] != '\0') ==> escaped@ == a@,
{
    text::decimals_read_back(n as nat);
    assert forall|i: int| 0 <= i < escaped@.len() implies #[trigger] escaped@[i] != '\0' by {
        text::escaped_text_holds_no_nul(a@, i);
    }
    text::escaping_goes_character_by_character(a@, Seq::empty(), ' ');
    if found {
        let i = choose|i: int| text::part_at(a@, b@, i);
        assert(a@.subrange(i, i + b@.len()) == b@);
    }
    if exists|i: int|
        0 <= i <= a@.len() - b@.len() && #[trigger] a@.subrange(i, i + b@.len()) == b@ {
        let i = choose|i: int|
            0 <= i <= a@.len() - b@.len() && #[trigger] a@.subrange(i, i + b@.len()) == b@;
        assert(text::part_at(a@, b@, i));
    }
}

/// A pointer is refused exactly if it is null, and a text that need not be configured
/// exactly if it is there and is no text. An empty one counts as missing.
pub proof fn what_crosses_is_checked(
    is_null: bool,
    name: &str,
    pointer: Result<()>,
    value: &Option<Vec<u8>>,
    r: Result<Option<String>>,
    closed: Error,
    poisoned: Error,
    given: Seq<char>,
)
    requires
        call_ensures(ffi::require_pointer, (is_null, name), pointer),
        call_ensures(ffi::optional_string, (value, name), r),
        call_ensures(ffi::handle_closed, (), closed),
        call_ensures(ffi::handle_poisoned, (), poisoned),
    ensures
        pointer is Ok <==> !is_null,
        pointer matches Err(e) ==> e is InvalidArgument && text::has_head(e@.message, name@),
        *value is None ==> r matches Ok(None),
        *value matches Some(bytes) ==> (!valid_utf8(bytes@) ==> r is Err),
        *value matches Some(bytes) ==> (bytes@ == encode_utf8(given) && given.len() == 0
            ==> r matches Ok(None)),
        *value matches Some(bytes) ==> (bytes@ == encode_utf8(given) && given.len() > 0 ==> (
        r matches Ok(Some(read)) && read@ == given)),
        r matches Err(e) ==> e is InvalidArgument && text::has_head(e@.message, name@),
        closed is InvalidArgument,
        poisoned is InvalidArgument,
        closed@.message != poisoned@.message,
{
    text::parts_are_found_wherever_they_stand(
        Seq::empty(),
        name@,
        " must not be null"@,
        Seq::empty(),
    );
    text::parts_are_found_wherever_they_stand(
        Seq::empty(),
        name@,
        " must be valid UTF-8"@,
        Seq::empty(),
    );
    reveal_strlit("file handle lock is poisoned");
    reveal_strlit("file handle is closed");
    assert(closed@.message.len() != poisoned@.message.len());
    if let Some(bytes) = *value {
        ffi::configured_texts_read_back(*value, given);
        ffi::texts_take_room(given);
        encode_utf8_decode_utf8(given);
        encode_utf8_valid_utf8(given);
    }
}

/// A time is recorded in milliseconds since the epoch, as the epoch where it is before
/// it, and as the last time that can be written where it is after that.
pub proof fn recorded_times_are_held_in_bounds(since_epoch: Option<u128>, r: u64)
    requires
        call_ensures(util::saturated_millis, (since_epoch,), r),
    ensures
        since_epoch is None ==> r == 0,
        since_epoch matches Some(millis) ==> r == if millis < u64::MAX {
            millis as int
        } else {
            u64::MAX as int
        },
{
    if let Some(millis) = since_epoch {
        util::times_are_recorded_as_they_are(millis, millis);
    }
}

/// The keys of a file's chunks lie under its prefix and no other file's, and its record
/// lies under neither another file's key nor that of the next ID.
pub proof fn keys_lie_where_they_are_looked_for(
    file_id: u64,
    other: u64,
    index: u64,
    prefix: Vec<u8>,
    chunk_key: Vec<u8>,
    record: Vec<u8>,
    other_record: Vec<u8>,
    next: Vec<u8>,
)
    requires
        call_ensures(keys::chunk_prefix, (file_id,), prefix),
        call_ensures(keys::chunk_key, (other, index), chunk_key),
        call_ensures(keys::metadata_key, (file_id,), record),
        call_ensures(keys::metadata_key, (other,), other_record),
        call_ensures(keys::next_file_id_key, (), next),
    ensures
        prefix@.len() <= chunk_key@.len() && chunk_key@.take(prefix@.len() as int) == prefix@ <==>
            other == file_id,
        record@ == other_record@ <==> file_id == other,
        record@ != next@,
        record@ != chunk_key@,
        next@ != chunk_key@,
{
    keys::chunk_prefix_matches_only_its_own_file(file_id, other, index);
    keys::metadata_keys_are_distinct(file_id, other);
    keys::key_families_are_disjoint(other, index, file_id, Seq::empty());
}

/// A chunk manager starts with nothing staged, has something to store while something is
/// staged, and nothing once that was noted as stored.
pub proof fn chunk_managers_start_and_end_with_nothing_staged(
    file_id: u64,
    chunk_size: usize,
    lead: usize,
    plain: ChunkManager,
    led: ChunkManager,
    flushed: &mut ChunkManager,
    empty: bool,
    after: bool,
    size: u64,
)
    requires
        call_ensures(ChunkManager::new, (file_id, chunk_size), plain),
        call_ensures(ChunkManager::with_lead, (file_id, chunk_size, lead), led),
        call_ensures(ChunkManager::has_pending_changes, (&led,), empty),
        call_ensures(ChunkManager::chunk_size, (&led,), size),
        call_ensures(ChunkManager::mark_flushed, (flushed,), ()),
        call_ensures(ChunkManager::has_pending_changes, (&*final(flushed),), after),
    ensures
        plain@.lead == 0,
        led@.lead == lead,
        plain@.file_id == file_id && led@.file_id == file_id,
        plain@.chunk_size == chunk_size && led@.chunk_size == chunk_size,
        size == chunk_size,
        !empty,
        !after,
        final(flushed)@.file_id == old(flushed)@.file_id,
        final(flushed)@.chunk_size == old(flushed)@.chunk_size,
        final(flushed)@.lead == old(flushed)@.lead,
{
}

/// What was staged is read back, byte for byte, with what the store gave for the rest.
pub proof fn staged_bytes_read_back(
    manager: &mut ChunkManager,
    data: &[u8],
    offset: u64,
    fetched: &FetchedChunks,
    after: &ChunkManager,
    buf: &mut [u8],
    i: int,
)
    requires
        old(manager).wf(),
        offset + data@.len() <= u64::MAX + 1,
        call_ensures(ChunkManager::write, (manager, data, offset, fetched), None::<u64>),
        after@ == final(manager)@,
        old(buf)@.len() == data@.len(),
        call_ensures(ChunkManager::read, (after, buf, offset, fetched), ()),
        0 <= i < data@.len(),
    ensures
        final(buf)@.len() == data@.len(),
        final(buf)@[i] == data@[i],
{
    let before = old(manager)@;
    file_contents::write_changes_only_its_bytes(
        before.chunk_size as nat,
        before.pending,
        fetched@,
        data@,
        before.at(offset as nat),
        (before.at(offset as nat) + i) as nat,
    );
    assert(final(buf)@[i] == chunk_manager::byte_at(
        after@.chunk_size as nat,
        after@.pending,
        fetched@,
        (after@.at(offset as nat) + i) as nat,
    ));
}

/// Chunks in a row are asked for together, from the first to the last of them.
pub proof fn chunks_in_a_row_are_asked_for_together(
    indices: &[u64],
    first: u64,
    last: u64,
    r: Vec<ChunkRange>,
)
    requires
        first <= last,
        indices@ == Seq::new((last - first + 1) as nat, |i: int| (first + i) as u64),
        call_ensures(chunk_manager::coalesce_chunk_indices, (indices,), r),
    ensures
        r@.len() == 1,
        r@[0] == (ChunkRange { first, last }),
{
    chunk_manager::a_run_of_chunks_is_one_range(r@, first, last);
}

/// A span is split where chunks end, in order and without gaps.
pub proof fn spans_are_split_where_chunks_end(
    chunk_size: usize,
    lead: usize,
    len: usize,
    offset: u64,
    r: Vec<ChunkSlice>,
    i: int,
)
    requires
        lead < chunk_size,
        offset + len <= u64::MAX + 1,
        call_ensures(chunks::split_into_chunks, (chunk_size, lead, len, offset), r),
        0 <= i < r@.len(),
    ensures
        len > 0,
        r@[i].len > 0,
        r@[i].chunk_idx * chunk_size + r@[i].chunk_offset == lead + offset + r@[i].buf_offset,
        r@[i].chunk_offset + r@[i].len <= chunk_size,
        i == 0 ==> r@[i].buf_offset == 0,
        i + 1 < r@.len() ==> r@[i + 1].buf_offset == r@[i].buf_offset + r@[i].len,
        i + 1 == r@.len() ==> r@[i].buf_offset + r@[i].len == len,
{
    chunks::slices_are_the_span_in_order(
        chunk_size as nat,
        len as nat,
        (offset + lead) as nat,
        i,
    );
    chunks::only_empty_spans_have_no_slices(chunk_size as nat, len as nat, (offset + lead) as nat);
}

/// A scan reads ahead as far as it goes, up to a bound.
pub proof fn scans_read_as_far_as_they_go(first: u64, last: u64, chunk_size: usize, r: usize)
    requires
        first <= last,
        chunk_size > 0,
        call_ensures(chunks::scan_read_ahead_bytes, (first, last, chunk_size), r),
    ensures
        r == if (last - first + 1) * chunk_size <= 4194304 {
            (last - first + 1) * chunk_size
        } else {
            4194304
        },
{
    assert((last - first + 1) * chunk_size >= 1) by (nonlinear_arith)
        requires
            first <= last,
            chunk_size > 0,
    ;
    chunks::scans_read_ahead_within_bounds(first, last, chunk_size);
}

/// An answer that was taken is found under its key, and one that was not is not there.
pub proof fn taken_answers_are_there(
    got: &mut Reads,
    key: Vec<u8>,
    value: Option<Vec<u8>>,
    asked: &[u8],
    r: Option<&Option<Vec<u8>>>,
    scanned: &mut Reads,
    prefix: Vec<u8>,
    found: Vec<Vec<u8>>,
    under: &[u8],
    s: Option<&Vec<Vec<u8>>>,
)
    requires
        call_ensures(Reads::add_get, (got, key, value), ()),
        call_ensures(Reads::get, (&*final(got), asked), r),
        call_ensures(Reads::add_scan, (scanned, prefix, found), ()),
        call_ensures(Reads::scan, (&*final(scanned), under), s),
    ensures
        asked@ == key@ ==> (r matches Some(answer) && match value {
            Some(bytes) => *answer matches Some(read) && read@ == bytes@,
            None => *answer is None,
        }),
        asked@ != key@ ==> (r is Some <==> old(got).get_answer(asked@) is Some),
        under@ == prefix@ ==> (s matches Some(answer) && answer@.len() == found@.len() && (forall|
            i: int,
        |
            0 <= i < found@.len() ==> (#[trigger] answer@[i])@ == found@[i]@)),
        under@ != prefix@ ==> (s is Some <==> old(scanned).scan_answer(under@) is Some),
{
    if let Some(answer) = s {
        if under@ == prefix@ {
            let read = catalog::key_list(answer@);
            assert(read.len() == catalog::key_list(found@).len());
            assert forall|i: int| 0 <= i < found@.len() implies (#[trigger] answer@[i])@
                == found@[i]@ by {
                assert(read[i] == catalog::key_list(found@)[i]);
            }
        }
    }
}

/// A fetched chunk is found under its index.
pub proof fn fetched_chunks_are_there(
    looked_up: &mut FetchedChunks,
    index: u64,
    chunk: Vec<u8>,
    r: Option<&Vec<u8>>,
    listed: Vec<u64>,
)
    requires
        call_ensures(FetchedChunks::add_lookup, (looked_up, index, Some(chunk)), ()),
        call_ensures(FetchedChunks::get, (&*final(looked_up), index), r),
        call_ensures(FetchedChunks::indices, (&*final(looked_up),), listed),
    ensures
        r matches Some(read) && read@ == chunk@,
        index_map::ascending(listed@),
        listed@.contains(index),
{
}

/// A batch is full when no more reads fit, and what it asks for is what was queued.
pub proof fn batches_ask_for_what_was_queued(
    coalescer: &ReadCoalescer<u64>,
    led: bool,
    full: bool,
    batch: &Vec<Queued<u64>>,
    requests: Vec<ReadRequest>,
    i: int,
)
    requires
        call_ensures(ReadCoalescer::<u64>::is_led, (coalescer,), led),
        call_ensures(ReadCoalescer::<u64>::batch_is_full, (coalescer,), full),
        call_ensures(ReadCoalescer::<u64>::requests_of, (batch,), requests),
        0 <= i < batch@.len(),
    ensures
        led <==> coalescer@.leader_active,
        full <==> coalescer@.queue.len() >= MAX_BATCH_REQUESTS,
        requests@.len() == batch@.len(),
        requests@[i] == batch@[i].0,
{
}

/// A caller that just arrived is covered by no flush that has ended.
pub proof fn callers_wait_for_a_flush_of_their_own(
    batcher: &FlushBatcher,
    arrival: u64,
    covered: bool,
)
    requires
        batcher@.finished <= batcher@.started,
        call_ensures(FlushBatcher::arrive, (batcher,), arrival),
        call_ensures(FlushBatcher::covers, (batcher, arrival), covered),
    ensures
        !covered,
{
}

} // verus!
