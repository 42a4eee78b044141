//! Handle-level I/O matching DuckDB's `FileHandle`.
//!
//! A handle never touches the store. Where an operation needs stored bytes, one
//! call says what to fetch and the operation itself takes what came back.

use vstd::prelude::*;

use crate::batch;
use crate::batch::{Change, Mutation};
use crate::chunk_manager;
use crate::chunk_manager::{
    ChunkFetch, ChunkManager, ChunkManagerView, FetchedChunks, Stored, TruncateReads,
};
use crate::chunks;
use crate::chunks::lead_for;
use crate::error;
use crate::error::{Error, ErrorView, Result};
use crate::file_metadata;
use crate::file_metadata::FileMetadata;
use crate::flags;
use crate::flags::FileOpenFlags;
use crate::keys;
use crate::text;
use crate::text::{decimal_text, join2, join3};
use crate::util;
use crate::util::current_time_millis;

verus! {

/// Where errors say that they come from if they come from here.
pub const HERE: &'static str = "src/file_handle.rs";

/// What kind of SlateDB client a handle was opened through.
#[derive(Clone, Copy, Debug, PartialEq, Eq, Structural)]
pub enum SlateFileClient {
    ReadWrite,
    ReadOnly,
}

/// The error for a sync through a read-only client.
pub open spec fn read_only_sync_error(file_id: u64) -> ErrorView {
    error::read_only_error(
        "cannot sync file_id "@ + text::decimal(file_id as nat)
            + " through a read-only SlateDB client"@,
        HERE@,
    )
}

impl SlateFileClient {
    /// Rejects a client that cannot write.
    fn ensure_writer(&self, file_id: u64) -> (r: Result<()>)
        ensures
            r is Ok <==> *self == SlateFileClient::ReadWrite,
            r matches Err(e) ==> e@ == read_only_sync_error(file_id),
    {
        match self {
            SlateFileClient::ReadWrite => Ok(()),
            SlateFileClient::ReadOnly => Err(
                Error::read_only_violation(
                    join3(
                        "cannot sync file_id ",
                        decimal_text(file_id).as_str(),
                        " through a read-only SlateDB client",
                    ),
                    HERE,
                ),
            ),
        }
    }
}

/// How many of `len` bytes at `offset` lie before the end of a file of `size`
/// bytes.
pub open spec fn readable_bytes(size: nat, len: nat, offset: nat) -> nat {
    if offset >= size {
        0
    } else if size - offset < len {
        (size - offset) as nat
    } else {
        len
    }
}

/// Cuts a read of `len` bytes at `offset` off at the end of the file.
pub(crate) fn readable_len(size: u64, len: usize, offset: u64) -> (r: usize)
    ensures
        r == readable_bytes(size as nat, len as nat, offset as nat),
        r <= len,
        offset < size ==> offset + r <= size && (r == len || offset + r == size),
        offset >= size ==> r == 0,
{
    if offset >= size {
        0
    } else {
        // Never read past the end of the file.
        let rest: u64 = size - offset;
        if rest < len as u64 {
            rest as usize
        } else {
            len
        }
    }
}

/// What a handle knows.
#[verifier::ext_equal]
pub struct HandleState {
    pub client: SlateFileClient,
    pub file_id: u64,
    pub position: u64,
    pub size: u64,
    pub modified_at_ms: u64,
    pub chunk_base_offset: u64,
    pub chunks: ChunkManagerView,
    pub metadata_dirty: bool,
    pub flags: FileOpenFlags,
}

impl HandleState {
    /// Whether the staged chunks are this file's, can be told apart, and lie where
    /// the file's blocks start chunks.
    pub open spec fn wf(self) -> bool {
        &&& self.chunk_base_offset < self.chunks.chunk_size
        &&& self.chunks.lead == chunks::lead_of(
            self.chunks.chunk_size as nat,
            self.chunk_base_offset as nat,
        )
        &&& self.chunks.file_id == self.file_id
    }

    /// The byte at `pos` of the file, given its stored chunks.
    pub open spec fn byte(self, stored: Stored, pos: nat) -> u8 {
        chunk_manager::byte_at(
            self.chunks.chunk_size as nat,
            self.chunks.pending,
            stored,
            self.chunks.at(pos),
        )
    }

    /// How many bytes a read of up to `len` at `offset` gives: none past the
    /// end of the file.
    pub open spec fn readable(self, len: nat, offset: nat) -> nat {
        readable_bytes(self.size as nat, len, offset)
    }

    /// The record that is stored with the chunks.
    pub open spec fn metadata(self) -> FileMetadata {
        FileMetadata {
            size: self.size,
            modified_at_ms: self.modified_at_ms,
            chunk_size: self.chunks.chunk_size as u64,
            chunk_base_offset: self.chunk_base_offset,
        }
    }

    /// Whether there is anything to store.
    pub open spec fn changed(self) -> bool {
        self.metadata_dirty || exists|idx: u64| self.chunks.pending.contains_key(idx)
    }

    /// The file once its metadata changed at `now`.
    pub open spec fn touched(self, now: u64) -> HandleState {
        HandleState { modified_at_ms: now, metadata_dirty: true, ..self }
    }
}

/// Whether `fetches` ask for exactly what a read of `len` bytes at `offset`
/// needs from the store: the chunks with no staged change, adjacent ones
/// together.
pub open spec fn asks_for_read(
    fetches: Seq<ChunkFetch>,
    state: HandleState,
    len: nat,
    offset: nat,
) -> bool {
    let cs = state.chunks.chunk_size as nat;
    &&& chunk_manager::expanded(chunk_manager::fetch_ranges(fetches))
        == chunk_manager::missing_indices(
        state.chunks.pending,
        chunks::first_chunk(cs, state.chunks.at(offset)),
        chunks::end_chunk(cs, len, state.chunks.at(offset)),
    )
    &&& chunk_manager::proper_ranges(chunk_manager::fetch_ranges(fetches))
    &&& chunk_manager::no_adjacent_ranges(chunk_manager::fetch_ranges(fetches))
    &&& forall|i: int|
        0 <= i < fetches.len() ==> (#[trigger] fetches[i]).asks_for_its_chunks(
            state.file_id,
            state.chunks.chunk_size,
        )
}

/// Whether a buffer that held `before` now holds the first `n` bytes of the file
/// from `offset`, and behind them what it held.
pub open spec fn holds_read(
    after: Seq<u8>,
    before: Seq<u8>,
    state: HandleState,
    stored: Stored,
    n: nat,
    offset: nat,
) -> bool {
    &&& after.len() == before.len()
    &&& forall|i: int|
        0 <= i < after.len() ==> #[trigger] after[i] == if i < n {
            state.byte(stored, (offset + i) as nat)
        } else {
            before[i]
        }
}

/// What a sequential read does: gives the bytes from the handle's position on, up to
/// the end of the file, and moves the position past them, or refuses.
pub open spec fn read_outcome(
    before: HandleState,
    after: HandleState,
    buf_before: Seq<u8>,
    buf_after: Seq<u8>,
    known: Stored,
    r: Result<usize>,
) -> bool {
    let n = before.readable(buf_before.len(), before.position as nat);
    &&& r is Ok <==> (n == 0 || before.flags.read)
    &&& r matches Ok(count) ==> {
        &&& count == n
        &&& after == (HandleState { position: (before.position + n) as u64, ..before })
        &&& holds_read(buf_after, buf_before, before, known, n, before.position as nat)
    }
    &&& r matches Err(e) ==> {
        &&& after == before
        &&& buf_after == buf_before
        &&& e@ == flags::unreadable_error(before.file_id)
    }
}

/// How far a sequential write has come.
#[derive(Clone, Copy, Debug, PartialEq, Eq, Structural)]
pub enum WriteStep {
    /// The stored contents of this chunk are needed first.
    NeedsChunk(u64),
    /// All of these bytes are written.
    Written(usize),
}

/// Sequential and positional I/O, matching DuckDB's `FileHandle` methods.
pub trait FileHandle: Sized {
    /// What the handle knows.
    spec fn state(&self) -> HandleState;

    /// What to fetch before [`FileHandle::pread`].
    fn pread_fetches(&self, len: usize, offset: u64) -> (r: Result<Vec<ChunkFetch>>)
        requires
            self.state().wf(),
        ensures
            r is Ok <==> self.state().flags.read,
            r matches Ok(fetches) ==> asks_for_read(
                fetches@,
                self.state(),
                self.state().readable(len as nat, offset as nat),
                offset as nat,
            ),
            r matches Err(e) ==> e@ == flags::unreadable_error(self.state().file_id),
    ;

    /// Reads at `offset` without moving the file position.
    fn pread(&self, buf: &mut [u8], offset: u64, fetched: &FetchedChunks) -> (r: Result<usize>)
        requires
            self.state().wf(),
        ensures
            r is Ok <==> self.state().flags.read,
            r matches Ok(n) ==> n == self.state().readable(old(buf)@.len(), offset as nat)
                && holds_read(
                final(buf)@,
                old(buf)@,
                self.state(),
                fetched@,
                n as nat,
                offset as nat,
            ),
            r matches Ok(n) ==> if offset < self.state().size {
                n <= old(buf)@.len() && offset + n <= self.state().size && (n == old(buf)@.len()
                    || offset + n == self.state().size)
            } else {
                n == 0
            },
            r matches Err(e) ==> final(buf)@ == old(buf)@ && e@ == flags::unreadable_error(
                self.state().file_id,
            ),
    ;

    /// Writes at `offset` without moving the file position. Where the stored
    /// contents of a chunk are needed first, its index comes back.
    fn pwrite(&mut self, data: &[u8], offset: u64, fetched: &FetchedChunks) -> (r: Result<
        Option<u64>,
    >)
        requires
            old(self).state().wf(),
        ensures
            final(self).state().wf(),
            final(self).state().position == old(self).state().position,
            final(self).state().flags == old(self).state().flags,
            !old(self).state().flags.write ==> final(self).state() == old(self).state(),
            !old(self).state().flags.write ==> (r matches Err(e) && e@ == flags::unwritable_error(
                old(self).state().file_id,
            )),
    ;

    /// What to fetch before [`FileHandle::read`].
    fn read_fetches(&self, len: usize) -> (r: Result<Vec<ChunkFetch>>)
        requires
            self.state().wf(),
        ensures
            ({
                let n = self.state().readable(len as nat, self.state().position as nat);
                &&& r is Ok <==> (n == 0 || self.state().flags.read)
                &&& r matches Ok(fetches) ==> asks_for_read(
                    fetches@,
                    self.state(),
                    n,
                    self.state().position as nat,
                )
                &&& r matches Err(e) ==> e@ == flags::unreadable_error(self.state().file_id)
            }),
    ;

    /// Reads at the current position and advances it.
    fn read(&mut self, buf: &mut [u8], fetched: &FetchedChunks) -> (r: Result<usize>)
        requires
            old(self).state().wf(),
        ensures
            read_outcome(
                old(self).state(),
                final(self).state(),
                old(buf)@,
                final(buf)@,
                fetched@,
                r,
            ),
            r matches Ok(n) ==> if old(self).state().position < old(self).state().size {
                n <= old(buf)@.len() && old(self).state().position + n <= old(self).state().size
                    && (n == old(buf)@.len() || old(self).state().position + n == old(
                    self,
                ).state().size)
            } else {
                n == 0
            },
    ;

    /// Writes at the current position and advances it.
    fn write(&mut self, data: &[u8], fetched: &FetchedChunks) -> (r: Result<WriteStep>)
        requires
            old(self).state().wf(),
        ensures
            final(self).state().wf(),
            final(self).state().flags == old(self).state().flags,
            !old(self).state().flags.write ==> final(self).state() == old(self).state(),
            !old(self).state().flags.write ==> (r matches Err(e) && e@ == flags::unwritable_error(
                old(self).state().file_id,
            )),
    ;

    /// The dirty chunks and metadata as one batch, if there is anything to
    /// persist.
    fn sync_batch(&self) -> (r: Result<Option<Vec<Mutation>>>)
        requires
            self.state().wf(),
        ensures
            !self.state().changed() ==> r matches Ok(None),
    ;

    /// Notes that the batch of [`FileHandle::sync_batch`] is written and flushed.
    fn mark_synced(&mut self)
        requires
            old(self).state().wf(),
        ensures
            final(self).state().wf(),
            !final(self).state().changed(),
            final(self).state() == (HandleState {
                chunks: final(self).state().chunks,
                metadata_dirty: false,
                ..old(self).state()
            }),
    ;

    /// Sets the file position.
    fn seek(&mut self, position: u64)
        ensures
            final(self).state() == (HandleState { position, ..old(self).state() }),
    ;

    /// Returns the current file position.
    fn seek_position(&self) -> (r: u64)
        ensures
            r == self.state().position,
    ;

    /// Resets the file position to 0.
    fn reset(&mut self)
        ensures
            final(self).state() == (HandleState { position: 0, ..old(self).state() }),
    ;

    /// Returns the logical size, including unflushed writes.
    fn file_size(&self) -> (r: u64)
        ensures
            r == self.state().size,
    ;

    /// What to fetch before [`FileHandle::truncate`], if anything.
    fn truncate_reads(&self, new_size: u64) -> (r: Result<Option<TruncateReads>>)
        requires
            self.state().wf(),
        ensures
            !self.state().flags.write ==> r is Err,
            r matches Err(e) ==> e@ == flags::unwritable_error(self.state().file_id),
    ;

    /// Shrinks or grows the file to `new_size` bytes.
    fn truncate(
        &mut self,
        new_size: u64,
        stored_last: Option<Vec<u8>>,
        stored_keys: &[Vec<u8>],
    ) -> (r: Result<()>)
        requires
            old(self).state().wf(),
        ensures
            final(self).state().wf(),
            final(self).state().position == old(self).state().position,
            final(self).state().flags == old(self).state().flags,
            r is Err ==> final(self).state() == old(self).state(),
            !old(self).state().flags.write ==> (r matches Err(e) && e@ == flags::unwritable_error(
                old(self).state().file_id,
            )),
    ;

    /// Last modification time in epoch milliseconds.
    fn get_last_modified_time(&self) -> (r: u64)
        ensures
            r == self.state().modified_at_ms,
    ;

    /// The file's ID.
    fn file_id(&self) -> (r: u64)
        ensures
            r == self.state().file_id,
    ;

    /// The flags the handle was opened with.
    fn flags(&self) -> (r: FileOpenFlags)
        ensures
            r == self.state().flags,
    ;
}

/// A handle that stages writes until they are synced.
#[derive(Debug)]
pub struct SlateFileHandle {
    client: SlateFileClient,
    file_id: u64,
    position: u64,
    size: u64,
    modified_at_ms: u64,
    chunk_base_offset: u64,
    chunks: ChunkManager,
    metadata_dirty: bool,
    flags: FileOpenFlags,
}

/// Why a handle cannot be opened, if it cannot.
pub open spec fn open_error(
    client: SlateFileClient,
    file_id: u64,
    metadata: FileMetadata,
    flags: FileOpenFlags,
) -> Option<ErrorView> {
    if flags::flags_complaint(flags) is Some {
        Some(flags::flags_error(flags::flags_complaint(flags)->0))
    } else if client == SlateFileClient::ReadOnly && !flags.read {
        Some(flags::unreadable_error(file_id))
    } else if client == SlateFileClient::ReadOnly && flags.write {
        Some(
            error::read_only_error(
                "read-only SlateDB filesystem cannot create a writable file handle"@,
                HERE@,
            ),
        )
    } else {
        match file_metadata::chunk_size_complaint(metadata, file_id) {
            Some(complaint) => Some(error::invalid_argument_error(complaint, file_metadata::HERE@)),
            None => None,
        }
    }
}

/// A handle as it is opened: at the start of the file, or at its end to append.
pub open spec fn opened(
    client: SlateFileClient,
    file_id: u64,
    metadata: FileMetadata,
    flags: FileOpenFlags,
) -> HandleState {
    HandleState {
        client,
        file_id,
        position: if flags.append {
            metadata.size
        } else {
            0
        },
        size: metadata.size,
        modified_at_ms: metadata.modified_at_ms,
        chunk_base_offset: metadata.chunk_base_offset,
        chunks: ChunkManagerView {
            file_id,
            chunk_size: metadata.chunk_size as usize,
            lead: chunks::lead_of(
                metadata.chunk_size as nat,
                metadata.chunk_base_offset as nat,
            ) as usize,
            pending: Map::empty(),
        },
        metadata_dirty: false,
        flags,
    }
}

/// The error for a write past the largest offset there is.
pub open spec fn write_overflow_error(file_id: u64) -> ErrorView {
    error::invalid_argument_error(
        "write overflow for file_id "@ + text::decimal(file_id as nat),
        HERE@,
    )
}

/// What one call of a positional write does to a handle: refuses, stages some of
/// `data` and asks for a chunk, or stages all of it and grows the file.
pub open spec fn pwrite_outcome(
    before: HandleState,
    after: HandleState,
    data: Seq<u8>,
    offset: nat,
    known: Stored,
    r: Result<Option<u64>>,
) -> bool {
    let cs = before.chunks.chunk_size as nat;
    let at = before.chunks.at(offset);
    let first = chunks::first_chunk(cs, at);
    let end = chunks::end_chunk(cs, data.len(), at);
    if !before.flags.write {
        after == before && (r matches Err(e) && e@ == flags::unwritable_error(before.file_id))
    } else if data.len() == 0 {
        after == before && r matches Ok(None)
    } else if offset + data.len() > u64::MAX {
        after == before && (r matches Err(e) && e@ == write_overflow_error(before.file_id))
    } else {
        match r {
            Err(_) => false,
            Ok(Some(idx)) => {
                &&& first <= idx < end
                &&& chunk_manager::needs_stored(
                    cs,
                    before.chunks.pending,
                    known,
                    data.len(),
                    at,
                    idx as nat,
                )
                &&& forall|k: nat|
                    first <= k < idx ==> !(#[trigger] chunk_manager::needs_stored(
                        cs,
                        before.chunks.pending,
                        known,
                        data.len(),
                        at,
                        k,
                    ))
                &&& after == (HandleState {
                    chunks: ChunkManagerView {
                        pending: chunk_manager::staged(
                            cs,
                            before.chunks.pending,
                            known,
                            data,
                            at,
                            idx as nat,
                        ),
                        ..before.chunks
                    },
                    ..before
                })
            },
            Ok(None) => {
                &&& util::is_clock_time(after.modified_at_ms)
                &&& forall|k: nat|
                    first <= k < end ==> !(#[trigger] chunk_manager::needs_stored(
                        cs,
                        before.chunks.pending,
                        known,
                        data.len(),
                        at,
                        k,
                    ))
                &&& after == (HandleState {
                    size: if offset + data.len() > before.size {
                        (offset + data.len()) as u64
                    } else {
                        before.size
                    },
                    modified_at_ms: after.modified_at_ms,
                    metadata_dirty: true,
                    chunks: ChunkManagerView {
                        pending: chunk_manager::staged(
                            cs,
                            before.chunks.pending,
                            known,
                            data,
                            at,
                            end,
                        ),
                        ..before.chunks
                    },
                    ..before
                })
            },
        }
    }
}

/// Where a sequential write goes.
pub open spec fn write_offset(state: HandleState) -> u64 {
    if state.flags.append {
        state.size
    } else {
        state.position
    }
}

/// What one call of a sequential write does: what a positional write at the handle's
/// place does, and once all of `data` is staged the position lies just past it.
pub open spec fn write_outcome(
    before: HandleState,
    after: HandleState,
    data: Seq<u8>,
    known: Stored,
    r: Result<WriteStep>,
) -> bool {
    let offset = write_offset(before);
    match r {
        Ok(WriteStep::Written(n)) => {
            &&& n == data.len()
            &&& after.position == offset + n
            &&& pwrite_outcome(
                before,
                HandleState { position: before.position, ..after },
                data,
                offset as nat,
                known,
                Ok(None),
            )
        },
        Ok(WriteStep::NeedsChunk(idx)) => pwrite_outcome(
            before,
            after,
            data,
            offset as nat,
            known,
            Ok(Some(idx)),
        ),
        Err(e) => pwrite_outcome(before, after, data, offset as nat, known, Err(e)),
    }
}

/// What a truncation does: refuses, or makes the file `new_size` bytes long, given
/// what the store has under the last chunk and the keys of the file's chunks.
pub open spec fn truncate_outcome(
    before: HandleState,
    after: HandleState,
    new_size: u64,
    stored_last: Seq<u8>,
    stored_keys: Seq<Vec<u8>>,
    r: Result<()>,
) -> bool {
    let cs = before.chunks.chunk_size as nat;
    let end = before.chunks.end_at(new_size as nat);
    let bad = chunk_manager::first_bad_key(stored_keys);
    if !before.flags.write {
        after == before && (r matches Err(e) && e@ == flags::unwritable_error(before.file_id))
    } else if new_size == before.size {
        r is Ok && after == before
    } else if new_size > before.size {
        r is Ok && util::is_clock_time(after.modified_at_ms) && after == (HandleState {
            size: new_size,
            ..before
        }).touched(after.modified_at_ms)
    } else if bad == stored_keys.len() {
        r is Ok && util::is_clock_time(after.modified_at_ms) && after == (HandleState {
            size: new_size,
            chunks: ChunkManagerView {
                pending: chunk_manager::truncated(
                    cs,
                    before.chunks.pending,
                    stored_last,
                    chunk_manager::indices_from(
                        stored_keys,
                        chunk_manager::first_dropped(cs, end),
                    ),
                    end,
                ),
                ..before.chunks
            },
            ..before
        }).touched(after.modified_at_ms)
    } else {
        after == before && (r matches Err(e) && e@.source is Some && e@ == (ErrorView {
            source: e@.source,
            ..error::metadata_decode_error(
                keys::chunk_key_complaint(stored_keys[bad]@),
                keys::HERE@,
            )
        }))
    }
}

/// The writes that syncing a handle comes to: its staged chunks in the order
/// given, and its metadata last.
pub open spec fn sync_changes(state: HandleState, order: Seq<u64>) -> Seq<Change> {
    chunk_manager::pending_changes(state.file_id, state.chunks.pending, order).push(
        Change::Put(
            keys::metadata_key_bytes(state.file_id),
            file_metadata::encoded(state.metadata()),
        ),
    )
}

impl SlateFileHandle {
    /// Opens a handle over an existing metadata record.
    pub fn new(
        client: SlateFileClient,
        file_id: u64,
        metadata: FileMetadata,
        flags: FileOpenFlags,
    ) -> (r: Result<Self>)
        ensures
            r is Ok <==> open_error(client, file_id, metadata, flags) is None,
            r matches Ok(handle) ==> handle.state() == opened(client, file_id, metadata, flags)
                && handle.state().wf(),
            r matches Err(e) ==> Some(e@) == open_error(client, file_id, metadata, flags),
    {
        match flags.validate() {
            Ok(()) => {},
            Err(error) => {
                return Err(error);
            },
        }
        match client {
            SlateFileClient::ReadOnly => {
                match flags.ensure_readable(file_id) {
                    Ok(()) => {},
                    Err(error) => {
                        return Err(error);
                    },
                }
                if flags.write {
                    return Err(
                        Error::read_only_violation(
                            "read-only SlateDB filesystem cannot create a writable file handle".to_string(),
                            HERE,
                        ),
                    );
                }
            },
            SlateFileClient::ReadWrite => {},
        }
        let chunk_size = match metadata.validated_chunk_size(file_id) {
            Ok(chunk_size) => chunk_size,
            Err(error) => {
                return Err(error);
            },
        };
        let position: u64 = if flags.append {
            metadata.size
        } else {
            0
        };
        let lead = lead_for(chunk_size, metadata.chunk_base_offset);
        Ok(
            SlateFileHandle {
                client,
                file_id,
                position,
                size: metadata.size,
                modified_at_ms: metadata.modified_at_ms,
                chunk_base_offset: metadata.chunk_base_offset,
                chunks: ChunkManager::with_lead(file_id, chunk_size, lead),
                metadata_dirty: false,
                flags,
            },
        )
    }

    /// Records that the file changed at `now`.
    fn set_metadata_dirty_at(&mut self, now: u64)
        ensures
            final(self).state() == old(self).state().touched(now),
    {
        self.modified_at_ms = now;
        self.metadata_dirty = true;
    }

    fn set_metadata_dirty(&mut self)
        ensures
            util::is_clock_time(final(self).state().modified_at_ms),
            final(self).state() == old(self).state().touched(final(self).state().modified_at_ms),
    {
        self.set_metadata_dirty_at(current_time_millis());
    }

    fn metadata(&self) -> (r: FileMetadata)
        requires
            self.state().wf(),
        ensures
            r == self.state().metadata(),
    {
        FileMetadata {
            size: self.size,
            modified_at_ms: self.modified_at_ms,
            chunk_size: self.chunks.chunk_size(),
            chunk_base_offset: self.chunk_base_offset,
        }
    }

    fn write_overflow(&self) -> (r: Error)
        ensures
            r@ == write_overflow_error(self.state().file_id),
    {
        Error::invalid_argument(
            join2("write overflow for file_id ", decimal_text(self.file_id).as_str()),
            HERE,
        )
    }
}

impl FileHandle for SlateFileHandle {
    closed spec fn state(&self) -> HandleState {
        HandleState {
            client: self.client,
            file_id: self.file_id,
            position: self.position,
            size: self.size,
            modified_at_ms: self.modified_at_ms,
            chunk_base_offset: self.chunk_base_offset,
            chunks: self.chunks@,
            metadata_dirty: self.metadata_dirty,
            flags: self.flags,
        }
    }

    fn pread_fetches(&self, len: usize, offset: u64) -> Result<Vec<ChunkFetch>> {
        match self.flags.ensure_readable(self.file_id) {
            Ok(()) => {},
            Err(error) => {
                return Err(error);
            },
        }
        let n = readable_len(self.size, len, offset);
        if n == 0 {
            let none: Vec<ChunkFetch> = Vec::new();
            proof {
                assert(chunk_manager::fetch_ranges(none@) =~= Seq::empty());
            }
            return Ok(none);
        }
        Ok(self.chunks.read_fetches(n, offset))
    }

    fn pread(&self, buf: &mut [u8], offset: u64, fetched: &FetchedChunks) -> Result<usize> {
        match self.flags.ensure_readable(self.file_id) {
            Ok(()) => {},
            Err(error) => {
                return Err(error);
            },
        }
        let n = readable_len(self.size, buf.len(), offset);
        if n == 0 {
            return Ok(0);
        }
        let (head, tail) = buf.split_at_mut(n);
        self.chunks.read(head, offset, fetched);
        Ok(n)
    }

    fn pwrite(&mut self, data: &[u8], offset: u64, fetched: &FetchedChunks) -> (r: Result<
        Option<u64>,
    >)
        ensures
            pwrite_outcome(
                old(self).state(),
                final(self).state(),
                data@,
                offset as nat,
                fetched@,
                r,
            ),
    {
        match self.flags.ensure_writable(self.file_id) {
            Ok(()) => {},
            Err(error) => {
                return Err(error);
            },
        }
        if data.len() == 0 {
            return Ok(None);
        }
        let end_offset: u64 = match offset.checked_add(data.len() as u64) {
            Some(end_offset) => end_offset,
            None => {
                return Err(self.write_overflow());
            },
        };
        if let Some(idx) = self.chunks.write(data, offset, fetched) {
            return Ok(Some(idx));
        }
        if end_offset > self.size {
            self.size = end_offset;
        }
        self.set_metadata_dirty();
        Ok(None)
    }

    fn read_fetches(&self, len: usize) -> Result<Vec<ChunkFetch>> {
        let n = readable_len(self.size, len, self.position);
        if n == 0 {
            let none: Vec<ChunkFetch> = Vec::new();
            proof {
                assert(chunk_manager::fetch_ranges(none@) =~= Seq::empty());
            }
            return Ok(none);
        }
        self.pread_fetches(n, self.position)
    }

    fn read(&mut self, buf: &mut [u8], fetched: &FetchedChunks) -> Result<usize> {
        let n = readable_len(self.size, buf.len(), self.position);
        if n == 0 {
            return Ok(0);
        }
        match self.pread(buf, self.position, fetched) {
            Ok(bytes_read) => {
                self.position = self.position + bytes_read as u64;
                Ok(bytes_read)
            },
            Err(error) => Err(error),
        }
    }

    fn write(&mut self, data: &[u8], fetched: &FetchedChunks) -> (r: Result<WriteStep>)
        ensures
            write_outcome(old(self).state(), final(self).state(), data@, fetched@, r),
    {
        let offset: u64 = if self.flags.append {
            self.size
        } else {
            self.position
        };
        match self.pwrite(data, offset, fetched) {
            Ok(Some(idx)) => Ok(WriteStep::NeedsChunk(idx)),
            Ok(None) => {
                let ghost written = self.state();
                self.position = offset + data.len() as u64;
                proof {
                    assert((HandleState { position: old(self).state().position, ..self.state() })
                        == written);
                }
                Ok(WriteStep::Written(data.len()))
            },
            Err(error) => Err(error),
        }
    }

    fn sync_batch(&self) -> (r: Result<Option<Vec<Mutation>>>)
        ensures
            r matches Ok(None) <==> !self.state().changed(),
            r is Err <==> (self.state().changed() && self.state().client
                == SlateFileClient::ReadOnly),
            r matches Err(e) ==> e@ == read_only_sync_error(self.state().file_id),
            r matches Ok(Some(batch)) ==> exists|order: Seq<u64>| #[trigger]
                chunk_manager::lists_pending(order, self.state().chunks.pending)
                    && batch::changes_of(batch@) == sync_changes(self.state(), order),
    {
        if !self.chunks.has_pending_changes() && !self.metadata_dirty {
            return Ok(None);
        }
        // One batch, so a reader never sees a size its chunks do not back.

        let mut batch: Vec<Mutation> = Vec::new();
        self.chunks.add_pending_to_batch(&mut batch);
        let ghost staged = batch@;
        let ghost order = choose|order: Seq<u64>| #[trigger]
            chunk_manager::lists_pending(order, self.chunks@.pending) && batch::changes_of(staged)
                == batch::changes_of(Seq::empty()) + chunk_manager::pending_changes(
                self.chunks@.file_id,
                self.chunks@.pending,
                order,
            );
        let record = Mutation::Put {
            key: keys::metadata_key(self.file_id),
            value: self.metadata().encode_to_bytes(),
        };
        batch.push(record);
        proof {
            assert(batch::changes_of(batch@) =~= batch::changes_of(staged).push(record@));
            assert(batch::changes_of(batch@) =~= sync_changes(self.state(), order));
        }
        match self.client.ensure_writer(self.file_id) {
            Ok(()) => Ok(Some(batch)),
            Err(error) => Err(error),
        }
    }

    fn mark_synced(&mut self)
        ensures
            final(self).state() == (HandleState {
                chunks: ChunkManagerView { pending: Map::empty(), ..old(self).state().chunks },
                metadata_dirty: false,
                ..old(self).state()
            }),
    {
        self.chunks.mark_flushed();
        self.metadata_dirty = false;
    }

    fn seek(&mut self, position: u64) {
        self.position = position;
    }

    fn seek_position(&self) -> u64 {
        self.position
    }

    fn reset(&mut self) {
        self.position = 0;
    }

    fn file_size(&self) -> u64 {
        self.size
    }

    fn truncate_reads(&self, new_size: u64) -> (r: Result<Option<TruncateReads>>)
        ensures
            r is Ok <==> self.state().flags.write,
            r matches Ok(reads) ==> {
                let state = self.state();
                let last = chunk_manager::last_chunk_of(
                    state.chunks.chunk_size as nat,
                    state.chunks.end_at(new_size as nat),
                ) as u64;
                &&& reads is Some <==> new_size < state.size
                &&& reads matches Some(wanted) ==> {
                    &&& wanted.prefix@ == keys::chunk_prefix_bytes(state.file_id)
                    &&& wanted.last_chunk_key is Some <==> new_size > 0
                        && !state.chunks.pending.contains_key(last)
                    &&& wanted.last_chunk_key matches Some(key) ==> key@ == keys::chunk_key_bytes(
                        state.file_id,
                        last,
                    )
                }
            },
    {
        match self.flags.ensure_writable(self.file_id) {
            Ok(()) => {},
            Err(error) => {
                return Err(error);
            },
        }
        // Growing needs no chunk work: the new bytes read as zeroes.
        if new_size < self.size {
            Ok(Some(self.chunks.truncate_reads(new_size)))
        } else {
            Ok(None)
        }
    }

    fn truncate(
        &mut self,
        new_size: u64,
        stored_last: Option<Vec<u8>>,
        stored_keys: &[Vec<u8>],
    ) -> (r: Result<()>)
        ensures
            truncate_outcome(
                old(self).state(),
                final(self).state(),
                new_size,
                chunk_manager::contents_of(stored_last),
                stored_keys@,
                r,
            ),
    {
        match self.flags.ensure_writable(self.file_id) {
            Ok(()) => {},
            Err(error) => {
                return Err(error);
            },
        }
        if new_size == self.size {
            return Ok(());
        }
        if new_size < self.size {
            match self.chunks.truncate(new_size, stored_last, stored_keys) {
                Ok(()) => {},
                Err(error) => {
                    return Err(error);
                },
            }
        }
        self.size = new_size;
        self.set_metadata_dirty();
        Ok(())
    }

    fn get_last_modified_time(&self) -> u64 {
        self.modified_at_ms
    }

    fn file_id(&self) -> u64 {
        self.file_id
    }

    fn flags(&self) -> FileOpenFlags {
        self.flags
    }
}

} // verus!
