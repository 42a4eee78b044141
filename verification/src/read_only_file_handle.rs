//! Read-only handle over SlateDB's read-only client.

use vstd::prelude::*;

use crate::batch::Mutation;
use crate::chunk_manager;
use crate::chunk_manager::{
    ChunkFetch, ChunkManager, ChunkManagerView, FetchedChunks, TruncateReads,
};
use crate::chunks::lead_for;
use crate::error;
use crate::error::{ErrorView, Result};
use crate::file_handle;
use crate::file_handle::{readable_len, FileHandle, HandleState, SlateFileClient, WriteStep};
use crate::file_metadata;
use crate::file_metadata::FileMetadata;
use crate::flags;
use crate::flags::{unwritable, FileOpenFlags};

verus! {

/// A handle that never stages anything.
#[derive(Debug)]
pub struct SlateReadOnlyFileHandle {
    file_id: u64,
    position: u64,
    size: u64,
    modified_at_ms: u64,
    chunk_base_offset: u64,
    chunks: ChunkManager,
    flags: FileOpenFlags,
}

/// Why a read-only handle cannot be opened, if it cannot.
pub open spec fn read_only_open_error(
    file_id: u64,
    metadata: FileMetadata,
    flags: FileOpenFlags,
) -> Option<ErrorView> {
    if flags::flags_complaint(flags) is Some {
        Some(flags::flags_error(flags::flags_complaint(flags)->0))
    } else if !flags.read {
        Some(flags::unreadable_error(file_id))
    } else {
        match file_metadata::chunk_size_complaint(metadata, file_id) {
            Some(complaint) => Some(error::invalid_argument_error(complaint, file_metadata::HERE@)),
            None => None,
        }
    }
}

impl SlateReadOnlyFileHandle {
    /// Opens a handle over an existing metadata record, at the start of the file.
    pub fn new(file_id: u64, metadata: FileMetadata, flags: FileOpenFlags) -> (r: Result<Self>)
        ensures
            r is Ok <==> read_only_open_error(file_id, metadata, flags) is None,
            r matches Ok(handle) ==> handle.state().wf() && handle.state() == (HandleState {
                position: 0,
                ..file_handle::opened(SlateFileClient::ReadOnly, file_id, metadata, flags)
            }),
            r matches Err(e) ==> Some(e@) == read_only_open_error(file_id, metadata, flags),
    {
        match flags.validate() {
            Ok(()) => {},
            Err(error) => {
                return Err(error);
            },
        }
        match flags.ensure_readable(file_id) {
            Ok(()) => {},
            Err(error) => {
                return Err(error);
            },
        }
        let chunk_size = match metadata.validated_chunk_size(file_id) {
            Ok(chunk_size) => chunk_size,
            Err(error) => {
                return Err(error);
            },
        };
        let lead = lead_for(chunk_size, metadata.chunk_base_offset);
        Ok(
            SlateReadOnlyFileHandle {
                file_id,
                position: 0,
                size: metadata.size,
                modified_at_ms: metadata.modified_at_ms,
                chunk_base_offset: metadata.chunk_base_offset,
                chunks: ChunkManager::with_lead(file_id, chunk_size, lead),
                flags,
            },
        )
    }
}

impl FileHandle for SlateReadOnlyFileHandle {
    closed spec fn state(&self) -> HandleState {
        HandleState {
            client: SlateFileClient::ReadOnly,
            file_id: self.file_id,
            position: self.position,
            size: self.size,
            modified_at_ms: self.modified_at_ms,
            chunk_base_offset: self.chunk_base_offset,
            chunks: self.chunks@,
            metadata_dirty: false,
            flags: self.flags,
        }
    }

    fn pread_fetches(&self, len: usize, offset: u64) -> Result<Vec<ChunkFetch>> {
        match self.flags.ensure_readable(self.file_id) {
            Ok(()) => {},
            Err(error) => {
                return Err(error);
            },
        }
        let n = readable_len(self.size, len, offset);
        if n == 0 {
            let none: Vec<ChunkFetch> = Vec::new();
            proof {
                assert(chunk_manager::fetch_ranges(none@) =~= Seq::empty());
            }
            return Ok(none);
        }
        Ok(self.chunks.read_fetches(n, offset))
    }

    fn pread(&self, buf: &mut [u8], offset: u64, fetched: &FetchedChunks) -> Result<usize> {
        match self.flags.ensure_readable(self.file_id) {
            Ok(()) => {},
            Err(error) => {
                return Err(error);
            },
        }
        let n = readable_len(self.size, buf.len(), offset);
        if n == 0 {
            return Ok(0);
        }
        let (head, tail) = buf.split_at_mut(n);
        self.chunks.read(head, offset, fetched);
        Ok(n)
    }

    /// Refuses, whatever the flags ask for.
    fn pwrite(&mut self, data: &[u8], offset: u64, fetched: &FetchedChunks) -> (r: Result<
        Option<u64>,
    >)
        ensures
            final(self).state() == old(self).state(),
            r matches Err(e) && e@ == flags::unwritable_error(old(self).state().file_id),
    {
        Err(unwritable(self.file_id))
    }

    fn read_fetches(&self, len: usize) -> Result<Vec<ChunkFetch>> {
        let n = readable_len(self.size, len, self.position);
        if n == 0 {
            let none: Vec<ChunkFetch> = Vec::new();
            proof {
                assert(chunk_manager::fetch_ranges(none@) =~= Seq::empty());
            }
            return Ok(none);
        }
        self.pread_fetches(n, self.position)
    }

    fn read(&mut self, buf: &mut [u8], fetched: &FetchedChunks) -> Result<usize> {
        let n = readable_len(self.size, buf.len(), self.position);
        if n == 0 {
            return Ok(0);
        }
        match self.pread(buf, self.position, fetched) {
            Ok(bytes_read) => {
                self.position = self.position + bytes_read as u64;
                Ok(bytes_read)
            },
            Err(error) => Err(error),
        }
    }

    /// Refuses, whatever the flags ask for.
    fn write(&mut self, data: &[u8], fetched: &FetchedChunks) -> (r: Result<WriteStep>)
        ensures
            final(self).state() == old(self).state(),
            r matches Err(e) && e@ == flags::unwritable_error(old(self).state().file_id),
    {
        Err(unwritable(self.file_id))
    }

    fn sync_batch(&self) -> (r: Result<Option<Vec<Mutation>>>)
        ensures
            r matches Ok(None),
    {
        Ok(None)
    }

    fn mark_synced(&mut self)
        ensures
            final(self).state() == (HandleState {
                chunks: ChunkManagerView { pending: Map::empty(), ..old(self).state().chunks },
                ..old(self).state()
            }),
    {
        self.chunks.mark_flushed();
    }

    fn seek(&mut self, position: u64) {
        self.position = position;
    }

    fn seek_position(&self) -> u64 {
        self.position
    }

    fn reset(&mut self) {
        self.position = 0;
    }

    fn file_size(&self) -> u64 {
        self.size
    }

    /// Refuses, whatever the flags ask for.
    fn truncate_reads(&self, new_size: u64) -> (r: Result<Option<TruncateReads>>)
        ensures
            r matches Err(e) && e@ == flags::unwritable_error(self.state().file_id),
    {
        Err(unwritable(self.file_id))
    }

    /// Refuses, whatever the flags ask for.
    fn truncate(
        &mut self,
        new_size: u64,
        stored_last: Option<Vec<u8>>,
        stored_keys: &[Vec<u8>],
    ) -> (r: Result<()>)
        ensures
            final(self).state() == old(self).state(),
            r matches Err(e) && e@ == flags::unwritable_error(old(self).state().file_id),
    {
        Err(unwritable(self.file_id))
    }

    fn get_last_modified_time(&self) -> u64 {
        self.modified_at_ms
    }

    fn file_id(&self) -> u64 {
        self.file_id
    }

    fn flags(&self) -> FileOpenFlags {
        self.flags
    }
}

/// A read-only handle is refused exactly if its flags make no sense, do not ask for
/// reading, or the record's chunks cannot be told apart.
pub proof fn read_only_handles_open_unless_something_is_wrong(
    file_id: u64,
    metadata: FileMetadata,
    flags: FileOpenFlags,
)
    ensures
        read_only_open_error(file_id, metadata, flags) is None <==> {
            &&& flags.read
            &&& flags.create || flags.append ==> flags.write
            &&& flags.truncate_existing ==> flags.create
            &&& 0 < metadata.chunk_size <= usize::MAX
            &&& metadata.chunk_base_offset < metadata.chunk_size
        },
{
}

} // verus!
