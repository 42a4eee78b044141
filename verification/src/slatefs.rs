//! Filesystem-level operations over a SlateDB instance.
//!
//! A logical file is three key families: a path mapping `p/<path>` naming a
//! file id, a metadata record `m/<file_id>`, and the chunks `c/<file_id>/...`
//! that hold its bytes. Indirecting through a file id is what lets a rename
//! rebind a path without touching the data.

use vstd::prelude::*;

use crate::batch;
use crate::batch::{Change, Mutation, Store};
use crate::catalog;
use crate::catalog::{
    delete_keys, push_delete, push_put, same_bytes, Plan, ReadRequest, Reads, Step, Wanted,
};
use crate::catalog_laws;
use crate::chunk_manager;
use crate::database_metadata;
use crate::database_metadata::{ResolvedFile, Resolution};
use crate::error;
use crate::error::{Error, ErrorView, Result};
use crate::file_handle;
use crate::file_handle::{FileHandle, HandleState, SlateFileClient, SlateFileHandle};
use crate::file_metadata;
use crate::file_metadata::FileMetadata;
use crate::flags::FileOpenFlags;
use crate::ids;
use crate::ids::{id_from_le_bytes, id_to_le_bytes, IdForm};
use crate::keys;
use crate::text;
use crate::text::{decimal_text, join2, join3};
use crate::util;

verus! {

/// Where errors say that they come from if they come from here.
pub const HERE: &'static str = "src/slatefs.rs";

/// The error for an empty path of some kind.
pub open spec fn empty_path_error(kind: Seq<char>) -> ErrorView {
    error::invalid_argument_error(kind + " path must not be empty"@, HERE@)
}

fn validate_path(path: &str, kind: &str) -> (r: Result<()>)
    ensures
        r is Ok <==> path@.len() > 0,
        r matches Err(e) ==> e@ == empty_path_error(kind@),
{
    if path.is_empty() {
        return Err(Error::invalid_argument(join2(kind, " path must not be empty"), HERE));
    }
    Ok(())
}

/// The error for a field that is no file id.
pub open spec fn bad_id_error(bytes: Seq<u8>, field: Seq<char>) -> ErrorView {
    error::metadata_decode_error(
        "invalid "@ + field + " payload: expected 8 bytes, found "@ + text::decimal(bytes.len()),
        HERE@,
    )
}

/// The file id that a record holds, where it holds one.
pub open spec fn id_in(bytes: Seq<u8>) -> Option<u64> {
    ids::id_held(IdForm::LittleEndian, bytes)
}

/// Reads a file id that was stored least significant byte first.
pub fn decode_file_id(bytes: &[u8], field: &str) -> (r: Result<u64>)
    ensures
        r is Ok <==> id_in(bytes@) is Some,
        r matches Ok(file_id) ==> id_in(bytes@) == Some(file_id),
        r matches Err(e) ==> e@ == bad_id_error(bytes@, field@),
{
    if bytes.len() != 8 {
        let mut message = join3("invalid ", field, " payload: expected 8 bytes, found ");
        message.append(decimal_text(bytes.len() as u64).as_str());
        return Err(Error::metadata_decode(message, HERE));
    }
    Ok(id_from_le_bytes(bytes))
}

/// What looking a path up comes to: the file it names, if any.
pub open spec fn lookup_plan(path: Seq<char>, reads: Reads) -> Plan<Option<u64>> {
    let key = keys::path_key_bytes(path);
    match reads.get_answer(key) {
        None => Plan::Read(Wanted::Get(key)),
        Some(None) => Plan::Done(None),
        Some(Some(bytes)) => match id_in(bytes) {
            None => Plan::Fail(bad_id_error(bytes, "path mapping"@)),
            Some(id) => Plan::Done(Some(id)),
        },
    }
}

/// What asking for a path comes to.
pub open spec fn exists_plan(path: Seq<char>, reads: Reads) -> Plan<bool> {
    let key = keys::path_key_bytes(path);
    if path.len() == 0 {
        Plan::Fail(empty_path_error("file"@))
    } else {
        match reads.get_answer(key) {
            None => Plan::Read(Wanted::Get(key)),
            Some(answer) => Plan::Done(answer is Some),
        }
    }
}

/// What creating a path comes to: the bumped counter, the mapping and a fresh
/// record.
pub open spec fn create_plan(path: Seq<char>, reads: Reads, now: u64) -> Plan<Resolution> {
    let counter_key = keys::next_file_id_key_bytes();
    match reads.get_answer(counter_key) {
        None => Plan::Read(Wanted::Get(counter_key)),
        Some(answer) => match (match answer {
            None => Some(1u64),
            Some(bytes) => id_in(bytes),
        }) {
            None => Plan::Fail(bad_id_error(answer->0, "next file id"@)),
            Some(id) => if id == u64::MAX {
                Plan::Fail(error::invalid_argument_error("file ids are exhausted"@, HERE@))
            } else {
                let metadata = file_metadata::fresh(now);
                Plan::Done(
                    Resolution {
                        file_id: id,
                        metadata,
                        changes: seq![
                            Change::Put(counter_key, ids::le_id((id + 1) as u64)),
                            Change::Put(keys::path_key_bytes(path), ids::le_id(id)),
                            Change::Put(
                                keys::metadata_key_bytes(id),
                                file_metadata::encoded(metadata),
                            ),
                        ],
                    },
                )
            },
        },
    }
}

/// The access that opening grants: a file that is to be cleared, and may be written,
/// is also created where it is missing.
pub open spec fn granted(flags: FileOpenFlags) -> FileOpenFlags {
    FileOpenFlags { create: flags.create || flags.truncate_existing && flags.write, ..flags }
}

fn grant(flags: FileOpenFlags) -> (r: FileOpenFlags)
    ensures
        r == granted(flags),
{
    FileOpenFlags { create: flags.create || flags.truncate_existing && flags.write, ..flags }
}

/// What resolving a path comes to: the file it names with its record, or a new
/// one where the flags allow.
pub open spec fn resolve_plan(
    path: Seq<char>,
    flags: FileOpenFlags,
    reads: Reads,
    now: u64,
) -> Plan<Resolution> {
    if path.len() == 0 {
        Plan::Fail(empty_path_error("file"@))
    } else {
        match lookup_plan(path, reads) {
            Plan::Read(wanted) => Plan::Read(wanted),
            Plan::Fail(error) => Plan::Fail(error),
            Plan::FailToDecode => Plan::FailToDecode,
            Plan::Done(Some(id)) => {
                let record_key = keys::metadata_key_bytes(id);
                match reads.get_answer(record_key) {
                    None => Plan::Read(Wanted::Get(record_key)),
                    Some(None) => Plan::Fail(
                        error::metadata_decode_error(
                            "metadata missing for file_id "@ + text::decimal(id as nat) + " at "@
                                + path,
                            HERE@,
                        ),
                    ),
                    Some(Some(bytes)) => match file_metadata::decoded(bytes) {
                        None => Plan::FailToDecode,
                        Some(metadata) => Plan::Done(
                            Resolution { file_id: id, metadata, changes: Seq::empty() },
                        ),
                    },
                }
            },
            Plan::Done(None) => if granted(flags).create {
                create_plan(path, reads, now)
            } else {
                Plan::Fail(error::file_not_found_error(path, HERE@))
            },
        }
    }
}

/// The deletion of a file's chunks and then its record.
pub open spec fn data_deletions(id: u64, chunks: Seq<Seq<u8>>) -> Seq<Change> {
    catalog::deletions(chunks).push(Change::Delete(keys::metadata_key_bytes(id)))
}

/// What removing a path comes to: its chunks, its record and the mapping go.
pub open spec fn remove_plan(path: Seq<char>, reads: Reads) -> Plan<Seq<Change>> {
    if path.len() == 0 {
        Plan::Fail(empty_path_error("file"@))
    } else {
        match lookup_plan(path, reads) {
            Plan::Read(wanted) => Plan::Read(wanted),
            Plan::Fail(error) => Plan::Fail(error),
            Plan::FailToDecode => Plan::FailToDecode,
            Plan::Done(None) => Plan::Fail(error::file_not_found_error(path, HERE@)),
            Plan::Done(Some(id)) => {
                let prefix = keys::chunk_prefix_bytes(id);
                match reads.scan_answer(prefix) {
                    None => Plan::Read(Wanted::KeysWithPrefix(prefix)),
                    Some(chunks) => Plan::Done(
                        data_deletions(id, chunks).push(
                            Change::Delete(keys::path_key_bytes(path)),
                        ),
                    ),
                }
            },
        }
    }
}

/// The writes that rebind `dst` to `id`.
pub open spec fn rebinding(src: Seq<char>, dst: Seq<char>, id: u64) -> Seq<Change> {
    seq![
        Change::Put(keys::path_key_bytes(dst), ids::le_id(id)),
        Change::Delete(keys::path_key_bytes(src)),
    ]
}

/// What moving a path comes to: the mapping moves, and a file that the
/// destination named goes.
pub open spec fn move_plan(src: Seq<char>, dst: Seq<char>, reads: Reads) -> Plan<Seq<Change>> {
    if src.len() == 0 {
        Plan::Fail(empty_path_error("source"@))
    } else if dst.len() == 0 {
        Plan::Fail(empty_path_error("destination"@))
    } else if src == dst {
        Plan::Done(Seq::empty())
    } else {
        match lookup_plan(src, reads) {
            Plan::Read(wanted) => Plan::Read(wanted),
            Plan::Fail(error) => Plan::Fail(error),
            Plan::FailToDecode => Plan::FailToDecode,
            Plan::Done(None) => Plan::Fail(error::file_not_found_error(src, HERE@)),
            Plan::Done(Some(id)) => match lookup_plan(dst, reads) {
                Plan::Read(wanted) => Plan::Read(wanted),
                Plan::Fail(error) => Plan::Fail(error),
                Plan::FailToDecode => Plan::FailToDecode,
                Plan::Done(replaced) => if replaced is None || replaced == Some(id) {
                    Plan::Done(rebinding(src, dst, id))
                } else {
                    let prefix = keys::chunk_prefix_bytes(replaced->0);
                    match reads.scan_answer(prefix) {
                        None => Plan::Read(Wanted::KeysWithPrefix(prefix)),
                        Some(chunks) => Plan::Done(
                            data_deletions(replaced->0, chunks) + rebinding(src, dst, id),
                        ),
                    }
                },
            },
        }
    }
}

/// What opening a handle on a file with this record gives: the handle, emptied where
/// the file is to be cleared and holds anything, or why it cannot be opened.
pub open spec fn handle_outcome(
    file_id: u64,
    metadata: FileMetadata,
    flags: FileOpenFlags,
    chunk_keys: Seq<Vec<u8>>,
    r: Result<SlateFileHandle>,
) -> bool {
    let refused = file_handle::open_error(
        SlateFileClient::ReadWrite,
        file_id,
        metadata,
        granted(flags),
    );
    let opened = file_handle::opened(
        SlateFileClient::ReadWrite,
        file_id,
        metadata,
        granted(flags),
    );
    let readable_keys = chunk_manager::first_bad_key(chunk_keys) == chunk_keys.len();
    let emptied = flags.truncate_existing && metadata.size > 0;
    &&& r is Ok <==> (refused is None && (emptied ==> readable_keys))
    &&& r matches Err(e) ==> (refused matches Some(error) ==> e@ == error)
    &&& r matches Err(e) ==> (refused is None ==> e@.source is Some && e@ == (ErrorView {
        source: e@.source,
        ..error::metadata_decode_error(
            keys::chunk_key_complaint(chunk_keys[chunk_manager::first_bad_key(chunk_keys)]@),
            keys::HERE@,
        )
    }))
    &&& r matches Ok(handle) ==> handle.state().wf() && (!emptied ==> handle.state() == opened)
    &&& r matches Ok(handle) ==> (emptied ==> util::is_clock_time(handle.state().modified_at_ms))
    &&& r matches Ok(handle) ==> (emptied ==> handle.state() == (HandleState {
        size: 0,
        chunks: chunk_manager::ChunkManagerView {
            pending: chunk_manager::truncated(
                opened.chunks.chunk_size as nat,
                Map::empty(),
                Seq::empty(),
                chunk_manager::indices_from(chunk_keys, 0),
                0,
            ),
            ..opened.chunks
        },
        ..opened
    }).touched(handle.state().modified_at_ms))
}

/// The filesystem-level operations DuckDB's `FileSystem` needs from SlateFS.
///
/// Each runs in one transaction: it is called with the answers so far until it
/// is done, and then its writes are committed.
pub trait FileSystem: Sized {
    /// Returns whether a file exists at `path`.
    fn file_exists(&self, path: &str, reads: &Reads) -> (r: Result<Step<bool>>)
        ensures
            path@.len() == 0 ==> (r matches Err(e) && e@ == empty_path_error("file"@)),
    ;

    /// Resolves the file at `path`, creating it when `flags` allow and nothing is
    /// mapped there yet.
    fn open_file(&self, path: &str, flags: FileOpenFlags, reads: &Reads) -> (r: Result<
        Step<ResolvedFile>,
    >)
        ensures
            path@.len() == 0 ==> (r matches Err(e) && e@ == empty_path_error("file"@)),
    ;

    /// Opens a handle on a file that was resolved and committed. Where it is to be
    /// emptied, the keys of its chunks are needed.
    fn file_handle(&self, file: &ResolvedFile, flags: FileOpenFlags, chunk_keys: &[Vec<u8>]) -> (r:
        Result<SlateFileHandle>)
        ensures
            file_handle::open_error(
                SlateFileClient::ReadWrite,
                file.file_id,
                file.metadata,
                granted(flags),
            ) matches Some(error) ==> (r matches Err(e) && e@ == error),
    ;

    /// Deletes the file at `path` along with its metadata and chunks.
    fn remove_file(&self, path: &str, reads: &Reads) -> (r: Result<Step<Vec<Mutation>>>)
        ensures
            path@.len() == 0 ==> (r matches Err(e) && e@ == empty_path_error("file"@)),
    ;

    /// Renames `src` to `dst`, replacing whatever `dst` named. The file keeps
    /// its id, so no data moves.
    fn move_file(&self, src: &str, dst: &str, reads: &Reads) -> (r: Result<Step<Vec<Mutation>>>)
        ensures
            src@.len() == 0 ==> (r matches Err(e) && e@ == empty_path_error("source"@)),
    ;
}

/// A filesystem backed by one SlateDB instance on an object store.
#[derive(Debug)]
pub struct SlateFs {
    path: String,
}

impl View for SlateFs {
    type V = Seq<char>;

    closed spec fn view(&self) -> Seq<char> {
        self.path@
    }
}

impl SlateFs {
    /// A filesystem on the SlateDB instance rooted at `path`.
    pub fn open(path: &str) -> (r: Result<Self>)
        ensures
            r is Ok <==> path@.len() > 0,
            r matches Ok(fs) ==> fs@ == path@,
            r matches Err(e) ==> e@ == empty_path_error("database"@),
    {
        match validate_path(path, "database") {
            Ok(()) => Ok(SlateFs { path: path.to_string() }),
            Err(error) => Err(error),
        }
    }

    /// Where the SlateDB instance is rooted.
    pub fn path(&self) -> (r: &str)
        ensures
            r@ == self@,
    {
        self.path.as_str()
    }

    /// Gives the database up to be closed.
    ///
    /// Open file handles hold a reference to it, so this fails rather than
    /// closing a database that a handle is still writing through.
    pub fn close(self, handles_open: bool) -> (r: Result<()>)
        ensures
            r is Ok <==> !handles_open,
            r matches Err(e) ==> e@ == error::invalid_argument_error(
                "cannot close: file handles are still open"@,
                HERE@,
            ),
    {
        if handles_open {
            return Err(
                Error::invalid_argument(
                    "cannot close: file handles are still open".to_string(),
                    HERE,
                ),
            );
        }
        Ok(())
    }

    /// Resolves `path` to a file id, or `None` if nothing is mapped there.
    fn lookup_file_id(path: &str, reads: &Reads) -> (r: Result<Step<Option<u64>>>)
        ensures
            catalog::follows(r, lookup_plan(path@, *reads)),
            lookup_plan(path@, *reads) matches Plan::Done(found) ==> r == Ok::<_, Error>(
                Step::Done(found),
            ),
    {
        let key = keys::path_key(path);
        match reads.get(key.as_slice()) {
            None => Ok(Step::Read(ReadRequest::Get(key))),
            Some(None) => Ok(Step::Done(None)),
            Some(Some(bytes)) => match decode_file_id(bytes.as_slice(), "path mapping") {
                Ok(file_id) => Ok(Step::Done(Some(file_id))),
                Err(error) => Err(error),
            },
        }
    }

    /// Stages the deletion of a file's metadata and every one of its chunks.
    ///
    /// The chunks are scanned rather than derived from the recorded size, so a
    /// sparse file with gaps in its indices leaves nothing behind.
    fn delete_file_data(batch: &mut Vec<Mutation>, file_id: u64, chunks: &Vec<Vec<u8>>)
        ensures
            batch::changes_of(final(batch)@) == batch::changes_of(old(batch)@) + data_deletions(
                file_id,
                catalog::key_list(chunks@),
            ),
    {
        delete_keys(batch, chunks);
        push_delete(batch, keys::metadata_key(file_id));
        proof {
            let before = batch::changes_of(old(batch)@);
            let gone = catalog::deletions(catalog::key_list(chunks@));
            let last = Change::Delete(keys::metadata_key_bytes(file_id));
            assert((before + gone).push(last) =~= before + gone.push(last));
        }
    }

    /// Stages the creation of an empty file at `path`.
    fn create_file(path: &str, reads: &Reads) -> (r: Result<Step<ResolvedFile>>)
        ensures
            database_metadata::follows_resolution(
                r,
                create_plan(path@, *reads, database_metadata::resolved_at(r)),
            ),
    {
        let counter_key = keys::next_file_id_key();
        let file_id: u64 = match reads.get(counter_key.as_slice()) {
            None => {
                return Ok(Step::Read(ReadRequest::Get(counter_key)));
            },
            Some(None) => 1,
            Some(Some(bytes)) => match decode_file_id(bytes.as_slice(), "next file id") {
                Ok(file_id) => file_id,
                Err(error) => {
                    return Err(error);
                },
            },
        };
        if file_id == u64::MAX {
            return Err(Error::invalid_argument("file ids are exhausted".to_string(), HERE));
        }
        let metadata = FileMetadata::new();
        let mut batch: Vec<Mutation> = Vec::new();
        push_put(&mut batch, counter_key, id_to_le_bytes(file_id + 1));
        push_put(&mut batch, keys::path_key(path), id_to_le_bytes(file_id));
        push_put(&mut batch, keys::metadata_key(file_id), metadata.encode_to_bytes());
        proof {
            assert(batch::changes_of(batch@) =~= seq![
                Change::Put(keys::next_file_id_key_bytes(), ids::le_id((file_id + 1) as u64)),
                Change::Put(keys::path_key_bytes(path@), ids::le_id(file_id)),
                Change::Put(
                    keys::metadata_key_bytes(file_id),
                    file_metadata::encoded(metadata),
                ),
            ]);
        }
        Ok(Step::Done(ResolvedFile { file_id, metadata, batch }))
    }

    /// Resolves the path to a file and its metadata. When creating, the path
    /// mapping, the metadata record and the bumped id counter are written in
    /// one transaction, so a crash cannot leave a path pointing at nothing.
    fn resolve_file(path: &str, flags: FileOpenFlags, reads: &Reads) -> (r: Result<
        Step<ResolvedFile>,
    >)
        requires
            path@.len() > 0,
        ensures
            database_metadata::follows_resolution(
                r,
                resolve_plan(path@, flags, *reads, database_metadata::resolved_at(r)),
            ),
    {
        let found = match Self::lookup_file_id(path, reads) {
            Ok(Step::Done(found)) => found,
            Ok(Step::Read(request)) => {
                return Ok(Step::Read(request));
            },
            Err(error) => {
                return Err(error);
            },
        };
        match found {
            Some(file_id) => {
                let record_key = keys::metadata_key(file_id);
                let bytes = match reads.get(record_key.as_slice()) {
                    None => {
                        return Ok(Step::Read(ReadRequest::Get(record_key)));
                    },
                    Some(None) => {
                        let mut message = join3(
                            "metadata missing for file_id ",
                            decimal_text(file_id).as_str(),
                            " at ",
                        );
                        message.append(path);
                        return Err(Error::metadata_decode(message, HERE));
                    },
                    Some(Some(bytes)) => bytes,
                };
                let metadata = match FileMetadata::decode_from_bytes(bytes.as_slice()) {
                    Ok(metadata) => metadata,
                    Err(error) => {
                        return Err(error);
                    },
                };
                let batch: Vec<Mutation> = Vec::new();
                assert(batch::changes_of(batch@) =~= Seq::empty());
                Ok(Step::Done(ResolvedFile { file_id, metadata, batch }))
            },
            None => {
                if !grant(flags).create {
                    return Err(Error::file_not_found(path, HERE));
                }
                Self::create_file(path, reads)
            },
        }
    }
}

impl FileSystem for SlateFs {
    fn file_exists(&self, path: &str, reads: &Reads) -> (r: Result<Step<bool>>)
        ensures
            catalog::follows(r, exists_plan(path@, *reads)),
            exists_plan(path@, *reads) matches Plan::Done(exists) ==> r == Ok::<_, Error>(
                Step::Done(exists),
            ),
    {
        match validate_path(path, "file") {
            Ok(()) => {},
            Err(error) => {
                return Err(error);
            },
        }
        let key = keys::path_key(path);
        match reads.get(key.as_slice()) {
            None => Ok(Step::Read(ReadRequest::Get(key))),
            Some(answer) => Ok(Step::Done(answer.is_some())),
        }
    }

    fn open_file(&self, path: &str, flags: FileOpenFlags, reads: &Reads) -> (r: Result<
        Step<ResolvedFile>,
    >)
        ensures
            database_metadata::follows_resolution(
                r,
                resolve_plan(path@, flags, *reads, database_metadata::resolved_at(r)),
            ),
    {
        match validate_path(path, "file") {
            Ok(()) => {},
            Err(error) => {
                return Err(error);
            },
        }
        Self::resolve_file(path, flags, reads)
    }

    fn file_handle(&self, file: &ResolvedFile, flags: FileOpenFlags, chunk_keys: &[Vec<u8>]) -> (r:
        Result<SlateFileHandle>)
        ensures
            handle_outcome(file.file_id, file.metadata, flags, chunk_keys@, r),
    {
        let mut handle = match SlateFileHandle::new(
            SlateFileClient::ReadWrite,
            file.file_id,
            file.metadata,
            grant(flags),
        ) {
            Ok(handle) => handle,
            Err(error) => {
                return Err(error);
            },
        };
        if flags.truncate_existing {
            match handle.truncate(0, None, chunk_keys) {
                Ok(()) => {},
                Err(error) => {
                    return Err(error);
                },
            }
        }
        Ok(handle)
    }

    fn remove_file(&self, path: &str, reads: &Reads) -> (r: Result<Step<Vec<Mutation>>>)
        ensures
            catalog::follows_batch(r, remove_plan(path@, *reads)),
    {
        match validate_path(path, "file") {
            Ok(()) => {},
            Err(error) => {
                return Err(error);
            },
        }
        let file_id = match Self::lookup_file_id(path, reads) {
            Ok(Step::Done(Some(file_id))) => file_id,
            Ok(Step::Done(None)) => {
                return Err(Error::file_not_found(path, HERE));
            },
            Ok(Step::Read(request)) => {
                return Ok(Step::Read(request));
            },
            Err(error) => {
                return Err(error);
            },
        };
        let prefix = keys::chunk_prefix(file_id);
        let chunks = match reads.scan(prefix.as_slice()) {
            None => {
                return Ok(Step::Read(ReadRequest::KeysWithPrefix(prefix)));
            },
            Some(chunks) => chunks,
        };
        let mut batch: Vec<Mutation> = Vec::new();
        Self::delete_file_data(&mut batch, file_id, chunks);
        push_delete(&mut batch, keys::path_key(path));
        proof {
            let gone = data_deletions(file_id, catalog::key_list(chunks@));
            assert(batch::changes_of(batch@) =~= gone.push(
                Change::Delete(keys::path_key_bytes(path@)),
            ));
        }
        Ok(Step::Done(batch))
    }

    fn move_file(&self, src: &str, dst: &str, reads: &Reads) -> (r: Result<Step<Vec<Mutation>>>)
        ensures
            catalog::follows_batch(r, move_plan(src@, dst@, *reads)),
    {
        match validate_path(src, "source") {
            Ok(()) => {},
            Err(error) => {
                return Err(error);
            },
        }
        match validate_path(dst, "destination") {
            Ok(()) => {},
            Err(error) => {
                return Err(error);
            },
        }
        let mut batch: Vec<Mutation> = Vec::new();
        let src_key = keys::path_key(src);
        let dst_key = keys::path_key(dst);
        proof {
            keys::path_key_round_trips(src@, dst@);
            assert(batch::changes_of(batch@) =~= Seq::empty());
        }
        if same_bytes(src_key.as_slice(), dst_key.as_slice()) {
            return Ok(Step::Done(batch));
        }
        let src_file_id = match Self::lookup_file_id(src, reads) {
            Ok(Step::Done(Some(file_id))) => file_id,
            Ok(Step::Done(None)) => {
                return Err(Error::file_not_found(src, HERE));
            },
            Ok(Step::Read(request)) => {
                return Ok(Step::Read(request));
            },
            Err(error) => {
                return Err(error);
            },
        };
        // The destination is about to stop naming its current file, so its
        // data goes with it; nothing else refers to that id.
        match Self::lookup_file_id(dst, reads) {
            Ok(Step::Done(Some(dst_file_id))) => {
                if dst_file_id != src_file_id {
                    let prefix = keys::chunk_prefix(dst_file_id);
                    let chunks = match reads.scan(prefix.as_slice()) {
                        None => {
                            return Ok(Step::Read(ReadRequest::KeysWithPrefix(prefix)));
                        },
                        Some(chunks) => chunks,
                    };
                    Self::delete_file_data(&mut batch, dst_file_id, chunks);
                    proof {
                        let gone = data_deletions(dst_file_id, catalog::key_list(chunks@));
                        assert(batch::changes_of(batch@) =~= gone);
                    }
                }
            },
            Ok(Step::Done(None)) => {},
            Ok(Step::Read(request)) => {
                return Ok(Step::Read(request));
            },
            Err(error) => {
                return Err(error);
            },
        }
        let ghost freed = batch::changes_of(batch@);
        push_put(&mut batch, dst_key, id_to_le_bytes(src_file_id));
        push_delete(&mut batch, src_key);
        proof {
            let moved = rebinding(src@, dst@, src_file_id);
            assert(batch::changes_of(batch@) =~= freed + moved);
            assert(Seq::<Change>::empty() + moved =~= moved);
        }
        Ok(Step::Done(batch))
    }
}

/// An operation asks for nothing twice, so answering its questions brings it to
/// an end.
pub proof fn nothing_is_asked_twice(
    path: Seq<char>,
    dst: Seq<char>,
    flags: FileOpenFlags,
    reads: Reads,
    now: u64,
)
    ensures
        catalog::asks_for_news(exists_plan(path, reads), reads),
        catalog::asks_for_news(remove_plan(path, reads), reads),
        catalog::asks_for_news(move_plan(path, dst, reads), reads),
        catalog::asks_for_news(resolve_plan(path, flags, reads, now), reads),
{
}

/// Opening a path finds the file that the path names with the record that was
/// stored for it, and writes nothing.
pub proof fn opening_finds_the_stored_file(
    store: Store,
    reads: Reads,
    path: Seq<char>,
    flags: FileOpenFlags,
    now: u64,
)
    requires
        reads.come_from(store),
        store.contains_key(keys::path_key_bytes(path)),
        resolve_plan(path, flags, reads, now) is Done,
    ensures
        ({
            let resolved = resolve_plan(path, flags, reads, now)->Done_0;
            let id = catalog_laws::file_at(IdForm::LittleEndian, store, path);
            let record_key = keys::metadata_key_bytes(id);
            &&& resolved.file_id == id
            &&& store.contains_key(record_key)
            &&& file_metadata::decoded(store[record_key]) == Some(resolved.metadata)
            &&& resolved.changes == Seq::<Change>::empty()
        }),
{
    let path_key = keys::path_key_bytes(path);
    let id = catalog_laws::file_at(IdForm::LittleEndian, store, path);
    assert(reads.get_answer(path_key) is Some);
    assert(reads.get_answer(path_key)->0 == Some(store[path_key]));
    assert(reads.get_answer(keys::metadata_key_bytes(id)) is Some);
}

/// Whether a path exists is whether it is mapped.
pub proof fn existence_follows_the_path_mapping(store: Store, reads: Reads, path: Seq<char>)
    requires
        reads.come_from(store),
    ensures
        exists_plan(path, reads) matches Plan::Done(exists) ==> exists == store.contains_key(
            keys::path_key_bytes(path),
        ),
{
    let key = keys::path_key_bytes(path);
    assert(reads.get_answer(key) is Some ==> (reads.get_answer(key)->0 is Some
        <==> store.contains_key(key)));
}

/// Removing a file leaves none of it behind, and touches nothing else.
pub proof fn removing_leaves_nothing_behind(store: Store, reads: Reads, path: Seq<char>)
    requires
        reads.come_from(store),
        remove_plan(path, reads) is Done,
    ensures
        store.contains_key(keys::path_key_bytes(path)),
        ids::id_held(IdForm::LittleEndian, store[keys::path_key_bytes(path)]) is Some,
        catalog_laws::file_removed(
            store,
            batch::applied(store, remove_plan(path, reads)->Done_0),
            path,
            catalog_laws::file_at(IdForm::LittleEndian, store, path),
        ),
{
    let path_key = keys::path_key_bytes(path);
    let id = catalog_laws::file_at(IdForm::LittleEndian, store, path);
    let prefix = keys::chunk_prefix_bytes(id);
    assert(reads.get_answer(path_key) is Some);
    assert(reads.scan_answer(prefix) is Some);
    let chunks = reads.scan_answer(prefix)->0;
    let data = chunks.push(keys::metadata_key_bytes(id));
    let changes = remove_plan(path, reads)->Done_0;
    assert(changes.drop_last() =~= catalog::deletions(data));
    catalog_laws::deletions_delete_what_they_list(store, data);
    catalog_laws::scanned_keys_are_the_data(store, id, chunks, data);
    let freed = batch::applied(store, catalog::deletions(data));
    assert(batch::applied(store, changes) == freed.remove(path_key));
}

/// Moving a file rebinds the path without moving data, and frees the data of a
/// file that it replaced.
pub proof fn moving_rebinds_without_moving_data(
    store: Store,
    reads: Reads,
    src: Seq<char>,
    dst: Seq<char>,
)
    requires
        reads.come_from(store),
        src != dst,
        move_plan(src, dst, reads) is Done,
    ensures
        store.contains_key(keys::path_key_bytes(src)),
        ids::id_held(IdForm::LittleEndian, store[keys::path_key_bytes(src)]) is Some,
        catalog_laws::file_moved(
            IdForm::LittleEndian,
            store,
            batch::applied(store, move_plan(src, dst, reads)->Done_0),
            src,
            dst,
        ),
{
    let src_key = keys::path_key_bytes(src);
    let dst_key = keys::path_key_bytes(dst);
    let id = catalog_laws::file_at(IdForm::LittleEndian, store, src);
    let replaced = catalog_laws::file_at(IdForm::LittleEndian, store, dst);
    let replaces = store.contains_key(dst_key) && replaced != id;
    let changes = move_plan(src, dst, reads)->Done_0;
    let moved = rebinding(src, dst, id);
    assert(reads.get_answer(src_key) is Some);
    assert(reads.get_answer(dst_key) is Some);
    let prefix = keys::chunk_prefix_bytes(replaced);
    let chunks = reads.scan_answer(prefix)->0;
    let gone = if replaces {
        chunks.push(keys::metadata_key_bytes(replaced))
    } else {
        Seq::empty()
    };
    assert(changes =~= catalog::deletions(gone) + moved);
    catalog_laws::batches_apply_in_parts(store, catalog::deletions(gone), moved);
    catalog_laws::deletions_delete_what_they_list(store, gone);
    let freed = batch::applied(store, catalog::deletions(gone));
    reveal_with_fuel(batch::applied, 3);
    assert(moved.drop_last().drop_last() =~= Seq::empty());
    assert(batch::applied(freed, moved) == freed.insert(dst_key, ids::le_id(id)).remove(src_key));
    keys::path_key_round_trips(src, dst);
    if replaces {
        assert(reads.scan_answer(prefix) is Some);
        catalog_laws::scanned_keys_are_the_data(store, replaced, chunks, gone);
    }
}

/// Creating a file takes the counter's id, and writes only the counter, the
/// mapping and the record.
pub proof fn creating_takes_the_next_id(store: Store, reads: Reads, path: Seq<char>, now: u64)
    requires
        reads.come_from(store),
        create_plan(path, reads, now) is Done,
    ensures
        ({
            let resolved = create_plan(path, reads, now)->Done_0;
            &&& resolved.file_id == catalog_laws::next_id(IdForm::LittleEndian, store)
            &&& resolved.file_id < u64::MAX
            &&& resolved.metadata == file_metadata::fresh(now)
            &&& batch::applied(store, resolved.changes) == catalog_laws::file_created(
                IdForm::LittleEndian,
                store,
                path,
                resolved.file_id,
                resolved.metadata,
            )
        }),
{
    let resolved = create_plan(path, reads, now)->Done_0;
    let next_key = keys::next_file_id_key_bytes();
    let id = resolved.file_id;
    assert(reads.get_answer(next_key) is Some);
    reveal_with_fuel(batch::applied, 4);
    assert(resolved.changes.drop_last().drop_last().drop_last() =~= Seq::empty());
    keys::metadata_keys_are_distinct(id, id);
    keys::key_families_are_disjoint(id, 0, id, path);
    assert(batch::applied(store, resolved.changes) =~= catalog_laws::file_created(
        IdForm::LittleEndian,
        store,
        path,
        id,
        resolved.metadata,
    ));
}

} // verus!
