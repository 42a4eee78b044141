//! Database-level metadata such as path mappings and file ID allocation.

use vstd::prelude::*;

use crate::batch;
use crate::batch::{Change, Mutation};
use crate::catalog;
use crate::catalog::{
    delete_keys, push_delete, push_put, Plan, ReadRequest, Reads, Step, Wanted,
};
use crate::error;
use crate::error::{Error, ErrorView, Result};
use crate::file_metadata;
use crate::file_metadata::FileMetadata;
use crate::ids;
use crate::ids::{id_from_be_bytes, id_to_be_bytes, IdForm};
use crate::keys;
use crate::text;
use crate::text::{decimal_text, join2};
use crate::util;

verus! {

/// Where errors say that they come from if they come from here.
pub const HERE: &'static str = "src/database_metadata.rs";

/// The error for an empty path.
pub open spec fn empty_path_error() -> ErrorView {
    error::invalid_argument_error("file path must not be empty"@, HERE@)
}

/// The error for a record that is no file ID, or the reserved one.
pub open spec fn bad_id_error(bytes: Seq<u8>, record: Seq<char>) -> ErrorView {
    error::metadata_decode_error(
        if bytes.len() != 8 {
            record + " must contain an 8-byte file ID"@
        } else {
            record + " contains reserved file ID 0"@
        },
        HERE@,
    )
}

/// The file ID that a record holds, where it holds one.
pub open spec fn id_in(bytes: Seq<u8>) -> Option<u64> {
    ids::id_held(IdForm::BigEndian, bytes)
}

fn validate_path(path: &str) -> (r: Result<()>)
    ensures
        r is Ok <==> path@.len() > 0,
        r matches Err(e) ==> e@ == empty_path_error(),
{
    if path.is_empty() {
        return Err(Error::invalid_argument("file path must not be empty".to_string(), HERE));
    }
    Ok(())
}

/// Reads a file ID that was stored most significant byte first. ID 0 is
/// reserved.
pub fn decode_file_id(bytes: &[u8], record: &str) -> (r: Result<u64>)
    ensures
        r is Ok <==> id_in(bytes@) is Some,
        r matches Ok(file_id) ==> id_in(bytes@) == Some(file_id),
        r matches Err(e) ==> e@ == bad_id_error(bytes@, record@),
{
    if bytes.len() != 8 {
        return Err(Error::metadata_decode(join2(record, " must contain an 8-byte file ID"), HERE));
    }
    let file_id = id_from_be_bytes(bytes);
    if file_id == 0 {
        return Err(Error::metadata_decode(join2(record, " contains reserved file ID 0"), HERE));
    }
    Ok(file_id)
}

/// What looking a path up comes to.
pub open spec fn exists_plan(path: Seq<char>, reads: Reads) -> Plan<bool> {
    let key = keys::path_key_bytes(path);
    if path.len() == 0 {
        Plan::Fail(empty_path_error())
    } else {
        match reads.get_answer(key) {
            None => Plan::Read(Wanted::Get(key)),
            Some(answer) => Plan::Done(answer is Some),
        }
    }
}

/// What removing a path comes to: the path mapping, its metadata and every one
/// of its chunks go.
pub open spec fn remove_plan(path: Seq<char>, reads: Reads) -> Plan<Seq<Change>> {
    let key = keys::path_key_bytes(path);
    if path.len() == 0 {
        Plan::Fail(empty_path_error())
    } else {
        match reads.get_answer(key) {
            None => Plan::Read(Wanted::Get(key)),
            Some(None) => Plan::Fail(error::file_not_found_error(path, HERE@)),
            Some(Some(bytes)) => match id_in(bytes) {
                None => Plan::Fail(bad_id_error(bytes, "path mapping"@)),
                Some(id) => {
                    let prefix = keys::chunk_prefix_bytes(id);
                    match reads.scan_answer(prefix) {
                        None => Plan::Read(Wanted::KeysWithPrefix(prefix)),
                        Some(chunks) => Plan::Done(
                            seq![
                                Change::Delete(key),
                                Change::Delete(keys::metadata_key_bytes(id)),
                            ] + catalog::deletions(chunks),
                        ),
                    }
                },
            },
        }
    }
}

/// The writes that rebind `target` to `id`.
pub open spec fn rebinding(source: Seq<char>, target: Seq<char>, id: u64) -> Seq<Change> {
    seq![
        Change::Delete(keys::path_key_bytes(source)),
        Change::Put(keys::path_key_bytes(target), ids::be_id(id)),
    ]
}

/// What moving one path to another comes to: the mapping moves, and a file that
/// the destination named goes.
pub open spec fn move_plan(source: Seq<char>, target: Seq<char>, reads: Reads) -> Plan<
    Seq<Change>,
> {
    let source_key = keys::path_key_bytes(source);
    let target_key = keys::path_key_bytes(target);
    if source.len() == 0 || target.len() == 0 {
        Plan::Fail(empty_path_error())
    } else if source == target {
        Plan::Done(Seq::empty())
    } else {
        match reads.get_answer(source_key) {
            None => Plan::Read(Wanted::Get(source_key)),
            Some(None) => Plan::Fail(error::file_not_found_error(source, HERE@)),
            Some(Some(source_bytes)) => match id_in(source_bytes) {
                None => Plan::Fail(bad_id_error(source_bytes, "source path mapping"@)),
                Some(id) => match reads.get_answer(target_key) {
                    None => Plan::Read(Wanted::Get(target_key)),
                    Some(None) => Plan::Done(rebinding(source, target, id)),
                    Some(Some(target_bytes)) => match id_in(target_bytes) {
                        None => Plan::Fail(bad_id_error(target_bytes, "target path mapping"@)),
                        Some(replaced) => if replaced == id {
                            Plan::Done(rebinding(source, target, id))
                        } else {
                            let prefix = keys::chunk_prefix_bytes(replaced);
                            match reads.scan_answer(prefix) {
                                None => Plan::Read(Wanted::KeysWithPrefix(prefix)),
                                Some(chunks) => Plan::Done(
                                    seq![Change::Delete(keys::metadata_key_bytes(replaced))]
                                        + catalog::deletions(chunks) + rebinding(
                                        source,
                                        target,
                                        id,
                                    ),
                                ),
                            }
                        },
                    },
                },
            },
        }
    }
}

/// A path resolved to its file, and the writes that made it so.
#[derive(Debug)]
pub struct ResolvedFile {
    pub file_id: u64,
    pub metadata: FileMetadata,
    pub batch: Vec<Mutation>,
}

/// What a [`ResolvedFile`] says.
#[verifier::ext_equal]
pub struct Resolution {
    pub file_id: u64,
    pub metadata: FileMetadata,
    pub changes: Seq<Change>,
}

impl View for ResolvedFile {
    type V = Resolution;

    open spec fn view(&self) -> Resolution {
        Resolution {
            file_id: self.file_id,
            metadata: self.metadata,
            changes: batch::changes_of(self.batch@),
        }
    }
}

/// The next free file ID: the stored one, or the first of all.
pub open spec fn next_id_plan(reads: Reads) -> Plan<u64> {
    let key = keys::next_file_id_key_bytes();
    match reads.get_answer(key) {
        None => Plan::Read(Wanted::Get(key)),
        Some(None) => Plan::Done(1),
        Some(Some(bytes)) => match id_in(bytes) {
            None => Plan::Fail(bad_id_error(bytes, "next file ID"@)),
            Some(id) => Plan::Done(id),
        },
    }
}

/// What creating a path comes to: its mapping, a fresh record and the bumped
/// counter.
pub open spec fn create_plan(path: Seq<char>, reads: Reads, now: u64) -> Plan<Resolution> {
    match next_id_plan(reads) {
        Plan::Read(wanted) => Plan::Read(wanted),
        Plan::Fail(error) => Plan::Fail(error),
        Plan::FailToDecode => Plan::FailToDecode,
        Plan::Done(id) => if id == u64::MAX {
            Plan::Fail(error::metadata_decode_error("file ID space is exhausted"@, HERE@))
        } else {
            let metadata = file_metadata::fresh(now);
            Plan::Done(
                Resolution {
                    file_id: id,
                    metadata,
                    changes: seq![
                        Change::Put(keys::path_key_bytes(path), ids::be_id(id)),
                        Change::Put(
                            keys::metadata_key_bytes(id),
                            file_metadata::encoded(metadata),
                        ),
                        Change::Put(keys::next_file_id_key_bytes(), ids::be_id((id + 1) as u64)),
                    ],
                },
            )
        },
    }
}

/// What opening the file `id` comes to: its record, or a fresh one with every
/// chunk gone where it is to be emptied.
pub open spec fn open_plan(id: u64, truncate_existing: bool, reads: Reads, now: u64) -> Plan<
    Resolution,
> {
    let key = keys::metadata_key_bytes(id);
    let prefix = keys::chunk_prefix_bytes(id);
    match reads.get_answer(key) {
        None => Plan::Read(Wanted::Get(key)),
        Some(None) => Plan::Fail(
            error::metadata_decode_error(
                "metadata is missing for file_id "@ + text::decimal(id as nat),
                HERE@,
            ),
        ),
        Some(Some(bytes)) => match file_metadata::decoded(bytes) {
            None => Plan::FailToDecode,
            Some(metadata) => if !truncate_existing {
                Plan::Done(Resolution { file_id: id, metadata, changes: Seq::empty() })
            } else {
                match reads.scan_answer(prefix) {
                    None => Plan::Read(Wanted::KeysWithPrefix(prefix)),
                    Some(chunks) => {
                        let emptied = file_metadata::fresh(now);
                        Plan::Done(
                            Resolution {
                                file_id: id,
                                metadata: emptied,
                                changes: catalog::deletions(chunks).push(
                                    Change::Put(key, file_metadata::encoded(emptied)),
                                ),
                            },
                        )
                    },
                }
            },
        },
    }
}

/// What resolving a path at `now` comes to.
pub open spec fn get_or_create_plan(
    path: Seq<char>,
    create: bool,
    truncate_existing: bool,
    reads: Reads,
    now: u64,
) -> Plan<Resolution> {
    let key = keys::path_key_bytes(path);
    if path.len() == 0 {
        Plan::Fail(empty_path_error())
    } else {
        match reads.get_answer(key) {
            None => Plan::Read(Wanted::Get(key)),
            Some(Some(bytes)) => match id_in(bytes) {
                None => Plan::Fail(bad_id_error(bytes, "path mapping"@)),
                Some(id) => open_plan(id, truncate_existing, reads, now),
            },
            Some(None) => if create {
                create_plan(path, reads, now)
            } else {
                Plan::Fail(error::file_not_found_error(path, HERE@))
            },
        }
    }
}

/// Whether `r` is what `plan` says, where being done means a resolved file. A
/// record that was written for it bears the time of the clock.
pub open spec fn follows_resolution(r: Result<Step<ResolvedFile>>, plan: Plan<Resolution>) -> bool {
    &&& catalog::follows(r, plan)
    &&& r matches Ok(Step::Done(file)) ==> (file@.changes.len() > 0 ==> util::is_clock_time(
        file.metadata.modified_at_ms,
    ))
    &&& plan matches Plan::Done(resolution) ==> r matches Ok(Step::Done(file)) && file@
        == resolution
}

/// When the record that `r` resolved to was last changed.
pub open spec fn resolved_at(r: Result<Step<ResolvedFile>>) -> u64 {
    match r {
        Ok(Step::Done(file)) => file.metadata.modified_at_ms,
        _ => 0,
    }
}

/// Decides what reads and writes metadata shared by every logical file in a
/// database.
#[derive(Debug)]
pub struct DatabaseMetadata {}

impl DatabaseMetadata {
    /// A database's metadata.
    pub fn new() -> (r: Self)
        ensures
            r == (DatabaseMetadata {  }),
    {
        DatabaseMetadata {  }
    }

    /// Returns whether a path has a catalog entry.
    ///
    /// Existence is intentionally determined by the path mapping alone. It
    /// does not read file metadata or scan chunks.
    pub fn file_exists(&self, path: &str, reads: &Reads) -> (r: Result<Step<bool>>)
        ensures
            catalog::follows(r, exists_plan(path@, *reads)),
            exists_plan(path@, *reads) matches Plan::Done(exists) ==> r == Ok::<_, Error>(
                Step::Done(exists),
            ),
    {
        match validate_path(path) {
            Ok(()) => {},
            Err(error) => {
                return Err(error);
            },
        }
        let key = keys::path_key(path);
        match reads.get(key.as_slice()) {
            None => Ok(Step::Read(ReadRequest::Get(key))),
            Some(answer) => Ok(Step::Done(answer.is_some())),
        }
    }

    /// Removes a path mapping, its metadata, and all content chunks.
    pub fn remove_file(&self, path: &str, reads: &Reads) -> (r: Result<Step<Vec<Mutation>>>)
        ensures
            catalog::follows_batch(r, remove_plan(path@, *reads)),
    {
        match validate_path(path) {
            Ok(()) => {},
            Err(error) => {
                return Err(error);
            },
        }
        let path_key = keys::path_key(path);
        let bytes = match reads.get(path_key.as_slice()) {
            None => {
                return Ok(Step::Read(ReadRequest::Get(path_key)));
            },
            Some(None) => {
                return Err(Error::file_not_found(path, HERE));
            },
            Some(Some(bytes)) => bytes,
        };
        let file_id = match decode_file_id(bytes.as_slice(), "path mapping") {
            Ok(file_id) => file_id,
            Err(error) => {
                return Err(error);
            },
        };
        let prefix = keys::chunk_prefix(file_id);
        let chunks = match reads.scan(prefix.as_slice()) {
            None => {
                return Ok(Step::Read(ReadRequest::KeysWithPrefix(prefix)));
            },
            Some(chunks) => chunks,
        };
        let mut batch: Vec<Mutation> = Vec::new();
        push_delete(&mut batch, path_key);
        push_delete(&mut batch, keys::metadata_key(file_id));
        proof {
            assert(batch::changes_of(batch@) =~= seq![
                Change::Delete(keys::path_key_bytes(path@)),
                Change::Delete(keys::metadata_key_bytes(file_id)),
            ]);
        }
        delete_keys(&mut batch, chunks);
        Ok(Step::Done(batch))
    }

    /// Moves a path mapping, replacing the destination when present.
    pub fn move_file(&self, source: &str, target: &str, reads: &Reads) -> (r: Result<
        Step<Vec<Mutation>>,
    >)
        ensures
            catalog::follows_batch(r, move_plan(source@, target@, *reads)),
    {
        match validate_path(source) {
            Ok(()) => {},
            Err(error) => {
                return Err(error);
            },
        }
        match validate_path(target) {
            Ok(()) => {},
            Err(error) => {
                return Err(error);
            },
        }
        let mut batch: Vec<Mutation> = Vec::new();
        let source_key = keys::path_key(source);
        let target_key = keys::path_key(target);
        proof {
            keys::path_key_round_trips(source@, target@);
            assert(batch::changes_of(batch@) =~= Seq::empty());
        }
        if catalog::same_bytes(source_key.as_slice(), target_key.as_slice()) {
            return Ok(Step::Done(batch));
        }
        let bytes = match reads.get(source_key.as_slice()) {
            None => {
                return Ok(Step::Read(ReadRequest::Get(source_key)));
            },
            Some(None) => {
                return Err(Error::file_not_found(source, HERE));
            },
            Some(Some(bytes)) => bytes,
        };
        let source_file_id = match decode_file_id(bytes.as_slice(), "source path mapping") {
            Ok(file_id) => file_id,
            Err(error) => {
                return Err(error);
            },
        };
        match reads.get(target_key.as_slice()) {
            None => {
                return Ok(Step::Read(ReadRequest::Get(target_key)));
            },
            Some(None) => {},
            Some(Some(bytes)) => {
                let target_file_id = match decode_file_id(bytes.as_slice(), "target path mapping") {
                    Ok(file_id) => file_id,
                    Err(error) => {
                        return Err(error);
                    },
                };
                if target_file_id != source_file_id {
                    let prefix = keys::chunk_prefix(target_file_id);
                    let chunks = match reads.scan(prefix.as_slice()) {
                        None => {
                            return Ok(Step::Read(ReadRequest::KeysWithPrefix(prefix)));
                        },
                        Some(chunks) => chunks,
                    };
                    push_delete(&mut batch, keys::metadata_key(target_file_id));
                    proof {
                        assert(batch::changes_of(batch@) =~= seq![
                            Change::Delete(keys::metadata_key_bytes(target_file_id)),
                        ]);
                    }
                    delete_keys(&mut batch, chunks);
                }
            },
        }
        let ghost freed = batch::changes_of(batch@);
        push_delete(&mut batch, source_key);
        push_put(&mut batch, target_key, id_to_be_bytes(source_file_id));
        proof {
            let moved = rebinding(source@, target@, source_file_id);
            assert(batch::changes_of(batch@) =~= freed + moved);
            assert(Seq::<Change>::empty() + moved =~= moved);
        }
        Ok(Step::Done(batch))
    }

    /// Resolves a path to its file ID and metadata, creating both when allowed.
    pub fn get_or_create_file(
        &self,
        path: &str,
        create: bool,
        truncate_existing: bool,
        reads: &Reads,
    ) -> (r: Result<Step<ResolvedFile>>)
        ensures
            follows_resolution(
                r,
                get_or_create_plan(path@, create, truncate_existing, *reads, resolved_at(r)),
            ),
    {
        match validate_path(path) {
            Ok(()) => {},
            Err(error) => {
                return Err(error);
            },
        }
        let path_key = keys::path_key(path);
        match reads.get(path_key.as_slice()) {
            None => Ok(Step::Read(ReadRequest::Get(path_key))),
            Some(Some(bytes)) => {
                let file_id = match decode_file_id(bytes.as_slice(), "path mapping") {
                    Ok(file_id) => file_id,
                    Err(error) => {
                        return Err(error);
                    },
                };
                self.open_existing(file_id, truncate_existing, reads)
            },
            Some(None) => {
                if !create {
                    return Err(Error::file_not_found(path, HERE));
                }
                self.create_file(path_key, path, reads)
            },
        }
    }

    fn open_existing(&self, file_id: u64, truncate_existing: bool, reads: &Reads) -> (r: Result<
        Step<ResolvedFile>,
    >)
        ensures
            follows_resolution(r, open_plan(file_id, truncate_existing, *reads, resolved_at(r))),
    {
        let metadata_key = keys::metadata_key(file_id);
        let bytes = match reads.get(metadata_key.as_slice()) {
            None => {
                return Ok(Step::Read(ReadRequest::Get(metadata_key)));
            },
            Some(None) => {
                return Err(
                    Error::metadata_decode(
                        join2("metadata is missing for file_id ", decimal_text(file_id).as_str()),
                        HERE,
                    ),
                );
            },
            Some(Some(bytes)) => bytes,
        };
        let metadata = match FileMetadata::decode_from_bytes(bytes.as_slice()) {
            Ok(metadata) => metadata,
            Err(error) => {
                return Err(error);
            },
        };
        let mut batch: Vec<Mutation> = Vec::new();
        assert(batch::changes_of(batch@) =~= Seq::empty());
        if !truncate_existing {
            return Ok(Step::Done(ResolvedFile { file_id, metadata, batch }));
        }
        let prefix = keys::chunk_prefix(file_id);
        let chunks = match reads.scan(prefix.as_slice()) {
            None => {
                return Ok(Step::Read(ReadRequest::KeysWithPrefix(prefix)));
            },
            Some(chunks) => chunks,
        };
        delete_keys(&mut batch, chunks);
        let metadata = FileMetadata::new();
        push_put(&mut batch, metadata_key, metadata.encode_to_bytes());
        proof {
            let gone = catalog::deletions(catalog::key_list(chunks@));
            assert(Seq::<Change>::empty() + gone =~= gone);
        }
        Ok(Step::Done(ResolvedFile { file_id, metadata, batch }))
    }

    fn create_file(&self, path_key: Vec<u8>, path: &str, reads: &Reads) -> (r: Result<
        Step<ResolvedFile>,
    >)
        requires
            path_key@ == keys::path_key_bytes(path@),
        ensures
            follows_resolution(r, create_plan(path@, *reads, resolved_at(r))),
    {
        let counter_key = keys::next_file_id_key();
        let file_id = match reads.get(counter_key.as_slice()) {
            None => {
                return Ok(Step::Read(ReadRequest::Get(counter_key)));
            },
            Some(None) => 1,
            Some(Some(bytes)) => match decode_file_id(bytes.as_slice(), "next file ID") {
                Ok(file_id) => file_id,
                Err(error) => {
                    return Err(error);
                },
            },
        };
        if file_id == u64::MAX {
            return Err(Error::metadata_decode("file ID space is exhausted".to_string(), HERE));
        }
        let metadata = FileMetadata::new();
        let mut batch: Vec<Mutation> = Vec::new();
        push_put(&mut batch, path_key, id_to_be_bytes(file_id));
        push_put(&mut batch, keys::metadata_key(file_id), metadata.encode_to_bytes());
        push_put(&mut batch, counter_key, id_to_be_bytes(file_id + 1));
        proof {
            assert(batch::changes_of(batch@) =~= seq![
                Change::Put(keys::path_key_bytes(path@), ids::be_id(file_id)),
                Change::Put(
                    keys::metadata_key_bytes(file_id),
                    file_metadata::encoded(metadata),
                ),
                Change::Put(keys::next_file_id_key_bytes(), ids::be_id((file_id + 1) as u64)),
            ]);
        }
        Ok(Step::Done(ResolvedFile { file_id, metadata, batch }))
    }
}

} // verus!
