//! Persisted metadata for a logical SlateFS file.

use vstd::prelude::*;

use crate::error;
use crate::error::{Error, ErrorView, Result};
use crate::text;
use crate::text::{decimal_text, join3};
use crate::util;
use crate::util::current_time_millis;
use crate::wire;

verus! {

/// Where errors say that they come from if they come from here.
pub const HERE: &'static str = "src/file_metadata.rs";

/// Matches DuckDB's `DEFAULT_BLOCK_ALLOC_SIZE` of 262144.
pub const DEFAULT_CHUNK_SIZE: u64 = 262144;

/// Matches DuckDB's `SingleFileBlockManager::BLOCK_START`, so each block fills
/// exactly one chunk.
pub const DEFAULT_CHUNK_BASE_OFFSET: u64 = 12288;

/// The record stored for a file: a protobuf message of four `uint64` fields.
#[derive(Clone, Copy, Debug, PartialEq, Eq, Structural)]
pub struct FileMetadata {
    /// Length of the file in bytes.
    pub size: u64,
    /// When the file last changed, in epoch milliseconds.
    pub modified_at_ms: u64,
    /// Bytes per chunk.
    pub chunk_size: u64,
    /// Where DuckDB's first block starts, which must lie in the first chunk.
    pub chunk_base_offset: u64,
}

/// The record with nothing set, which is what no bytes at all decode to.
pub open spec fn blank() -> FileMetadata {
    FileMetadata { size: 0, modified_at_ms: 0, chunk_size: 0, chunk_base_offset: 0 }
}

/// The record of a file that has just been created or emptied at `now`.
pub open spec fn fresh(now: u64) -> FileMetadata {
    FileMetadata {
        size: 0,
        modified_at_ms: now,
        chunk_size: DEFAULT_CHUNK_SIZE,
        chunk_base_offset: DEFAULT_CHUNK_BASE_OFFSET,
    }
}

/// A field as it is stored: nothing at all for zero.
pub open spec fn field_bytes(tag: nat, value: u64) -> Seq<u8> {
    if value == 0 {
        Seq::empty()
    } else {
        wire::varint_bytes(8 * tag) + wire::varint_bytes(value as nat)
    }
}

/// The stored form of a record.
pub open spec fn encoded(metadata: FileMetadata) -> Seq<u8> {
    field_bytes(1, metadata.size) + field_bytes(2, metadata.modified_at_ms) + field_bytes(
        3,
        metadata.chunk_size,
    ) + field_bytes(4, metadata.chunk_base_offset)
}

/// `metadata` with the field `tag` set to `value`.
pub open spec fn with_field(metadata: FileMetadata, tag: nat, value: u64) -> FileMetadata {
    if tag == 1 {
        FileMetadata { size: value, ..metadata }
    } else if tag == 2 {
        FileMetadata { modified_at_ms: value, ..metadata }
    } else if tag == 3 {
        FileMetadata { chunk_size: value, ..metadata }
    } else {
        FileMetadata { chunk_base_offset: value, ..metadata }
    }
}

/// `metadata` with the fields in `s` set in turn, each unknown field skipped.
pub open spec fn merged(metadata: FileMetadata, s: Seq<u8>) -> Option<FileMetadata>
    decreases s.len(),
{
    if s.len() == 0 {
        Some(metadata)
    } else {
        match wire::key_of(s) {
            None => None,
            Some((tag, wire_type, value)) => {
                let next = if 1 <= tag <= 4 {
                    match wire::varint_of(value) {
                        Some((n, rest)) => if wire_type == 0 {
                            Some((with_field(metadata, tag, n as u64), rest))
                        } else {
                            None
                        },
                        None => None,
                    }
                } else {
                    match wire::skipped_field(wire_type, tag as u32, value) {
                        Some(rest) => Some((metadata, rest)),
                        None => None,
                    }
                };
                match next {
                    Some((metadata, rest)) => if rest.len() < s.len() {
                        merged(metadata, rest)
                    } else {
                        None
                    },
                    None => None,
                }
            },
        }
    }
}

/// The record that `bytes` store, where they store one.
pub open spec fn decoded(bytes: Seq<u8>) -> Option<FileMetadata> {
    merged(blank(), bytes)
}

/// Why a record's chunk size cannot be used, if it cannot.
pub open spec fn chunk_size_complaint(metadata: FileMetadata, file_id: u64) -> Option<Seq<char>> {
    let id = text::decimal(file_id as nat);
    let size = text::decimal(metadata.chunk_size as nat);
    if metadata.chunk_size == 0 {
        Some("invalid chunk size for file_id "@ + id + ": must be non-zero"@)
    } else if metadata.chunk_size > usize::MAX {
        Some("invalid chunk size for file_id "@ + id + ": "@ + size + " exceeds usize"@)
    } else if metadata.chunk_base_offset >= metadata.chunk_size {
        Some(
            "invalid chunk base offset for file_id "@ + id + ": "@ + text::decimal(
                metadata.chunk_base_offset as nat,
            ) + " must be less than "@ + size,
        )
    } else {
        None
    }
}

impl FileMetadata {
    /// An empty file, as of `now`.
    pub fn new_at(now: u64) -> (r: Self)
        ensures
            r == fresh(now),
    {
        FileMetadata {
            size: 0,
            modified_at_ms: now,
            chunk_size: DEFAULT_CHUNK_SIZE,
            chunk_base_offset: DEFAULT_CHUNK_BASE_OFFSET,
        }
    }

    /// An empty file, as of now.
    pub fn new() -> (r: Self)
        ensures
            r == fresh(r.modified_at_ms),
            util::is_clock_time(r.modified_at_ms),
    {
        Self::new_at(current_time_millis())
    }

    /// The stored form.
    pub fn encode_to_bytes(&self) -> (r: Vec<u8>)
        ensures
            r@ == encoded(*self),
    {
        let mut out: Vec<u8> = Vec::new();
        encode_field(1, self.size, &mut out);
        encode_field(2, self.modified_at_ms, &mut out);
        encode_field(3, self.chunk_size, &mut out);
        encode_field(4, self.chunk_base_offset, &mut out);
        assert(out@ =~= encoded(*self));
        out
    }

    /// Reads the stored form back.
    pub fn decode_from_bytes(bytes: &[u8]) -> (r: Result<Self>)
        ensures
            r is Ok <==> decoded(bytes@) is Some,
            r matches Ok(metadata) ==> decoded(bytes@) == Some(metadata),
            r matches Err(e) ==> e@.source is Some && e@ == (ErrorView {
                source: e@.source,
                ..error::metadata_decode_error("metadata decode error"@, HERE@)
            }),
    {
        let mut metadata = FileMetadata {
            size: 0,
            modified_at_ms: 0,
            chunk_size: 0,
            chunk_base_offset: 0,
        };
        let mut left = bytes;
        while left.len() > 0
            invariant
                merged(metadata, left@) == decoded(bytes@),
            decreases left@.len(),
        {
            let (tag, wire_type, value) = match wire::decode_key(left) {
                Ok(key) => key,
                Err(source) => {
                    return Err(Error::undecodable(source, HERE));
                },
            };
            proof {
                wire::lemma_varint_read(left@, wire::varint_limit());
                wire::lemma_varint_read(value@, wire::varint_limit());
            }
            if tag >= 1 && tag <= 4 {
                match wire::merge_uint64(wire_type, value) {
                    Ok((n, rest)) => {
                        metadata.set_field(tag, n);
                        left = rest;
                    },
                    Err(source) => {
                        return Err(
                            Error::undecodable(
                                wire::name_field(source, "FileMetadata", field_name(tag)),
                                HERE,
                            ),
                        );
                    },
                }
            } else {
                match wire::skip_field(wire_type, tag, value) {
                    Ok(rest) => {
                        left = rest;
                    },
                    Err(source) => {
                        return Err(Error::undecodable(source, HERE));
                    },
                }
            }
        }
        Ok(metadata)
    }

    fn set_field(&mut self, tag: u32, value: u64)
        ensures
            *final(self) == with_field(*old(self), tag as nat, value),
    {
        match tag {
            1 => {
                self.size = value;
            },
            2 => {
                self.modified_at_ms = value;
            },
            3 => {
                self.chunk_size = value;
            },
            _ => {
                self.chunk_base_offset = value;
            },
        }
    }

    /// Returns the chunk size as a `usize`, rejecting values that would break
    /// the offset arithmetic built on it. The record comes back from storage,
    /// so a zero would divide by zero on every read and a value past `usize`
    /// would overflow; neither is worth discovering mid-operation.
    pub fn validated_chunk_size(&self, file_id: u64) -> (r: Result<usize>)
        ensures
            r is Ok <==> chunk_size_complaint(*self, file_id) is None,
            r matches Ok(size) ==> size == self.chunk_size,
            r matches Err(e) ==> Some(e@.message) == chunk_size_complaint(*self, file_id) && e@
                == error::invalid_argument_error(e@.message, HERE@),
    {
        let id = decimal_text(file_id);
        if self.chunk_size == 0 {
            return Err(
                Error::invalid_argument(
                    join3("invalid chunk size for file_id ", id.as_str(), ": must be non-zero"),
                    HERE,
                ),
            );
        }
        let size = decimal_text(self.chunk_size);
        if self.chunk_size > usize::MAX as u64 {
            let mut message = join3("invalid chunk size for file_id ", id.as_str(), ": ");
            message.append(size.as_str());
            message.append(" exceeds usize");
            return Err(Error::invalid_argument(message, HERE));
        }
        if self.chunk_base_offset >= self.chunk_size {
            let mut message = join3("invalid chunk base offset for file_id ", id.as_str(), ": ");
            message.append(decimal_text(self.chunk_base_offset).as_str());
            message.append(" must be less than ");
            message.append(size.as_str());
            return Err(Error::invalid_argument(message, HERE));
        }
        Ok(self.chunk_size as usize)
    }
}

fn field_name(tag: u32) -> (r: &'static str)
    ensures
        r@ == (if tag == 1 {
            "size"@
        } else if tag == 2 {
            "modified_at_ms"@
        } else if tag == 3 {
            "chunk_size"@
        } else {
            "chunk_base_offset"@
        }),
{
    match tag {
        1 => "size",
        2 => "modified_at_ms",
        3 => "chunk_size",
        _ => "chunk_base_offset",
    }
}

fn encode_field(tag: u32, value: u64, out: &mut Vec<u8>)
    requires
        1 <= tag <= 4,
    ensures
        final(out)@ == old(out)@ + field_bytes(tag as nat, value),
{
    if value != 0 {
        wire::encode_uint64(tag, value, out);
    }
    assert(out@ =~= old(out)@ + field_bytes(tag as nat, value));
}

proof fn lemma_merge_field(metadata: FileMetadata, tag: nat, value: u64, rest: Seq<u8>)
    requires
        1 <= tag <= 4,
        value == 0 ==> with_field(metadata, tag, 0) == metadata,
    ensures
        merged(metadata, field_bytes(tag, value) + rest) == merged(
            with_field(metadata, tag, value),
            rest,
        ),
{
    let s = field_bytes(tag, value) + rest;
    if value == 0 {
        assert(s =~= rest);
    } else {
        let after_key = wire::varint_bytes(value as nat) + rest;
        assert(s =~= wire::varint_bytes(8 * tag) + after_key);
        wire::varint_round_trips((8 * tag) as u64, after_key);
        wire::varint_round_trips(value, rest);
        wire::lemma_varint_read(s, wire::varint_limit());
        wire::lemma_varint_read(after_key, wire::varint_limit());
        assert(s.len() > 0);
    }
}

/// Decoding a record's stored form gives the record back.
pub proof fn metadata_round_trips(metadata: FileMetadata)
    ensures
        decoded(encoded(metadata)) == Some(metadata),
{
    let none = Seq::<u8>::empty();
    let d = field_bytes(4, metadata.chunk_base_offset) + none;
    let c = field_bytes(3, metadata.chunk_size) + d;
    let b = field_bytes(2, metadata.modified_at_ms) + c;
    let a = field_bytes(1, metadata.size) + b;
    assert(encoded(metadata) =~= a);
    let m1 = with_field(blank(), 1, metadata.size);
    let m2 = with_field(m1, 2, metadata.modified_at_ms);
    let m3 = with_field(m2, 3, metadata.chunk_size);
    lemma_merge_field(blank(), 1, metadata.size, b);
    lemma_merge_field(m1, 2, metadata.modified_at_ms, c);
    lemma_merge_field(m2, 3, metadata.chunk_size, d);
    lemma_merge_field(m3, 4, metadata.chunk_base_offset, none);
}

/// A record can be used exactly if its chunks have a size that fits this platform and
/// the base offset lies in the first of them.
pub proof fn records_can_be_used_unless_chunks_cannot_be_told_apart(
    metadata: FileMetadata,
    file_id: u64,
)
    ensures
        chunk_size_complaint(metadata, file_id) is None <==> 0 < metadata.chunk_size <= usize::MAX
            && metadata.chunk_base_offset < metadata.chunk_size,
{
}

/// A file that has just been created or emptied has no bytes, bears its time, and can be
/// used: its blocks are DuckDB's, and each of them fills a chunk.
pub proof fn fresh_records_can_be_used(now: u64, file_id: u64)
    ensures
        fresh(now).size == 0,
        fresh(now).modified_at_ms == now,
        fresh(now).chunk_size == 262144,
        fresh(now).chunk_base_offset == 12288,
        chunk_size_complaint(fresh(now), file_id) is None,
{
}

/// Each field is stored under its own number and in order, and one that is zero takes
/// no room.
pub proof fn fields_keep_their_numbers(metadata: FileMetadata, value: u64)
    ensures
        encoded(blank()) == Seq::<u8>::empty(),
        encoded(metadata) == encoded(FileMetadata { size: metadata.size, ..blank() }) + encoded(
            FileMetadata { modified_at_ms: metadata.modified_at_ms, ..blank() },
        ) + encoded(FileMetadata { chunk_size: metadata.chunk_size, ..blank() }) + encoded(
            FileMetadata { chunk_base_offset: metadata.chunk_base_offset, ..blank() },
        ),
        value > 0 ==> {
            let number = wire::varint_bytes(value as nat);
            &&& encoded(FileMetadata { size: value, ..blank() }) == seq![8u8] + number
            &&& encoded(FileMetadata { modified_at_ms: value, ..blank() }) == seq![16u8] + number
            &&& encoded(FileMetadata { chunk_size: value, ..blank() }) == seq![24u8] + number
            &&& encoded(FileMetadata { chunk_base_offset: value, ..blank() }) == seq![32u8]
                + number
        },
{
    let size = encoded(FileMetadata { size: metadata.size, ..blank() });
    let time = encoded(FileMetadata { modified_at_ms: metadata.modified_at_ms, ..blank() });
    let chunk = encoded(FileMetadata { chunk_size: metadata.chunk_size, ..blank() });
    let base = encoded(
        FileMetadata { chunk_base_offset: metadata.chunk_base_offset, ..blank() },
    );
    assert(encoded(blank()) =~= Seq::<u8>::empty());
    assert(size =~= field_bytes(1, metadata.size));
    assert(time =~= field_bytes(2, metadata.modified_at_ms));
    assert(chunk =~= field_bytes(3, metadata.chunk_size));
    assert(base =~= field_bytes(4, metadata.chunk_base_offset));
    if value > 0 {
        let number = wire::varint_bytes(value as nat);
        assert(wire::varint_bytes(8) =~= seq![8u8]);
        assert(wire::varint_bytes(16) =~= seq![16u8]);
        assert(wire::varint_bytes(24) =~= seq![24u8]);
        assert(wire::varint_bytes(32) =~= seq![32u8]);
        assert(encoded(FileMetadata { size: value, ..blank() }) =~= seq![8u8] + number);
        assert(encoded(FileMetadata { modified_at_ms: value, ..blank() }) =~= seq![16u8] + number);
        assert(encoded(FileMetadata { chunk_size: value, ..blank() }) =~= seq![24u8] + number);
        assert(encoded(FileMetadata { chunk_base_offset: value, ..blank() }) =~= seq![32u8]
            + number);
    }
}

/// A number under a field that is not known is skipped, so a record with fields of a
/// later version still reads.
pub proof fn unknown_numbers_are_skipped(tag: nat, value: u64, metadata: FileMetadata)
    requires
        4 < tag < 0x2000_0000,
    ensures
        decoded(
            wire::varint_bytes(8 * tag) + wire::varint_bytes(value as nat) + encoded(metadata),
        ) == Some(metadata),
{
    let rest = encoded(metadata);
    let after_key = wire::varint_bytes(value as nat) + rest;
    let s = wire::varint_bytes(8 * tag) + after_key;
    assert(wire::varint_bytes(8 * tag) + wire::varint_bytes(value as nat) + rest =~= s);
    wire::varint_round_trips((8 * tag) as u64, after_key);
    wire::varint_round_trips(value, rest);
    wire::lemma_varint_read(s, wire::varint_limit());
    wire::lemma_varint_read(after_key, wire::varint_limit());
    metadata_round_trips(metadata);
}

} // verus!
