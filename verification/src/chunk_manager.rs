//! Staged changes to a file's chunks, on top of what the store holds.
//!
//! The store itself is out of reach here. Where an operation needs stored
//! bytes, a first call says what to fetch and a second one takes the answer.

use std::collections::BTreeMap;

use vstd::arithmetic::div_mod::*;
use vstd::arithmetic::mul::*;
use vstd::prelude::*;

use crate::batch;
use crate::batch::{Change, Mutation};
use crate::chunks;
use crate::chunks::{place_of, scan_read_ahead_bytes, split_into_chunks, ChunkSlice};
use crate::error;
use crate::error::{ErrorView, Result};
use crate::index_map;
use crate::keys;

verus! {

broadcast use {vstd::std_specs::btree::group_btree_axioms, vstd::laws_cmp::group_laws_cmp};

/// A change to a chunk that has not been written yet.
#[derive(Debug)]
pub enum PendingChunk {
    Written(Vec<u8>),
    Deleted,
}

impl View for PendingChunk {
    type V = Option<Seq<u8>>;

    open spec fn view(&self) -> Option<Seq<u8>> {
        match self {
            PendingChunk::Written(chunk) => Some(chunk@),
            PendingChunk::Deleted => None,
        }
    }
}

/// Staged changes by chunk: new contents, or nothing where it is deleted.
pub type Pending = Map<u64, Option<Seq<u8>>>;

/// Stored chunks by index.
pub type Stored = Map<u64, Seq<u8>>;

/// Chunks with the indices from `first` to `last`, both included.
#[derive(Clone, Copy, Debug, PartialEq, Eq, Structural)]
pub struct ChunkRange {
    pub first: u64,
    pub last: u64,
}

/// The indices in a range.
pub open spec fn range_indices(range: ChunkRange) -> Seq<u64> {
    Seq::new((range.last - range.first + 1) as nat, |i: int| (range.first + i) as u64)
}

/// The indices in each of a list of ranges, one range after the other.
pub open spec fn expanded(ranges: Seq<ChunkRange>) -> Seq<u64>
    decreases ranges.len(),
{
    if ranges.len() == 0 {
        Seq::empty()
    } else {
        expanded(ranges.drop_last()) + range_indices(ranges.last())
    }
}

/// Whether no range ends where the next one goes on.
pub open spec fn no_adjacent_ranges(ranges: Seq<ChunkRange>) -> bool {
    forall|i: int, j: int|
        #![trigger ranges[i], ranges[j]]
        0 <= i && j == i + 1 && j < ranges.len() ==> ranges[i].last + 1 != ranges[j].first
}

/// Whether each range holds at least one index.
pub open spec fn proper_ranges(ranges: Seq<ChunkRange>) -> bool {
    forall|i: int|
        0 <= i < ranges.len() ==> (#[trigger] ranges[i]).first <= ranges[i].last
}

/// Groups ascending, deduplicated indices into maximal adjacent runs. Each run
/// is one range scan, and separate runs can be fetched concurrently.
pub fn coalesce_chunk_indices(chunk_indices: &[u64]) -> (r: Vec<ChunkRange>)
    ensures
        expanded(r@) == chunk_indices@,
        proper_ranges(r@),
        no_adjacent_ranges(r@),
{
    let mut groups: Vec<ChunkRange> = Vec::new();
    let mut i: usize = 0;
    while i < chunk_indices.len()
        invariant
            i <= chunk_indices@.len(),
            expanded(groups@) == chunk_indices@.take(i as int),
            proper_ranges(groups@),
            no_adjacent_ranges(groups@),
        decreases chunk_indices@.len() - i,
    {
        let chunk_idx: u64 = chunk_indices[i];
        let n = groups.len();
        let ghost before = groups@;
        proof {
            assert(chunk_indices@.take(i + 1) =~= chunk_indices@.take(i as int).push(chunk_idx));
        }
        if n > 0 && groups[n - 1].last < u64::MAX && groups[n - 1].last + 1 == chunk_idx {
            let first: u64 = groups[n - 1].first;
            groups.pop();
            assert(groups@ =~= before.drop_last());
            groups.push(ChunkRange { first, last: chunk_idx });
            proof {
                assert(groups@.drop_last() =~= before.drop_last());
                assert(range_indices(groups@.last()) =~= range_indices(before.last()).push(
                    chunk_idx,
                ));
                assert(expanded(groups@) =~= expanded(before).push(chunk_idx));
            }
        } else {
            groups.push(ChunkRange { first: chunk_idx, last: chunk_idx });
            proof {
                assert(groups@.drop_last() =~= before);
                assert(range_indices(groups@.last()) =~= seq![chunk_idx]);
                assert(expanded(groups@) =~= expanded(before).push(chunk_idx));
            }
        }
        i = i + 1;
    }
    assert(chunk_indices@.take(i as int) =~= chunk_indices@);
    groups
}

/// What chunk `idx` holds: the staged contents if any, else what is stored.
pub open spec fn chunk_at(pending: Pending, stored: Stored, idx: u64) -> Seq<u8> {
    if pending.contains_key(idx) {
        match pending[idx] {
            Some(chunk) => chunk,
            None => Seq::empty(),
        }
    } else if stored.contains_key(idx) {
        stored[idx]
    } else {
        Seq::empty()
    }
}

/// The byte `o` of a chunk, zero past its end.
pub open spec fn chunk_byte(chunk: Seq<u8>, o: nat) -> u8 {
    if o < chunk.len() {
        chunk[o as int]
    } else {
        0
    }
}

/// The byte at `pos`, counted from the start of the first chunk. A byte that no
/// chunk covers is zero.
pub open spec fn byte_at(chunk_size: nat, pending: Pending, stored: Stored, pos: nat) -> u8 {
    chunk_byte(chunk_at(pending, stored, (pos / chunk_size) as u64), pos % chunk_size)
}

/// The chunks from `first` up to `end` with no staged change, in order.
pub open spec fn missing_indices(pending: Pending, first: nat, end: nat) -> Seq<u64>
    decreases end,
{
    if end <= first {
        Seq::empty()
    } else {
        let before = missing_indices(pending, first, (end - 1) as nat);
        if pending.contains_key((end - 1) as u64) {
            before
        } else {
            before.push((end - 1) as u64)
        }
    }
}

/// One request to the store for the chunks in a range.
#[derive(Debug)]
pub enum ChunkFetch {
    /// A point lookup.
    Get { index: u64, key: Vec<u8> },
    /// A scan of every key between two, both included.
    Scan { range: ChunkRange, first_key: Vec<u8>, last_key: Vec<u8>, read_ahead_bytes: usize },
}

impl ChunkFetch {
    /// The chunks that the request is for.
    pub open spec fn range(self) -> ChunkRange {
        match self {
            ChunkFetch::Get { index, .. } => ChunkRange { first: index, last: index },
            ChunkFetch::Scan { range, .. } => range,
        }
    }

    /// Whether the request asks for the chunks it is for: a lookup of the one
    /// chunk, or a scan from the first chunk's key to the last one's.
    pub open spec fn asks_for_its_chunks(self, file_id: u64, chunk_size: usize) -> bool {
        match self {
            ChunkFetch::Get { index, key } => key@ == keys::chunk_key_bytes(file_id, index),
            ChunkFetch::Scan { range, first_key, last_key, read_ahead_bytes } => {
                &&& range.first != range.last
                &&& first_key@ == keys::chunk_key_bytes(file_id, range.first)
                &&& last_key@ == keys::chunk_key_bytes(file_id, range.last)
                &&& read_ahead_bytes == chunks::read_ahead(range.first, range.last, chunk_size)
            },
        }
    }
}

/// The ranges that a list of requests is for.
pub open spec fn fetch_ranges(fetches: Seq<ChunkFetch>) -> Seq<ChunkRange> {
    fetches.map_values(|fetch: ChunkFetch| fetch.range())
}

/// Chunks that came back from the store.
#[derive(Debug)]
pub struct FetchedChunks {
    chunks: BTreeMap<u64, Vec<u8>>,
}

impl View for FetchedChunks {
    type V = Stored;

    closed spec fn view(&self) -> Stored {
        self.chunks@.map_values(|chunk: Vec<u8>| chunk@)
    }
}

/// What a point lookup says a chunk holds: nothing where no key is stored.
pub open spec fn contents_of(value: Option<Vec<u8>>) -> Seq<u8> {
    match value {
        Some(chunk) => chunk@,
        None => Seq::empty(),
    }
}

/// A key and the value under it.
pub type Pair = (Vec<u8>, Vec<u8>);

/// The first of a list of scanned pairs whose key names no chunk, or the number
/// of pairs where each does.
pub open spec fn first_bad_pair(pairs: Seq<Pair>) -> int
    decreases pairs.len(),
{
    if pairs.len() == 0 {
        0
    } else if first_bad_pair(pairs.drop_last()) < pairs.len() - 1 || keys::chunk_index_of(
        pairs.last().0@,
    ) is None {
        first_bad_pair(pairs.drop_last())
    } else {
        pairs.len() as int
    }
}

/// `chunks` with the chunks of a list of scanned pairs put in, in order.
pub open spec fn with_pairs(chunks: Stored, pairs: Seq<Pair>) -> Stored
    decreases pairs.len(),
{
    if pairs.len() == 0 {
        chunks
    } else {
        with_pairs(chunks, pairs.drop_last()).insert(
            keys::chunk_index_of(pairs.last().0@)->0,
            pairs.last().1@,
        )
    }
}

impl FetchedChunks {
    /// Nothing fetched.
    pub fn new() -> (r: Self)
        ensures
            r@ == Map::<u64, Seq<u8>>::empty(),
    {
        let r = FetchedChunks { chunks: BTreeMap::new() };
        assert(r@ =~= Map::<u64, Seq<u8>>::empty());
        r
    }

    /// Takes in the answer to a point lookup. A chunk with no stored key stays
    /// absent.
    pub fn add_lookup(&mut self, index: u64, value: Option<Vec<u8>>)
        ensures
            final(self)@ == match value {
                Some(chunk) => old(self)@.insert(index, chunk@),
                None => old(self)@,
            },
    {
        if let Some(chunk) = value {
            self.chunks.insert(index, chunk);
            assert(self@ =~= old(self)@.insert(index, chunk@));
        }
    }

    /// Takes in the answer to a point lookup as the chunk's contents, which are
    /// empty where nothing is stored.
    pub fn add_contents(&mut self, index: u64, value: Option<Vec<u8>>)
        ensures
            final(self)@ == old(self)@.insert(index, contents_of(value)),
    {
        let chunk: Vec<u8> = match value {
            Some(chunk) => chunk,
            None => Vec::new(),
        };
        self.chunks.insert(index, chunk);
        assert(self@ =~= old(self)@.insert(index, chunk@));
    }

    /// Takes in the pairs of a range scan, each under the index that its key
    /// ends in. A key that names no chunk is an error, and ends the reading.
    pub fn add_scan(&mut self, pairs: Vec<Pair>) -> (r: Result<()>)
        ensures
            r is Ok <==> first_bad_pair(pairs@) == pairs@.len(),
            final(self)@ == with_pairs(old(self)@, pairs@.take(first_bad_pair(pairs@))),
            r matches Err(e) ==> {
                let key = pairs@[first_bad_pair(pairs@)].0@;
                e@.source is Some && e@ == (ErrorView {
                    source: e@.source,
                    ..error::metadata_decode_error(keys::chunk_key_complaint(key), keys::HERE@)
                })
            },
    {
        let ghost all = pairs@;
        let mut left = pairs;
        let mut i: usize = 0;
        proof {
            assert(all.take(0) =~= Seq::empty());
        }
        while i < left.len()
            invariant
                all == pairs@,
                i <= left@.len(),
                left@.len() == all.len(),
                forall|j: int| i <= j < all.len() ==> left@[j] == all[j],
                first_bad_pair(all.take(i as int)) == i,
                self@ == with_pairs(old(self)@, all.take(i as int)),
            decreases left@.len() - i,
        {
            proof {
                assert(all.take(i + 1).drop_last() =~= all.take(i as int));
            }
            let chunk_idx: u64 = match keys::parse_chunk_idx(left[i].0.as_slice()) {
                Ok(chunk_idx) => chunk_idx,
                Err(error) => {
                    proof {
                        lemma_first_bad_pair(all, i as int);
                    }
                    return Err(error);
                },
            };
            let ghost before = self@;
            let mut chunk: Vec<u8> = Vec::new();
            std::mem::swap(&mut left[i].1, &mut chunk);
            self.chunks.insert(chunk_idx, chunk);
            assert(self@ =~= before.insert(chunk_idx, chunk@));
            i = i + 1;
        }
        assert(all.take(all.len() as int) =~= all);
        Ok(())
    }

    /// The chunk that was fetched for `index`.
    pub fn get(&self, index: u64) -> (r: Option<&Vec<u8>>)
        ensures
            r is Some <==> self@.contains_key(index),
            r matches Some(chunk) ==> self@[index] == chunk@,
    {
        self.chunks.get(&index)
    }

    /// The indices of the chunks that were fetched, in order.
    pub fn indices(&self) -> (r: Vec<u64>)
        ensures
            index_map::ascending(r@),
            forall|k: u64| #[trigger] r@.contains(k) <==> self@.contains_key(k),
    {
        index_map::indices(&self.chunks)
    }
}

proof fn lemma_first_bad_pair(pairs: Seq<Pair>, i: int)
    requires
        0 <= i < pairs.len(),
        first_bad_pair(pairs.take(i)) == i,
        keys::chunk_index_of(pairs[i].0@) is None,
    ensures
        first_bad_pair(pairs) == i,
    decreases pairs.len(),
{
    if i == pairs.len() - 1 {
        assert(pairs.drop_last() =~= pairs.take(i));
    } else {
        assert(pairs.drop_last().take(i) =~= pairs.take(i));
        lemma_first_bad_pair(pairs.drop_last(), i);
    }
}

/// Copies the part of `chunk` that `slice` selects into `buf`. A short chunk
/// contributes only the bytes it has.
fn copy_chunk_into(buf: &mut [u8], slice: &ChunkSlice, chunk: &[u8])
    requires
        slice.buf_offset + slice.len <= old(buf)@.len(),
        slice.chunk_offset + slice.len <= usize::MAX,
    ensures
        final(buf)@.len() == old(buf)@.len(),
        forall|i: int|
            0 <= i < final(buf)@.len() ==> #[trigger] final(buf)@[i] == if slice.buf_offset <= i
                < slice.buf_offset + slice.len && slice.chunk_offset + (i - slice.buf_offset)
                < chunk@.len() {
                chunk@[slice.chunk_offset + (i - slice.buf_offset)]
            } else {
                old(buf)@[i]
            },
{
    let total = buf.len();
    let mut i: usize = 0;
    while i < slice.len && slice.chunk_offset + i < chunk.len()
        invariant
            total == buf@.len(),
            slice.buf_offset + slice.len <= old(buf)@.len(),
            slice.chunk_offset + slice.len <= usize::MAX,
            buf@.len() == old(buf)@.len(),
            i <= slice.len,
            forall|k: int|
                0 <= k < buf@.len() ==> #[trigger] buf@[k] == if slice.buf_offset <= k
                    < slice.buf_offset + i && slice.chunk_offset + (k - slice.buf_offset)
                    < chunk@.len() {
                    chunk@[slice.chunk_offset + (k - slice.buf_offset)]
                } else {
                    old(buf)@[k]
                },
        decreases slice.len - i,
    {
        buf[slice.buf_offset + i] = chunk[slice.chunk_offset + i];
        i = i + 1;
    }
}

/// What a [`ChunkManager`] has staged, and for which file.
#[verifier::ext_equal]
pub struct ChunkManagerView {
    pub file_id: u64,
    pub chunk_size: usize,
    /// How far into the first chunk the file starts.
    pub lead: usize,
    pub pending: Pending,
}

impl ChunkManagerView {
    /// Where the byte at `offset` of the file lies, counted from the start of the
    /// first chunk.
    pub open spec fn at(self, offset: nat) -> nat {
        offset + self.lead as nat
    }

    /// Where a file of `size` bytes ends, counted from the start of the first
    /// chunk: one without bytes takes up nothing.
    pub open spec fn end_at(self, size: nat) -> nat {
        if size == 0 {
            0
        } else {
            self.at(size)
        }
    }
}

/// The staged changes to one file's chunks.
#[derive(Debug)]
pub struct ChunkManager {
    file_id: u64,
    chunk_size: usize,
    lead: usize,
    pending: BTreeMap<u64, PendingChunk>,
}

impl View for ChunkManager {
    type V = ChunkManagerView;

    closed spec fn view(&self) -> ChunkManagerView {
        ChunkManagerView {
            file_id: self.file_id,
            chunk_size: self.chunk_size,
            lead: self.lead,
            pending: self.pending@.map_values(|chunk: PendingChunk| chunk@),
        }
    }
}

impl ChunkManager {
    /// Whether offsets can be divided into chunks.
    pub open spec fn wf(self) -> bool {
        self@.lead < self@.chunk_size
    }

    /// Nothing staged for `file_id`, which starts where the first chunk does.
    pub fn new(file_id: u64, chunk_size: usize) -> (r: Self)
        ensures
            r@ == (ChunkManagerView { file_id, chunk_size, lead: 0, pending: Map::empty() }),
    {
        Self::with_lead(file_id, chunk_size, 0)
    }

    /// Nothing staged for `file_id`, which starts `lead` bytes into the first chunk.
    pub fn with_lead(file_id: u64, chunk_size: usize, lead: usize) -> (r: Self)
        ensures
            r@ == (ChunkManagerView { file_id, chunk_size, lead, pending: Map::empty() }),
    {
        let r = ChunkManager { file_id, chunk_size, lead, pending: BTreeMap::new() };
        assert(r@.pending =~= Map::<u64, Option<Seq<u8>>>::empty());
        r
    }

    /// Bytes per chunk, as recorded in the file's metadata.
    pub fn chunk_size(&self) -> (r: u64)
        ensures
            r == self@.chunk_size,
    {
        self.chunk_size as u64
    }

    /// Whether a sync has anything to write.
    pub fn has_pending_changes(&self) -> (r: bool)
        ensures
            r <==> exists|idx: u64| self@.pending.contains_key(idx),
    {
        let empty = self.pending.is_empty();
        proof {
            if !empty {
                assert(exists|idx: u64| self.pending@.contains_key(idx)) by {
                    if forall|idx: u64| !self.pending@.contains_key(idx) {
                        assert(self.pending@ =~= Map::empty());
                    }
                }
                let idx = choose|idx: u64| self.pending@.contains_key(idx);
                assert(self@.pending.contains_key(idx));
            }
        }
        !empty
    }

    /// The chunks under the `len` bytes at `offset` with no staged change.
    fn missing_chunks(&self, len: usize, offset: u64) -> (r: Vec<u64>)
        requires
            self.wf(),
            offset + len <= u64::MAX + 1,
        ensures
            r@ == missing_indices(
                self@.pending,
                chunks::first_chunk(self@.chunk_size as nat, self@.at(offset as nat)),
                chunks::end_chunk(self@.chunk_size as nat, len as nat, self@.at(offset as nat)),
            ),
    {
        let slices = split_into_chunks(self.chunk_size, self.lead, len, offset);
        let ghost cs = self@.chunk_size as nat;
        let ghost at = self@.at(offset as nat);
        let ghost first = chunks::first_chunk(cs, at);
        let ghost end = chunks::end_chunk(cs, len as nat, at);
        let mut out: Vec<u64> = Vec::new();
        let mut i: usize = 0;
        while i < slices.len()
            invariant
                i <= slices@.len(),
                cs == self@.chunk_size,
                at == self@.at(offset as nat),
                slices@ == chunks::slices_of(cs, len as nat, at),
                first == chunks::first_chunk(cs, at),
                end == chunks::end_chunk(cs, len as nat, at),
                self.wf(),
                offset + len <= u64::MAX + 1,
                out@ == missing_indices(self@.pending, first, (first + i) as nat),
            decreases slices@.len() - i,
        {
            proof {
                lemma_slice_fits(cs, len as nat, at, i as nat);
            }
            let chunk_idx: u64 = slices[i].chunk_idx;
            if !self.pending.contains_key(&chunk_idx) {
                out.push(chunk_idx);
            }
            i = i + 1;
        }
        proof {
            if len > 0 {
                lemma_div_is_ordered(at as int, at + len - 1, cs as int);
            }
        }
        out
    }

    /// The request for the chunks in `range`: one range scan, or a point lookup
    /// when it holds a single chunk.
    fn group_fetch(&self, range: ChunkRange) -> (r: ChunkFetch)
        ensures
            r.range() == range,
            r.asks_for_its_chunks(self@.file_id, self@.chunk_size),
    {
        if range.first == range.last {
            return ChunkFetch::Get {
                index: range.first,
                key: keys::chunk_key(self.file_id, range.first),
            };
        }
        // Fixed width hex keys: adjacent indices are adjacent keys, and the
        // range cannot cross into another file.

        ChunkFetch::Scan {
            range,
            first_key: keys::chunk_key(self.file_id, range.first),
            last_key: keys::chunk_key(self.file_id, range.last),
            read_ahead_bytes: scan_read_ahead_bytes(range.first, range.last, self.chunk_size),
        }
    }

    /// The requests for `chunk_indices` (ascending, deduplicated), adjacent ones
    /// coalesced into range scans that can be issued concurrently.
    pub fn chunk_fetches(&self, chunk_indices: &[u64]) -> (r: Vec<ChunkFetch>)
        ensures
            expanded(fetch_ranges(r@)) == chunk_indices@,
            proper_ranges(fetch_ranges(r@)),
            no_adjacent_ranges(fetch_ranges(r@)),
            forall|i: int|
                0 <= i < r@.len() ==> (#[trigger] r@[i]).asks_for_its_chunks(
                    self@.file_id,
                    self@.chunk_size,
                ),
    {
        let groups = coalesce_chunk_indices(chunk_indices);
        let mut fetches: Vec<ChunkFetch> = Vec::new();
        let mut i: usize = 0;
        while i < groups.len()
            invariant
                i <= groups@.len(),
                fetch_ranges(fetches@) == groups@.take(i as int),
                forall|j: int|
                    0 <= j < fetches@.len() ==> (#[trigger] fetches@[j]).asks_for_its_chunks(
                        self@.file_id,
                        self@.chunk_size,
                    ),
            decreases groups@.len() - i,
        {
            let fetch = self.group_fetch(groups[i]);
            let ghost before = fetches@;
            fetches.push(fetch);
            i = i + 1;
            proof {
                assert(fetch_ranges(fetches@) =~= fetch_ranges(before).push(fetch.range()));
                assert(fetch_ranges(fetches@) =~= groups@.take(i as int));
            }
        }
        assert(groups@.take(groups@.len() as int) =~= groups@);
        fetches
    }

    /// What to fetch before [`ChunkManager::read`] can fill `len` bytes from
    /// `offset`.
    pub fn read_fetches(&self, len: usize, offset: u64) -> (r: Vec<ChunkFetch>)
        requires
            self.wf(),
            offset + len <= u64::MAX + 1,
        ensures
            expanded(fetch_ranges(r@)) == missing_indices(
                self@.pending,
                chunks::first_chunk(self@.chunk_size as nat, self@.at(offset as nat)),
                chunks::end_chunk(self@.chunk_size as nat, len as nat, self@.at(offset as nat)),
            ),
            proper_ranges(fetch_ranges(r@)),
            no_adjacent_ranges(fetch_ranges(r@)),
            forall|i: int|
                0 <= i < r@.len() ==> (#[trigger] r@[i]).asks_for_its_chunks(
                    self@.file_id,
                    self@.chunk_size,
                ),
    {
        let missing = self.missing_chunks(len, offset);
        self.chunk_fetches(missing.as_slice())
    }

    /// Fills `buf` from `offset`; bytes no chunk covers read as zero.
    pub fn read(&self, buf: &mut [u8], offset: u64, fetched: &FetchedChunks)
        requires
            self.wf(),
            offset + old(buf)@.len() <= u64::MAX + 1,
        ensures
            final(buf)@.len() == old(buf)@.len(),
            forall|i: int|
                0 <= i < final(buf)@.len() ==> #[trigger] final(buf)@[i] == byte_at(
                    self@.chunk_size as nat,
                    self@.pending,
                    fetched@,
                    (self@.at(offset as nat) + i) as nat,
                ),
    {
        let len = buf.len();
        let ghost cs = self@.chunk_size as nat;
        let ghost at = self@.at(offset as nat);
        let ghost first = chunks::first_chunk(cs, at);
        let mut i: usize = 0;
        while i < len
            invariant
                i <= len,
                len == buf@.len(),
                forall|k: int| 0 <= k < i ==> #[trigger] buf@[k] == 0,
            decreases len - i,
        {
            buf[i] = 0;
            i = i + 1;
        }
        let slices = split_into_chunks(self.chunk_size, self.lead, len, offset);
        proof {
            lemma_fundamental_div_mod(at as int, cs as int);
            lemma_mod_bound(at as int, cs as int);
            lemma_mul_is_commutative(cs as int, first as int);
        }
        let mut n: usize = 0;
        while n < slices.len()
            invariant
                n <= slices@.len(),
                len == buf@.len(),
                cs == self@.chunk_size,
                at == self@.at(offset as nat),
                first == chunks::first_chunk(cs, at),
                self.wf(),
                offset + len <= u64::MAX + 1,
                slices@ == chunks::slices_of(cs, len as nat, at),
                forall|k: int|
                    0 <= k < len && at + k < (first + n) * cs ==> #[trigger] buf@[k]
                        == byte_at(cs, self@.pending, fetched@, (at + k) as nat),
                forall|k: int|
                    0 <= k < len && at + k >= (first + n) * cs ==> #[trigger] buf@[k] == 0,
            decreases slices@.len() - n,
        {
            let slice = slices[n];
            let ghost before = buf@;
            let ghost idx = (first + n) as nat;
            proof {
                lemma_slice_fits(cs, len as nat, at, n as nat);
            }
            let source: Option<&Vec<u8>> = match self.pending.get(&slice.chunk_idx) {
                Some(PendingChunk::Written(chunk)) => Some(chunk),
                Some(PendingChunk::Deleted) => None,
                None => fetched.get(slice.chunk_idx),
            };
            if let Some(chunk) = source {
                copy_chunk_into(buf, &slice, chunk.as_slice());
            }
            proof {
                let chunk = chunk_at(self@.pending, fetched@, slice.chunk_idx);
                assert(match source {
                    Some(bytes) => bytes@ == chunk,
                    None => chunk == Seq::<u8>::empty(),
                });
                lemma_read_step(cs, self@.pending, fetched@, before, buf@, at, len, n as nat);
            }
            n = n + 1;
        }
        proof {
            lemma_all_covered(cs, len as nat, at);
        }
    }
}

/// A slice of a span of bytes stays within the span and within the chunk, and
/// its fields are what they say without wrapping.
proof fn lemma_slice_fits(cs: nat, len: nat, offset: nat, n: nat)
    requires
        0 < cs <= usize::MAX,
        offset + len <= u64::MAX + cs,
        len <= usize::MAX,
        n < chunks::slices_of(cs, len, offset).len(),
    ensures
        ({
            let idx = (chunks::first_chunk(cs, offset) + n) as nat;
            let slice = chunks::slices_of(cs, len, offset)[n as int];
            let start = chunks::part_start(cs, offset, idx);
            let end = chunks::part_end(cs, len, offset, idx);
            &&& chunks::first_chunk(cs, offset) <= idx < chunks::end_chunk(cs, len, offset)
            &&& slice.chunk_idx == idx
            &&& slice.buf_offset == start - offset
            &&& slice.chunk_offset == start - idx * cs
            &&& slice.len == end - start
            &&& slice.buf_offset + slice.len <= len
            &&& slice.chunk_offset + slice.len <= cs
            &&& 0 < slice.len
            &&& idx <= u64::MAX
        }),
{
    let idx = (chunks::first_chunk(cs, offset) + n) as nat;
    if len > 0 {
        lemma_div_is_ordered(offset as int, offset + len - 1, cs as int);
    }
    chunks::lemma_slice_at(cs, len, offset, idx);
    if idx > u64::MAX {
        assert(idx * cs >= u64::MAX + cs) by (nonlinear_arith)
            requires
                idx >= u64::MAX + 1,
                0 < cs,
        ;
    }
}

proof fn lemma_all_covered(cs: nat, len: nat, offset: nat)
    requires
        0 < cs,
    ensures
        len > 0 ==> offset + len <= (chunks::first_chunk(cs, offset) + chunks::slices_of(
            cs,
            len,
            offset,
        ).len()) * cs,
{
    if len > 0 {
        let last_pos = offset + len - 1;
        lemma_div_is_ordered(offset as int, last_pos, cs as int);
        lemma_fundamental_div_mod(last_pos, cs as int);
        lemma_mod_bound(last_pos, cs as int);
        let last = last_pos / cs as int;
        assert((last + 1) * cs == cs * last + cs) by (nonlinear_arith);
    }
}

/// One more slice of a read: the bytes it covers are the file's now.
proof fn lemma_read_step(
    cs: nat,
    pending: Pending,
    stored: Stored,
    before: Seq<u8>,
    after: Seq<u8>,
    offset: nat,
    len: usize,
    n: nat,
)
    requires
        0 < cs <= usize::MAX,
        offset + len <= u64::MAX + cs,
        before.len() == len,
        after.len() == len,
        n < chunks::slices_of(cs, len as nat, offset).len(),
        forall|k: int|
            0 <= k < len && offset + k < (chunks::first_chunk(cs, offset) + n) * cs
                ==> #[trigger] before[k] == byte_at(cs, pending, stored, (offset + k) as nat),
        forall|k: int|
            0 <= k < len && offset + k >= (chunks::first_chunk(cs, offset) + n) * cs
                ==> #[trigger] before[k] == 0,
        ({
            let slice = chunks::slices_of(cs, len as nat, offset)[n as int];
            let chunk = chunk_at(pending, stored, slice.chunk_idx);
            forall|i: int|
                0 <= i < len ==> #[trigger] after[i] == if slice.buf_offset <= i
                    < slice.buf_offset + slice.len && slice.chunk_offset + (i - slice.buf_offset)
                    < chunk.len() {
                    chunk[slice.chunk_offset + (i - slice.buf_offset)]
                } else {
                    before[i]
                }
        }),
    ensures
        forall|k: int|
            0 <= k < len && offset + k < (chunks::first_chunk(cs, offset) + n + 1) * cs
                ==> #[trigger] after[k] == byte_at(cs, pending, stored, (offset + k) as nat),
        forall|k: int|
            0 <= k < len && offset + k >= (chunks::first_chunk(cs, offset) + n + 1) * cs
                ==> #[trigger] after[k] == 0,
{
    let first = chunks::first_chunk(cs, offset);
    let idx = (first + n) as nat;
    let slice = chunks::slices_of(cs, len as nat, offset)[n as int];
    lemma_slice_fits(cs, len as nat, offset, n);
    chunks::lemma_slice_at(cs, len as nat, offset, idx);
    assert forall|k: int|
        0 <= k < len && offset + k < (first + n + 1) * cs implies #[trigger] after[k] == byte_at(
        cs,
        pending,
        stored,
        (offset + k) as nat,
    ) by {
        let pos = (offset + k) as nat;
        assert(before[k] == before[k]);
        if pos >= idx * cs {
            chunks::lemma_byte_in_chunk(cs, idx, pos);
        }
    }
    assert forall|k: int| 0 <= k < len && offset + k >= (first + n + 1) * cs implies #[trigger] after[k]
        == 0 by {
        assert(before[k] == before[k]);
    }
}

/// Whether the `len` bytes at `offset` cover all of chunk `idx`.
pub open spec fn covers_chunk(chunk_size: nat, len: nat, offset: nat, idx: nat) -> bool {
    &&& chunks::part_start(chunk_size, offset, idx) == idx * chunk_size
    &&& chunks::part_end(chunk_size, len, offset, idx) == (idx + 1) * chunk_size
}

/// `base` with `data` written over it from `at` on, and zeroes where it did not
/// reach that far.
pub open spec fn overlaid(base: Seq<u8>, at: nat, data: Seq<u8>) -> Seq<u8> {
    Seq::new(
        if base.len() < at + data.len() {
            at + data.len()
        } else {
            base.len()
        },
        |i: int|
            if at <= i < at + data.len() {
                data[i - at]
            } else {
                chunk_byte(base, i as nat)
            },
    )
}

/// Chunk `idx` once `data` is written at `offset`. A whole-chunk write replaces
/// what was there.
pub open spec fn written_chunk(
    chunk_size: nat,
    pending: Pending,
    stored: Stored,
    data: Seq<u8>,
    offset: nat,
    idx: nat,
) -> Seq<u8> {
    let start = chunks::part_start(chunk_size, offset, idx);
    let end = chunks::part_end(chunk_size, data.len(), offset, idx);
    let base = if covers_chunk(chunk_size, data.len(), offset, idx) {
        Seq::empty()
    } else {
        chunk_at(pending, stored, idx as u64)
    };
    overlaid(base, (start - idx * chunk_size) as nat, data.subrange(start - offset, end - offset))
}

/// The staged changes once the chunks below `stop` have their part of `data`.
pub open spec fn staged(
    chunk_size: nat,
    pending: Pending,
    stored: Stored,
    data: Seq<u8>,
    offset: nat,
    stop: nat,
) -> Pending {
    let first = chunks::first_chunk(chunk_size, offset);
    Map::new(
        |k: u64| pending.contains_key(k) || first <= k < stop,
        |k: u64|
            if first <= k < stop {
                Some(written_chunk(chunk_size, pending, stored, data, offset, k as nat))
            } else {
                pending[k]
            },
    )
}

/// Whether writing the part of chunk `idx` that `len` bytes at `offset` cover
/// needs the chunk's stored bytes, and they are not known.
pub open spec fn needs_stored(
    chunk_size: nat,
    pending: Pending,
    known: Stored,
    len: nat,
    offset: nat,
    idx: nat,
) -> bool {
    &&& !covers_chunk(chunk_size, len, offset, idx)
    &&& !pending.contains_key(idx as u64)
    &&& !known.contains_key(idx as u64)
}

/// Writes the part of `data` that `slice` selects over `chunk`.
fn overlay_slice(chunk: &mut Vec<u8>, slice: &ChunkSlice, data: &[u8])
    requires
        slice.buf_offset + slice.len <= data@.len(),
        slice.chunk_offset + slice.len <= usize::MAX,
    ensures
        final(chunk)@ == overlaid(
            old(chunk)@,
            slice.chunk_offset as nat,
            data@.subrange(slice.buf_offset as int, slice.buf_offset + slice.len),
        ),
{
    let required_len: usize = slice.chunk_offset + slice.len;
    if chunk.len() < required_len {
        chunk.resize(required_len, 0);
    }
    let ghost part = data@.subrange(slice.buf_offset as int, slice.buf_offset + slice.len);
    let ghost goal = overlaid(old(chunk)@, slice.chunk_offset as nat, part);
    let total = data.len();
    let mut i: usize = 0;
    while i < slice.len
        invariant
            i <= slice.len,
            total == data@.len(),
            slice.buf_offset + slice.len <= data@.len(),
            slice.chunk_offset + slice.len <= usize::MAX,
            slice.chunk_offset + slice.len <= chunk@.len(),
            chunk@.len() == goal.len(),
            part == data@.subrange(slice.buf_offset as int, slice.buf_offset + slice.len),
            forall|k: int|
                0 <= k < chunk@.len() ==> #[trigger] chunk@[k] == if slice.chunk_offset <= k
                    < slice.chunk_offset + i {
                    part[k - slice.chunk_offset]
                } else {
                    chunk_byte(old(chunk)@, k as nat)
                },
        decreases slice.len - i,
    {
        let byte: u8 = data[slice.buf_offset + i];
        chunk[slice.chunk_offset + i] = byte;
        i = i + 1;
    }
    assert(chunk@ =~= goal);
}

impl ChunkManager {
    /// Stages `data` at `offset` for the next sync.
    ///
    /// Where a chunk is changed in part and what is stored of it has not been
    /// fetched, its index comes back and the chunks before it are staged.
    /// Calling again once it has been fetched picks the write up.
    pub fn write(&mut self, data: &[u8], offset: u64, fetched: &FetchedChunks) -> (r: Option<u64>)
        requires
            old(self).wf(),
            offset + data@.len() <= u64::MAX + 1,
        ensures
            final(self)@.file_id == old(self)@.file_id,
            final(self)@.chunk_size == old(self)@.chunk_size,
            final(self)@.lead == old(self)@.lead,
            ({
                let cs = old(self)@.chunk_size as nat;
                let pending = old(self)@.pending;
                let at = old(self)@.at(offset as nat);
                let first = chunks::first_chunk(cs, at);
                let end = chunks::end_chunk(cs, data@.len(), at);
                let stop = match r {
                    Some(idx) => idx as nat,
                    None => end,
                };
                &&& final(self)@.pending == staged(cs, pending, fetched@, data@, at, stop)
                &&& r matches Some(idx) ==> first <= idx < end && needs_stored(
                    cs,
                    pending,
                    fetched@,
                    data@.len(),
                    at,
                    idx as nat,
                )
                &&& forall|k: nat|
                    first <= k < stop ==> !(#[trigger] needs_stored(
                        cs,
                        pending,
                        fetched@,
                        data@.len(),
                        at,
                        k,
                    ))
            }),
    {
        let len = data.len();
        let slices = split_into_chunks(self.chunk_size, self.lead, len, offset);
        let ghost cs = old(self)@.chunk_size as nat;
        let ghost pending = old(self)@.pending;
        let ghost at = old(self)@.at(offset as nat);
        let ghost first = chunks::first_chunk(cs, at);
        let ghost end = chunks::end_chunk(cs, len as nat, at);
        proof {
            if len > 0 {
                lemma_div_is_ordered(at as int, at + len - 1, cs as int);
            }
            assert(self@.pending =~= staged(cs, pending, fetched@, data@, at, first));
        }
        let mut n: usize = 0;
        while n < slices.len()
            invariant
                n <= slices@.len(),
                len == data@.len(),
                cs == old(self)@.chunk_size,
                pending == old(self)@.pending,
                at == old(self)@.at(offset as nat),
                first == chunks::first_chunk(cs, at),
                end == chunks::end_chunk(cs, len as nat, at),
                first <= end,
                old(self).wf(),
                offset + len <= u64::MAX + 1,
                slices@ == chunks::slices_of(cs, len as nat, at),
                self@.file_id == old(self)@.file_id,
                self@.chunk_size == old(self)@.chunk_size,
                self@.lead == old(self)@.lead,
                self@.pending == staged(
                    cs,
                    pending,
                    fetched@,
                    data@,
                    at,
                    (first + n) as nat,
                ),
                forall|k: nat|
                    first <= k < first + n ==> !(#[trigger] needs_stored(
                        cs,
                        pending,
                        fetched@,
                        data@.len(),
                        at,
                        k,
                    )),
            decreases slices@.len() - n,
        {
            let slice = slices[n];
            let ghost idx = (first + n) as nat;
            proof {
                lemma_slice_fits(cs, len as nat, at, n as nat);
                chunks::lemma_slice_at(cs, len as nat, at, idx);
                assert(idx as u64 == slice.chunk_idx);
                assert(self@.pending.contains_key(slice.chunk_idx) == pending.contains_key(
                    slice.chunk_idx,
                ));
                assert(pending.contains_key(slice.chunk_idx) ==> self@.pending[slice.chunk_idx]
                    == pending[slice.chunk_idx]);
                assert(covers_chunk(cs, len as nat, at, idx) <==> slice.chunk_offset == 0
                    && slice.len == self.chunk_size);
            }
            // A whole-chunk write replaces it, so skip fetching the old bytes.
            let mut chunk: Vec<u8> = if slice.chunk_offset == 0 && slice.len == self.chunk_size {
                Vec::new()
            } else {
                match self.pending.get(&slice.chunk_idx) {
                    Some(PendingChunk::Written(chunk)) => chunk.clone(),
                    Some(PendingChunk::Deleted) => Vec::new(),
                    None => match fetched.get(slice.chunk_idx) {
                        Some(chunk) => chunk.clone(),
                        None => {
                            return Some(slice.chunk_idx);
                        },
                    },
                }
            };
            let ghost base = chunk@;
            proof {
                if !covers_chunk(cs, len as nat, at, idx) {
                    assert(base =~= chunk_at(pending, fetched@, slice.chunk_idx));
                }
            }
            overlay_slice(&mut chunk, &slice, data);
            let ghost before = self@.pending;
            proof {
                assert(chunk@ =~= written_chunk(cs, pending, fetched@, data@, at, idx));
            }
            self.pending.insert(slice.chunk_idx, PendingChunk::Written(chunk));
            proof {
                assert(self@.pending =~= before.insert(slice.chunk_idx, Some(chunk@)));
                assert(self@.pending =~= staged(
                    cs,
                    pending,
                    fetched@,
                    data@,
                    at,
                    (idx + 1) as nat,
                ));
            }
            n = n + 1;
        }
        None
    }
}

/// The first of a list of stored keys that names no chunk, or the number of
/// keys where each does.
pub open spec fn first_bad_key(stored_keys: Seq<Vec<u8>>) -> int
    decreases stored_keys.len(),
{
    if stored_keys.len() == 0 {
        0
    } else if first_bad_key(stored_keys.drop_last()) < stored_keys.len() - 1
        || keys::chunk_index_of(stored_keys.last()@) is None {
        first_bad_key(stored_keys.drop_last())
    } else {
        stored_keys.len() as int
    }
}

/// The indices that a list of stored keys names, those below `min` left out.
pub open spec fn indices_from(stored_keys: Seq<Vec<u8>>, min: nat) -> Seq<u64>
    decreases stored_keys.len(),
{
    if stored_keys.len() == 0 {
        Seq::empty()
    } else {
        let before = indices_from(stored_keys.drop_last(), min);
        let idx = keys::chunk_index_of(stored_keys.last()@)->0;
        if idx >= min {
            before.push(idx)
        } else {
            before
        }
    }
}

/// `pending` with the deletion of each of `indices` staged.
pub open spec fn with_deleted(pending: Pending, indices: Seq<u64>) -> Pending {
    Map::new(
        |k: u64| pending.contains_key(k) || indices.contains(k),
        |k: u64|
            if indices.contains(k) {
                None
            } else {
                pending[k]
            },
    )
}

/// The staged changes to chunks up to `last`.
pub open spec fn kept_up_to(pending: Pending, last: u64) -> Pending {
    Map::new(|k: u64| pending.contains_key(k) && k <= last, |k: u64| pending[k])
}

/// The first `len` bytes of a chunk, or all of a shorter one.
pub open spec fn shortened(chunk: Seq<u8>, len: nat) -> Seq<u8> {
    if chunk.len() > len {
        chunk.take(len as int)
    } else {
        chunk
    }
}

/// The last chunk of a file that ends at `end`, counted from the start of the first
/// chunk.
pub open spec fn last_chunk_of(chunk_size: nat, end: nat) -> nat {
    ((end - 1) as nat) / chunk_size
}

/// How much of its last chunk a file that ends at `end` fills.
pub open spec fn last_len_of(chunk_size: nat, end: nat) -> nat {
    ((end - 1) as nat) % chunk_size + 1
}

/// The first chunk that a file that ends at `end` does without.
pub open spec fn first_dropped(chunk_size: nat, end: nat) -> nat {
    if end == 0 {
        0
    } else {
        last_chunk_of(chunk_size, end) + 1
    }
}

/// The staged changes once a file is cut at `end`, where the store has
/// `stored_last` under the last chunk and `dropped` are the stored chunks past it.
pub open spec fn truncated(
    chunk_size: nat,
    pending: Pending,
    stored_last: Seq<u8>,
    dropped: Seq<u64>,
    end: nat,
) -> Pending {
    if end == 0 {
        with_deleted(Map::empty(), dropped)
    } else {
        let last = last_chunk_of(chunk_size, end) as u64;
        let last_len = last_len_of(chunk_size, end);
        let kept = kept_up_to(pending, last);
        let cut = if pending.contains_key(last) {
            match pending[last] {
                Some(chunk) => kept.insert(last, Some(shortened(chunk, last_len))),
                None => kept,
            }
        } else if stored_last.len() > last_len {
            kept.insert(last, Some(stored_last.take(last_len as int)))
        } else {
            kept
        };
        with_deleted(cut, dropped)
    }
}

/// What to fetch before a truncation: the last chunk's stored bytes, where they
/// matter, and every key under the file's prefix.
#[derive(Debug)]
pub struct TruncateReads {
    pub last_chunk_key: Option<Vec<u8>>,
    pub prefix: Vec<u8>,
}

/// Reads the chunk indices out of the keys under a file's prefix, those below
/// `min_chunk_idx` left out.
fn collect_persisted_chunk_indices(stored_keys: &[Vec<u8>], min_chunk_idx: u64) -> (r: Result<
    Vec<u64>,
>)
    ensures
        r is Ok <==> first_bad_key(stored_keys@) == stored_keys@.len(),
        r matches Ok(indices) ==> indices@ == indices_from(stored_keys@, min_chunk_idx as nat),
        r matches Err(e) ==> {
            let key = stored_keys@[first_bad_key(stored_keys@)]@;
            e@.source is Some && e@ == (ErrorView {
                source: e@.source,
                ..error::metadata_decode_error(keys::chunk_key_complaint(key), keys::HERE@)
            })
        },
{
    let mut chunk_indices: Vec<u64> = Vec::new();
    let mut i: usize = 0;
    assert(stored_keys@.take(0) =~= Seq::empty());
    while i < stored_keys.len()
        invariant
            i <= stored_keys@.len(),
            first_bad_key(stored_keys@.take(i as int)) == i,
            chunk_indices@ == indices_from(stored_keys@.take(i as int), min_chunk_idx as nat),
        decreases stored_keys@.len() - i,
    {
        assert(stored_keys@.take(i + 1).drop_last() =~= stored_keys@.take(i as int));
        match keys::parse_chunk_idx(stored_keys[i].as_slice()) {
            Ok(chunk_idx) => {
                if chunk_idx >= min_chunk_idx {
                    chunk_indices.push(chunk_idx);
                }
            },
            Err(error) => {
                proof {
                    lemma_first_bad_key(stored_keys@, i as int);
                }
                return Err(error);
            },
        }
        i = i + 1;
    }
    assert(stored_keys@.take(i as int) =~= stored_keys@);
    Ok(chunk_indices)
}

proof fn lemma_first_bad_key(stored_keys: Seq<Vec<u8>>, i: int)
    requires
        0 <= i < stored_keys.len(),
        first_bad_key(stored_keys.take(i)) == i,
        keys::chunk_index_of(stored_keys[i]@) is None,
    ensures
        first_bad_key(stored_keys) == i,
    decreases stored_keys.len(),
{
    if i == stored_keys.len() - 1 {
        assert(stored_keys.drop_last() =~= stored_keys.take(i));
    } else {
        assert(stored_keys.drop_last().take(i) =~= stored_keys.take(i));
        lemma_first_bad_key(stored_keys.drop_last(), i);
    }
}

/// The write that a staged change to a chunk comes to.
pub open spec fn pending_change(file_id: u64, pending: Pending, idx: u64) -> Change {
    let key = keys::chunk_key_bytes(file_id, idx);
    match pending[idx] {
        Some(chunk) => Change::Put(key, chunk),
        None => Change::Delete(key),
    }
}

/// Whether `order` lists the chunks with a staged change, in order.
pub open spec fn lists_pending(order: Seq<u64>, pending: Pending) -> bool {
    &&& index_map::ascending(order)
    &&& forall|k: u64| #[trigger] order.contains(k) <==> pending.contains_key(k)
}

/// The writes that staged changes come to, in the order given.
pub open spec fn pending_changes(file_id: u64, pending: Pending, order: Seq<u64>) -> Seq<Change> {
    order.map_values(|k: u64| pending_change(file_id, pending, k))
}

impl ChunkManager {
    fn drop_pending_after(&mut self, last: u64)
        ensures
            final(self)@ == (ChunkManagerView {
                pending: kept_up_to(old(self)@.pending, last),
                ..old(self)@
            }),
    {
        let indices = index_map::indices(&self.pending);
        let mut i: usize = 0;
        while i < indices.len()
            invariant
                i <= indices@.len(),
                self@.file_id == old(self)@.file_id,
                self@.chunk_size == old(self)@.chunk_size,
                self@.lead == old(self)@.lead,
                forall|k: u64| #[trigger]
                    indices@.contains(k) <==> old(self)@.pending.contains_key(k),
                forall|k: u64| #[trigger]
                    self@.pending.contains_key(k) <==> old(self)@.pending.contains_key(k) && (k
                        <= last || !indices@.take(i as int).contains(k)),
                forall|k: u64| #[trigger]
                    self@.pending.contains_key(k) ==> self@.pending[k] == old(self)@.pending[k],
            decreases indices@.len() - i,
        {
            let idx: u64 = indices[i];
            let ghost before = self@.pending;
            if idx > last {
                self.pending.remove(&idx);
                assert(self@.pending =~= before.remove(idx));
            }
            proof {
                let done = indices@.take(i as int);
                assert(indices@.take(i + 1) =~= done.push(idx));
                assert forall|k: u64| #[trigger] done.push(idx).contains(k) <==> done.contains(k) || k
                    == idx by {
                    if done.contains(k) {
                        let j = done.index_of(k);
                        assert(done.push(idx)[j] == k);
                    }
                    assert(done.push(idx)[done.len() as int] == idx);
                }
            }
            i = i + 1;
        }
        proof {
            assert(indices@.take(i as int) =~= indices@);
            assert(self@.pending =~= kept_up_to(old(self)@.pending, last));
        }
    }

    fn mark_chunks_deleted(&mut self, chunk_indices: &[u64])
        ensures
            final(self)@ == (ChunkManagerView {
                pending: with_deleted(old(self)@.pending, chunk_indices@),
                ..old(self)@
            }),
    {
        let mut i: usize = 0;
        assert(self@.pending =~= with_deleted(old(self)@.pending, chunk_indices@.take(0)));
        while i < chunk_indices.len()
            invariant
                i <= chunk_indices@.len(),
                self@.file_id == old(self)@.file_id,
                self@.chunk_size == old(self)@.chunk_size,
                self@.lead == old(self)@.lead,
                self@.pending == with_deleted(
                    old(self)@.pending,
                    chunk_indices@.take(i as int),
                ),
            decreases chunk_indices@.len() - i,
        {
            let idx: u64 = chunk_indices[i];
            let ghost before = self@.pending;
            self.pending.insert(idx, PendingChunk::Deleted);
            proof {
                let done = chunk_indices@.take(i as int);
                assert(self@.pending =~= before.insert(idx, None));
                assert(chunk_indices@.take(i + 1) =~= done.push(idx));
                assert forall|k: u64| #[trigger] done.push(idx).contains(k) <==> done.contains(k) || k
                    == idx by {
                    if done.contains(k) {
                        let j = done.index_of(k);
                        assert(done.push(idx)[j] == k);
                    }
                    assert(done.push(idx)[done.len() as int] == idx);
                }
                assert(self@.pending =~= with_deleted(old(self)@.pending, done.push(idx)));
            }
            i = i + 1;
        }
        assert(chunk_indices@.take(i as int) =~= chunk_indices@);
    }

    /// What to fetch before [`ChunkManager::truncate`] can cut the file to
    /// `new_size` bytes.
    pub fn truncate_reads(&self, new_size: u64) -> (r: TruncateReads)
        requires
            self.wf(),
        ensures
            r.prefix@ == keys::chunk_prefix_bytes(self@.file_id),
            ({
                let last = last_chunk_of(
                    self@.chunk_size as nat,
                    self@.end_at(new_size as nat),
                ) as u64;
                &&& r.last_chunk_key is Some <==> new_size > 0 && !self@.pending.contains_key(last)
                &&& r.last_chunk_key matches Some(key) ==> key@ == keys::chunk_key_bytes(
                    self@.file_id,
                    last,
                )
            }),
    {
        let prefix = keys::chunk_prefix(self.file_id);
        if new_size == 0 {
            return TruncateReads { last_chunk_key: None, prefix };
        }
        let (last, _) = place_of(self.chunk_size, self.lead, new_size - 1);
        let last_chunk_key = if self.pending.contains_key(&last) {
            None
        } else {
            Some(keys::chunk_key(self.file_id, last))
        };
        TruncateReads { last_chunk_key, prefix }
    }

    /// Stages the removal of every byte at or past `new_size`, given what
    /// [`ChunkManager::truncate_reads`] asked for. A failed truncation keeps the
    /// staged writes.
    pub fn truncate(
        &mut self,
        new_size: u64,
        stored_last: Option<Vec<u8>>,
        stored_keys: &[Vec<u8>],
    ) -> (r: Result<()>)
        requires
            old(self).wf(),
        ensures
            r is Ok <==> first_bad_key(stored_keys@) == stored_keys@.len(),
            r is Ok ==> final(self)@ == (ChunkManagerView {
                pending: truncated(
                    old(self)@.chunk_size as nat,
                    old(self)@.pending,
                    contents_of(stored_last),
                    indices_from(
                        stored_keys@,
                        first_dropped(
                            old(self)@.chunk_size as nat,
                            old(self)@.end_at(new_size as nat),
                        ),
                    ),
                    old(self)@.end_at(new_size as nat),
                ),
                ..old(self)@
            }),
            r matches Err(e) ==> final(self)@ == old(self)@ && {
                let key = stored_keys@[first_bad_key(stored_keys@)]@;
                e@.source is Some && e@ == (ErrorView {
                    source: e@.source,
                    ..error::metadata_decode_error(keys::chunk_key_complaint(key), keys::HERE@)
                })
            },
    {
        let ghost stored_bytes = contents_of(stored_last);
        if new_size == 0 {
            let chunks_to_delete = match collect_persisted_chunk_indices(stored_keys, 0) {
                Ok(indices) => indices,
                Err(error) => {
                    return Err(error);
                },
            };
            self.pending.clear();
            assert(self@.pending =~= Map::<u64, Option<Seq<u8>>>::empty());
            self.mark_chunks_deleted(chunks_to_delete.as_slice());
            return Ok(());
        }
        let (last_chunk, last_offset) = place_of(self.chunk_size, self.lead, new_size - 1);
        let last_len: usize = last_offset + 1;
        let chunks_to_delete = match collect_persisted_chunk_indices(stored_keys, last_chunk + 1) {
            Ok(indices) => indices,
            Err(error) => {
                return Err(error);
            },
        };
        // Dropping pending state past the new end is safe: whatever reached the
        // store is already in `chunks_to_delete`.

        self.drop_pending_after(last_chunk);
        let ghost kept = self@.pending;
        let ghost raw = self.pending@;
        let last_change: Option<PendingChunk> = match self.pending.remove(&last_chunk) {
            Some(PendingChunk::Written(chunk)) => {
                let mut chunk = chunk;
                if chunk.len() > last_len {
                    chunk.truncate(last_len);
                }
                Some(PendingChunk::Written(chunk))
            },
            Some(PendingChunk::Deleted) => Some(PendingChunk::Deleted),
            None => match stored_last {
                Some(stored) => {
                    let mut chunk = stored;
                    if chunk.len() > last_len {
                        chunk.truncate(last_len);
                        Some(PendingChunk::Written(chunk))
                    } else {
                        None
                    }
                },
                None => None,
            },
        };
        assert(self@.pending =~= kept.remove(last_chunk));
        let ghost without = self@.pending;
        if let Some(change) = last_change {
            self.pending.insert(last_chunk, change);
            assert(self@.pending =~= without.insert(last_chunk, change@));
        }
        proof {
            let pending = old(self)@.pending;
            let cut = if pending.contains_key(last_chunk) {
                match pending[last_chunk] {
                    Some(chunk) => kept.insert(
                        last_chunk,
                        Some(shortened(chunk, last_len as nat)),
                    ),
                    None => kept,
                }
            } else if stored_bytes.len() > last_len {
                kept.insert(last_chunk, Some(stored_bytes.take(last_len as int)))
            } else {
                kept
            };
            assert(kept == kept_up_to(pending, last_chunk));
            assert(kept.contains_key(last_chunk) <==> pending.contains_key(last_chunk));
            if pending.contains_key(last_chunk) {
                assert(raw[last_chunk]@ == kept[last_chunk]);
                if pending[last_chunk] is Some {
                    assert(last_change->0@->0 =~= shortened(
                        pending[last_chunk]->0,
                        last_len as nat,
                    ));
                }
            } else if stored_bytes.len() > last_len {
                assert(last_change->0@->0 =~= stored_bytes.take(last_len as int));
            }
            assert(self@.pending =~= cut);
        }
        self.mark_chunks_deleted(chunks_to_delete.as_slice());
        Ok(())
    }

    /// Adds the staged writes and deletes to `batch`, in chunk order.
    pub fn add_pending_to_batch(&self, batch: &mut Vec<Mutation>)
        ensures
            exists|order: Seq<u64>| #[trigger]
                lists_pending(order, self@.pending) && batch::changes_of(final(batch)@)
                    == batch::changes_of(old(batch)@) + pending_changes(
                    self@.file_id,
                    self@.pending,
                    order,
                ),
    {
        let order = index_map::indices(&self.pending);
        let mut i: usize = 0;
        assert(batch::changes_of(batch@) =~= batch::changes_of(old(batch)@) + pending_changes(
            self@.file_id,
            self@.pending,
            order@.take(0),
        ));
        assert(forall|k: u64|
            self.pending@.contains_key(k) <==> self@.pending.contains_key(k));
        while i < order.len()
            invariant
                i <= order@.len(),
                forall|k: u64| #[trigger] order@.contains(k) <==> self@.pending.contains_key(k),
                batch::changes_of(batch@) == batch::changes_of(old(batch)@) + pending_changes(
                    self@.file_id,
                    self@.pending,
                    order@.take(i as int),
                ),
            decreases order@.len() - i,
        {
            let chunk_idx: u64 = order[i];
            assert(order@.contains(chunk_idx));
            let key = keys::chunk_key(self.file_id, chunk_idx);
            let ghost before = batch@;
            if let Some(pending) = self.pending.get(&chunk_idx) {
                let mutation = match pending {
                    PendingChunk::Written(chunk) => Mutation::Put { key, value: chunk.clone() },
                    PendingChunk::Deleted => Mutation::Delete { key },
                };
                proof {
                    assert(mutation@ =~= pending_change(self@.file_id, self@.pending, chunk_idx));
                }
                batch.push(mutation);
                proof {
                    assert(batch::changes_of(batch@) =~= batch::changes_of(before).push(mutation@));
                }
            }
            proof {
                let done = order@.take(i as int);
                assert(order@.take(i + 1) =~= done.push(chunk_idx));
                assert(pending_changes(self@.file_id, self@.pending, done.push(chunk_idx))
                    =~= pending_changes(self@.file_id, self@.pending, done).push(
                    pending_change(self@.file_id, self@.pending, chunk_idx),
                ));
            }
            i = i + 1;
        }
        proof {
            assert(order@.take(i as int) =~= order@);
            assert(lists_pending(order@, self@.pending));
        }
    }

    /// Drops the staged changes, once their batch is written.
    pub fn mark_flushed(&mut self)
        ensures
            final(self)@ == (ChunkManagerView { pending: Map::empty(), ..old(self)@ }),
    {
        self.pending.clear();
        assert(self@.pending =~= Map::<u64, Option<Seq<u8>>>::empty());
    }
}

/// Chunks that follow one another are asked for in one range.
pub proof fn a_run_of_chunks_is_one_range(ranges: Seq<ChunkRange>, first: u64, last: u64)
    requires
        first <= last,
        proper_ranges(ranges),
        no_adjacent_ranges(ranges),
        expanded(ranges) == Seq::new(
            (last - first + 1) as nat,
            |i: int| (first + i) as u64,
        ),
    ensures
        ranges.len() == 1,
        ranges[0] == (ChunkRange { first, last }),
{
    let run = Seq::new((last - first + 1) as nat, |i: int| (first + i) as u64);
    assert(run.len() > 0);
    assert(ranges.len() > 0);
    let n = ranges.len();
    let t = ranges[n - 1];
    let less = ranges.drop_last();
    assert(t.first <= t.last);
    let at = expanded(less).len() as int;
    assert(run[at] == range_indices(t)[0]);
    assert(run[run.len() - 1] == range_indices(t)[range_indices(t).len() - 1]);
    if n > 1 {
        let r = ranges[n - 2];
        assert(less.last() == r);
        assert(r.first <= r.last);
        let r_indices = range_indices(r);
        assert(expanded(less)[at - 1] == r_indices[r_indices.len() - 1]);
        assert(run[at - 1] == expanded(less)[at - 1]);
        assert(ranges[n - 2].last + 1 == ranges[n - 1].first);
    } else {
        assert(less =~= Seq::empty());
        assert(run[0] == t.first);
    }
}

/// A request meets the keys of the chunks that it is for, and of no other chunk of any
/// file: a lookup the one key, and a scan those between its two, both included.
pub proof fn requests_meet_their_chunks_alone(
    fetch: ChunkFetch,
    file_id: u64,
    chunk_size: usize,
    other: u64,
    k: u64,
)
    requires
        fetch.asks_for_its_chunks(file_id, chunk_size),
    ensures
        ({
            let meant = other == file_id && fetch.range().first <= k <= fetch.range().last;
            let key = keys::chunk_key_bytes(other, k);
            match fetch {
                ChunkFetch::Get { index, key: asked } => asked@ == key <==> meant,
                ChunkFetch::Scan { range, first_key, last_key, read_ahead_bytes } => (
                !keys::key_less(key, first_key@) && !keys::key_less(last_key@, key)) <==> meant,
            }
        }),
{
    match fetch {
        ChunkFetch::Get { index, key } => {
            keys::chunk_keys_are_distinct(file_id, index, other, k);
        },
        ChunkFetch::Scan { range, first_key, last_key, read_ahead_bytes } => {
            keys::chunk_scans_stay_in_their_file(file_id, range.first, range.last, other, k);
        },
    }
}

/// A range holds the indices from its first to its last, both included, and no other.
pub proof fn ranges_hold_what_lies_between(range: ChunkRange, k: u64)
    requires
        range.first <= range.last,
    ensures
        range_indices(range).contains(k) <==> range.first <= k <= range.last,
{
    if range.first <= k <= range.last {
        assert(range_indices(range)[k - range.first] == k);
    }
}

} // verus!
