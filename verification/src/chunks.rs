//! How a file's bytes are laid out over fixed-size chunks.

use vstd::arithmetic::div_mod::*;
use vstd::arithmetic::mul::*;
use vstd::prelude::*;

verus! {

/// Most bytes a range scan asks the store to read ahead.
pub const MAX_SCAN_READ_AHEAD_BYTES: usize = 4194304;

/// The part of one chunk that a span of bytes covers.
#[derive(Clone, Copy, Debug, PartialEq, Eq, Structural)]
pub struct ChunkSlice {
    /// Which chunk.
    pub chunk_idx: u64,
    /// Where the part starts within the span.
    pub buf_offset: usize,
    /// Where the part starts within the chunk.
    pub chunk_offset: usize,
    /// How long the part is.
    pub len: usize,
}

/// The first byte of the span at `offset` that lies in chunk `idx` or later.
pub open spec fn part_start(chunk_size: nat, offset: nat, idx: nat) -> nat {
    if idx * chunk_size <= offset {
        offset
    } else {
        idx * chunk_size
    }
}

/// One past the last byte of the `len` bytes at `offset` that lies in chunk
/// `idx` or earlier.
pub open spec fn part_end(chunk_size: nat, len: nat, offset: nat, idx: nat) -> nat {
    if (idx + 1) * chunk_size <= offset + len {
        (idx + 1) * chunk_size
    } else {
        offset + len
    }
}

/// The part of chunk `idx` that the `len` bytes at `offset` cover.
pub open spec fn slice_at(chunk_size: nat, len: nat, offset: nat, idx: nat) -> ChunkSlice {
    let start = part_start(chunk_size, offset, idx);
    let end = part_end(chunk_size, len, offset, idx);
    ChunkSlice {
        chunk_idx: idx as u64,
        buf_offset: (start - offset) as usize,
        chunk_offset: (start - idx * chunk_size) as usize,
        len: (end - start) as usize,
    }
}

/// The first chunk that bytes at `offset` touch.
pub open spec fn first_chunk(chunk_size: nat, offset: nat) -> nat {
    offset / chunk_size
}

/// One past the last chunk that the `len` bytes at `offset` touch.
pub open spec fn end_chunk(chunk_size: nat, len: nat, offset: nat) -> nat {
    if len == 0 {
        first_chunk(chunk_size, offset)
    } else {
        ((offset + len - 1) as nat) / chunk_size + 1
    }
}

/// The chunks that the `len` bytes at `offset` touch, in order, each with the
/// part of it that they cover.
pub open spec fn slices_of(chunk_size: nat, len: nat, offset: nat) -> Seq<ChunkSlice> {
    let first = first_chunk(chunk_size, offset);
    Seq::new(
        (end_chunk(chunk_size, len, offset) - first) as nat,
        |i: int| slice_at(chunk_size, len, offset, (first + i) as nat),
    )
}

/// What is known of a slice of a span.
pub proof fn lemma_slice_at(chunk_size: nat, len: nat, offset: nat, idx: nat)
    requires
        0 < chunk_size,
        first_chunk(chunk_size, offset) <= idx < end_chunk(chunk_size, len, offset),
    ensures
        part_start(chunk_size, offset, idx) < part_end(chunk_size, len, offset, idx),
        idx * chunk_size <= part_start(chunk_size, offset, idx),
        offset <= part_start(chunk_size, offset, idx),
        part_end(chunk_size, len, offset, idx) <= (idx + 1) * chunk_size,
        part_end(chunk_size, len, offset, idx) <= offset + len,
        (idx + 1) * chunk_size == idx * chunk_size + chunk_size,
        idx <= idx * chunk_size,
{
    let cs = chunk_size as int;
    let first = first_chunk(chunk_size, offset);
    let last = ((offset + len - 1) as nat) / chunk_size;
    lemma_fundamental_div_mod(offset as int, cs);
    lemma_fundamental_div_mod(offset + len - 1, cs);
    lemma_mod_bound(offset as int, cs);
    lemma_mod_bound(offset + len - 1, cs);
    lemma_mul_is_distributive_add(cs, idx as int, 1);
    lemma_mul_is_commutative(cs, idx as int);
    lemma_mul_is_commutative(cs, (idx + 1) as int);
    lemma_mul_inequality(first as int, idx as int, cs);
    lemma_mul_inequality(idx as int, last as int, cs);
    lemma_mul_is_commutative(cs, first as int);
    lemma_mul_is_commutative(cs, last as int);
    assert(idx <= idx * chunk_size) by (nonlinear_arith)
        requires
            0 < chunk_size,
    ;
    assert((first + 1) * chunk_size == first * chunk_size + chunk_size) by (nonlinear_arith);
    if idx > first {
        lemma_mul_inequality((first + 1) as int, idx as int, cs);
    }
}

/// The chunks that a span touches are those that share a byte with it.
pub proof fn touched_chunks_are_counted(chunk_size: nat, len: nat, offset: nat, idx: nat)
    requires
        0 < chunk_size,
    ensures
        first_chunk(chunk_size, offset) <= idx < end_chunk(chunk_size, len, offset) <==> (len > 0
            && idx * chunk_size < offset + len && offset < (idx + 1) * chunk_size),
{
    if len > 0 {
        let last = (offset + len - 1) as nat;
        lemma_fundamental_div_mod(offset as int, chunk_size as int);
        lemma_fundamental_div_mod(last as int, chunk_size as int);
        lemma_mod_bound(offset as int, chunk_size as int);
        lemma_mod_bound(last as int, chunk_size as int);
        let a = offset / chunk_size;
        let b = last / chunk_size;
        lemma_mul_is_commutative(chunk_size as int, a as int);
        lemma_mul_is_commutative(chunk_size as int, b as int);
        assert((idx + 1) * chunk_size == idx * chunk_size + chunk_size) by (nonlinear_arith);
        assert(a <= idx <==> a * chunk_size < (idx + 1) * chunk_size) by (nonlinear_arith)
            requires
                0 < chunk_size,
        ;
        assert(idx <= b <==> idx * chunk_size < (b + 1) * chunk_size) by (nonlinear_arith)
            requires
                0 < chunk_size,
        ;
        assert((b + 1) * chunk_size == b * chunk_size + chunk_size) by (nonlinear_arith);
        assert(a < idx + 1 ==> a * chunk_size <= idx * chunk_size) by (nonlinear_arith)
            requires
                0 < chunk_size,
        ;
        assert(a > idx ==> a * chunk_size >= (idx + 1) * chunk_size) by (nonlinear_arith)
            requires
                0 < chunk_size,
        ;
        assert(idx > b ==> idx * chunk_size >= (b + 1) * chunk_size) by (nonlinear_arith)
            requires
                0 < chunk_size,
        ;
        assert(idx <= b ==> idx * chunk_size <= b * chunk_size) by (nonlinear_arith)
            requires
                0 < chunk_size,
        ;
    }
}

/// The chunks of a span that ends where offsets do have indices that can be held.
pub proof fn chunk_indices_fit(chunk_size: nat, len: nat, offset: nat)
    requires
        0 < chunk_size,
        offset + len <= u64::MAX + chunk_size,
    ensures
        end_chunk(chunk_size, len, offset) <= u64::MAX + 1 || len == 0,
{
    if len > 0 {
        let last = (offset + len - 1) as nat;
        let b = last / chunk_size;
        lemma_fundamental_div_mod(last as int, chunk_size as int);
        lemma_mod_bound(last as int, chunk_size as int);
        if b > u64::MAX {
            assert(chunk_size * b >= u64::MAX + chunk_size) by (nonlinear_arith)
                requires
                    b >= u64::MAX + 1,
                    0 < chunk_size,
            ;
        }
    }
}

/// The chunk and the place in it of a byte that a slice covers.
pub proof fn lemma_byte_in_chunk(chunk_size: nat, idx: nat, pos: nat)
    requires
        0 < chunk_size,
        idx * chunk_size <= pos < (idx + 1) * chunk_size,
    ensures
        pos / chunk_size == idx,
        pos % chunk_size == pos - idx * chunk_size,
{
    let r = pos - idx * chunk_size;
    assert((idx + 1) * chunk_size == idx * chunk_size + chunk_size) by (nonlinear_arith);
    lemma_fundamental_div_mod_converse(pos as int, chunk_size as int, idx as int, r);
}

/// How far into the first chunk a file starts whose blocks start at `base`, so that
/// every block starts a chunk.
pub open spec fn lead_of(chunk_size: nat, base: nat) -> nat {
    if base == 0 {
        0
    } else {
        (chunk_size - base) as nat
    }
}

/// Returns how far into the first chunk a file starts.
pub(crate) fn lead_for(chunk_size: usize, base: u64) -> (r: usize)
    requires
        base < chunk_size,
    ensures
        r == lead_of(chunk_size as nat, base as nat),
        r < chunk_size,
{
    if base == 0 {
        0
    } else {
        chunk_size - base as usize
    }
}

/// A block of one chunk's size fills exactly one chunk, wherever in the first chunk's
/// length the blocks start.
pub proof fn a_block_fills_one_chunk(chunk_size: nat, base: nat, block: nat)
    requires
        base < chunk_size,
    ensures
        ({
            let offset = base + block * chunk_size;
            let slices = slices_of(chunk_size, chunk_size, offset + lead_of(chunk_size, base));
            &&& slices.len() == 1
            &&& slices[0] == (ChunkSlice {
                chunk_idx: (if base == 0 {
                    block
                } else {
                    block + 1
                }) as u64,
                buf_offset: 0,
                chunk_offset: 0,
                len: chunk_size as usize,
            })
        }),
{
    let idx: nat = if base == 0 {
        block
    } else {
        block + 1
    };
    let at = base + block * chunk_size + lead_of(chunk_size, base);
    assert((block + 1) * chunk_size == block * chunk_size + chunk_size) by (nonlinear_arith);
    assert(at == idx * chunk_size);
    assert((idx + 1) * chunk_size == idx * chunk_size + chunk_size) by (nonlinear_arith);
    lemma_byte_in_chunk(chunk_size, idx, at);
    lemma_byte_in_chunk(chunk_size, idx, (at + chunk_size - 1) as nat);
}

/// The chunk that the byte at `offset` lies in, and where in it, for a file that
/// starts `lead` bytes into the first chunk.
pub(crate) fn place_of(chunk_size: usize, lead: usize, offset: u64) -> (r: (u64, usize))
    requires
        lead < chunk_size,
    ensures
        r.0 == (offset + lead) as nat / chunk_size as nat,
        r.1 == (offset + lead) as nat % chunk_size as nat,
        r.1 < chunk_size,
        r.0 < u64::MAX || offset == u64::MAX,
{
    let size: u64 = chunk_size as u64;
    let whole: u64 = offset / size;
    let rest: u64 = offset % size;
    let room: u64 = size - lead as u64;
    let ghost cs = chunk_size as nat;
    let ghost at = (offset + lead) as nat;
    proof {
        lemma_fundamental_div_mod(offset as int, cs as int);
        lemma_mul_is_commutative(cs as int, whole as int);
        assert((whole + 1) * cs == whole * cs + cs) by (nonlinear_arith);
        assert((whole + 2) * cs == whole * cs + 2 * cs) by (nonlinear_arith);
        if cs > 1 {
            lemma_div_is_ordered_by_denominator(offset as int, 2, cs as int);
        } else {
            assert(offset / 1 == offset);
        }
    }
    if rest < room {
        proof {
            lemma_byte_in_chunk(cs, whole as nat, at);
        }
        (whole, rest as usize + lead)
    } else {
        proof {
            lemma_byte_in_chunk(cs, (whole + 1) as nat, at);
        }
        (whole + 1, (rest - room) as usize)
    }
}

/// Splits the `len` bytes at `offset` into per-chunk slices, for a file that starts
/// `lead` bytes into the first chunk.
pub fn split_into_chunks(chunk_size: usize, lead: usize, len: usize, offset: u64) -> (r: Vec<
    ChunkSlice,
>)
    requires
        lead < chunk_size,
        offset + len <= u64::MAX + 1,
    ensures
        r@ == slices_of(chunk_size as nat, len as nat, (offset + lead) as nat),
{
    let mut slices: Vec<ChunkSlice> = Vec::new();
    let mut covered: usize = 0;
    let ghost cs = chunk_size as nat;
    let ghost at = (offset + lead) as nat;
    let ghost first = first_chunk(cs, at);
    let ghost all = slices_of(cs, len as nat, at);
    proof {
        lemma_fundamental_div_mod(at as int, cs as int);
        lemma_mod_bound(at as int, cs as int);
        if len > 0 {
            lemma_div_is_ordered(at as int, at + len - 1, cs as int);
        }
    }
    while covered < len
        invariant
            lead < chunk_size,
            offset + len <= u64::MAX + 1,
            covered <= len,
            cs == chunk_size,
            at == offset + lead,
            first == first_chunk(cs, at),
            all == slices_of(cs, len as nat, at),
            slices@.len() <= all.len(),
            slices@ == all.take(slices@.len() as int),
            slices@.len() == 0 ==> covered == 0,
            slices@.len() > 0 ==> covered == part_end(
                cs,
                len as nat,
                at,
                (first + slices@.len() - 1) as nat,
            ) - at,
            covered == len ==> slices@.len() == all.len(),
        decreases len - covered,
    {
        let current_offset: u64 = offset + covered as u64;
        let (chunk_idx, chunk_offset) = place_of(chunk_size, lead, current_offset);
        let rest: usize = len - covered;
        let room: usize = chunk_size - chunk_offset;
        let slice_len: usize = if rest < room {
            rest
        } else {
            room
        };
        let ghost n = slices@.len();
        let ghost idx = (first + n) as nat;
        proof {
            lemma_next_slice(cs, len as nat, at, covered as nat, n);
        }
        let slice = ChunkSlice { chunk_idx, buf_offset: covered, chunk_offset, len: slice_len };
        slices.push(slice);
        proof {
            assert(slice == slice_at(cs, len as nat, at, idx));
            assert(slice == all[n as int]);
            assert(slices@ =~= all.take((n + 1) as int));
        }
        covered = covered + slice_len;
    }
    assert(slices@ =~= all);
    slices
}

/// Where the next slice of a span lies once `n` of them are done.
proof fn lemma_next_slice(cs: nat, len: nat, offset: nat, covered: nat, n: nat)
    requires
        0 < cs,
        covered < len,
        n == 0 ==> covered == 0,
        n > 0 ==> covered == part_end(cs, len, offset, (first_chunk(cs, offset) + n - 1) as nat)
            - offset,
    ensures
        ({
            let idx = (first_chunk(cs, offset) + n) as nat;
            let pos = offset + covered;
            let start = part_start(cs, offset, idx);
            let end = part_end(cs, len, offset, idx);
            &&& idx < end_chunk(cs, len, offset)
            &&& pos / cs == idx
            &&& pos == start
            &&& pos % cs == start - idx * cs
            &&& end - start == if len - covered < cs - pos % cs {
                len - covered
            } else {
                cs - pos % cs
            }
            &&& (end == offset + len <==> idx + 1 == end_chunk(cs, len, offset))
        }),
{
    let first = first_chunk(cs, offset);
    let idx = (first + n) as nat;
    let pos = offset + covered;
    let last_pos = (offset + len - 1) as nat;
    lemma_fundamental_div_mod(offset as int, cs as int);
    lemma_mod_bound(offset as int, cs as int);
    lemma_mul_is_commutative(cs as int, first as int);
    assert((idx + 1) * cs == idx * cs + cs) by (nonlinear_arith);
    if n > 0 {
        assert(((first + n - 1) as nat + 1) as nat == idx);
        assert(pos == idx * cs);
        assert(first * cs <= idx * cs) by (nonlinear_arith)
            requires
                first <= idx,
        ;
        assert((first + 1) * cs == first * cs + cs) by (nonlinear_arith);
        assert((first + 1) * cs <= idx * cs) by (nonlinear_arith)
            requires
                first + 1 <= idx,
        ;
    } else {
        assert(idx == first);
    }
    lemma_byte_in_chunk(cs, idx, pos);
    lemma_div_is_ordered(pos as int, last_pos as int, cs as int);
    lemma_fundamental_div_mod(last_pos as int, cs as int);
    lemma_mod_bound(last_pos as int, cs as int);
    let last = last_pos / cs;
    lemma_mul_is_commutative(cs as int, last as int);
    if last == idx {
        assert(offset + len <= (idx + 1) * cs);
    } else {
        assert((idx + 1) * cs <= last * cs) by (nonlinear_arith)
            requires
                idx + 1 <= last,
        ;
        assert((idx + 1) * cs < offset + len);
    }
}

/// How far ahead a scan from chunk `first` to chunk `last` reads.
pub open spec fn read_ahead(first: u64, last: u64, chunk_size: usize) -> int {
    let count = if first <= last {
        last - first + 1
    } else {
        1
    };
    if count * chunk_size < 1 {
        1
    } else if count * chunk_size > MAX_SCAN_READ_AHEAD_BYTES {
        MAX_SCAN_READ_AHEAD_BYTES as int
    } else {
        count * chunk_size
    }
}

/// Bytes to read ahead when scanning from chunk `first` to chunk `last`: all
/// that the span holds, but at least one byte and at most
/// [`MAX_SCAN_READ_AHEAD_BYTES`].
pub fn scan_read_ahead_bytes(first: u64, last: u64, chunk_size: usize) -> (r: usize)
    ensures
        r == read_ahead(first, last, chunk_size),
{
    let span: u64 = last.saturating_sub(first).saturating_add(1);
    let chunk_count: usize = if span <= usize::MAX as u64 {
        span as usize
    } else {
        usize::MAX
    };
    let ghost count: int = if first <= last {
        last - first + 1
    } else {
        1
    };
    assert(chunk_size > 0 ==> chunk_count <= chunk_count * chunk_size) by (nonlinear_arith);
    assert(chunk_size > 0 && count >= chunk_count ==> chunk_count * chunk_size <= count
        * chunk_size) by (nonlinear_arith);
    assert(chunk_size == 0 ==> chunk_count * chunk_size == 0 && count * chunk_size == 0)
        by (nonlinear_arith);
    let bytes: usize = match chunk_count.checked_mul(chunk_size) {
        Some(bytes) => bytes,
        None => usize::MAX,
    };
    if bytes < 1 {
        1
    } else if bytes > MAX_SCAN_READ_AHEAD_BYTES {
        MAX_SCAN_READ_AHEAD_BYTES
    } else {
        bytes
    }
}

/// The slices of a span are its bytes in order, with none left out and none twice: the
/// first starts where the span does, each starts where the one before it ends, and the
/// last ends where the span does. Each lies within its chunk, where those bytes of the
/// span belong.
pub proof fn slices_are_the_span_in_order(chunk_size: nat, len: nat, offset: nat, i: int)
    requires
        0 < chunk_size <= usize::MAX,
        len <= usize::MAX,
        offset + len <= u64::MAX + chunk_size,
        0 <= i < slices_of(chunk_size, len, offset).len(),
    ensures
        ({
            let slices = slices_of(chunk_size, len, offset);
            let slice = slices[i];
            &&& slice.len > 0
            &&& slice.chunk_idx * chunk_size + slice.chunk_offset == offset + slice.buf_offset
            &&& slice.chunk_offset + slice.len <= chunk_size
            &&& i == 0 ==> slice.buf_offset == 0
            &&& i + 1 < slices.len() ==> slices[i + 1].buf_offset == slice.buf_offset + slice.len
                && slices[i + 1].chunk_idx == slice.chunk_idx + 1
            &&& i + 1 == slices.len() ==> slice.buf_offset + slice.len == len
        }),
{
    let cs = chunk_size;
    let first = first_chunk(cs, offset);
    let end = end_chunk(cs, len, offset);
    let idx = (first + i) as nat;
    if len > 0 {
        lemma_div_is_ordered(offset as int, offset + len - 1, cs as int);
    }
    lemma_slice_at(cs, len, offset, idx);
    chunk_indices_fit(cs, len, offset);
    touched_chunks_are_counted(cs, len, offset, idx);
    touched_chunks_are_counted(cs, len, offset, (idx + 1) as nat);
    if idx + 1 < end {
        lemma_slice_at(cs, len, offset, (idx + 1) as nat);
    } else {
        let next = (idx + 1) as nat;
        assert((next + 1) * cs == next * cs + cs) by (nonlinear_arith);
        assert(next * cs >= offset + len);
    }
    if i == 0 {
        lemma_fundamental_div_mod(offset as int, cs as int);
        lemma_mod_bound(offset as int, cs as int);
        lemma_mul_is_commutative(cs as int, first as int);
    } else {
        touched_chunks_are_counted(cs, len, offset, (idx - 1) as nat);
    }
    let slices = slices_of(cs, len, offset);
    assert(slices[i] == slice_at(cs, len, offset, idx));
    if i + 1 < slices.len() {
        assert(slices[i + 1] == slice_at(cs, len, offset, (idx + 1) as nat));
    }
}

/// A span of any bytes at all has slices, and one of none has none.
pub proof fn only_empty_spans_have_no_slices(chunk_size: nat, len: nat, offset: nat)
    requires
        0 < chunk_size,
    ensures
        slices_of(chunk_size, len, offset).len() == 0 <==> len == 0,
{
    if len > 0 {
        lemma_div_is_ordered(offset as int, offset + len - 1, chunk_size as int);
    }
}

/// A scan reads ahead as far as its chunks reach, within a byte and the limit.
pub proof fn scans_read_ahead_within_bounds(first: u64, last: u64, chunk_size: usize)
    ensures
        1 <= read_ahead(first, last, chunk_size) <= 4 * 1024 * 1024,
        ({
            let span = (last - first + 1) * chunk_size;
            &&& first <= last && 1 <= span <= 4 * 1024 * 1024 ==> read_ahead(
                first,
                last,
                chunk_size,
            ) == span
            &&& first <= last && span > 4 * 1024 * 1024 ==> read_ahead(first, last, chunk_size) == 4
                * 1024 * 1024
        }),
{
}

} // verus!
