//! Stable SlateDB key encoding for logical files and their chunks.
//!
//! A single SlateDB instance holds three key families: chunks under `c/`, file
//! metadata under `m/` and path mappings under `p/`.

use vstd::prelude::*;
use vstd::utf8::*;

use crate::error;
use crate::error::{Error, ErrorView, Result};
use crate::parse;
use crate::text::join2;

verus! {

/// Where errors say that they come from if they come from here.
pub const HERE: &'static str = "src/keys.rs";

/// Key family each SlateFS key belongs to. Keeping the prefixes distinct lets a
/// single SlateDB instance hold every family without a scan for one family ever
/// crossing into another.
#[derive(Clone, Copy, Debug, PartialEq, Eq, Structural)]
pub enum Prefix {
    Chunk,
    Metadata,
    Path,
}

impl Prefix {
    /// The bytes every key of this family starts with.
    pub open spec fn bytes(self) -> Seq<u8> {
        match self {
            Prefix::Chunk => seq![99u8, 47u8],
            Prefix::Metadata => seq![109u8, 47u8],
            Prefix::Path => seq![112u8, 47u8],
        }
    }

    /// The text every key of this family starts with.
    pub fn as_str(self) -> (r: &'static str)
        ensures
            encode_utf8(r@) == self.bytes(),
    {
        proof {
            broadcast use is_ascii_chars_encode_utf8;

            reveal_strlit("c/");
            reveal_strlit("m/");
            reveal_strlit("p/");
            assert(is_ascii_chars("c/"@));
            assert(is_ascii_chars("m/"@));
            assert(is_ascii_chars("p/"@));
        }
        match self {
            Prefix::Chunk => "c/",
            Prefix::Metadata => "m/",
            Prefix::Path => "p/",
        }
    }
}

/// The lower-case hexadecimal digit for `d`.
pub open spec fn hex_digit(d: nat) -> u8 {
    if d < 10 {
        (48 + d) as u8
    } else {
        (87 + d) as u8
    }
}

/// The `width` lowest hexadecimal digits of `n`, most significant first.
pub open spec fn hex_padded(n: nat, width: nat) -> Seq<u8>
    decreases width,
{
    if width == 0 {
        Seq::empty()
    } else {
        hex_padded(n / 16, (width - 1) as nat).push(hex_digit(n % 16))
    }
}

/// `c/<file_id:016x>/`.
pub open spec fn chunk_prefix_bytes(file_id: u64) -> Seq<u8> {
    Prefix::Chunk.bytes() + hex_padded(file_id as nat, 16) + seq![47u8]
}

/// `c/<file_id:016x>/<chunk_index:016x>`.
pub open spec fn chunk_key_bytes(file_id: u64, chunk_index: u64) -> Seq<u8> {
    chunk_prefix_bytes(file_id) + hex_padded(chunk_index as nat, 16)
}

/// `m/<file_id:016x>`.
pub open spec fn metadata_key_bytes(file_id: u64) -> Seq<u8> {
    Prefix::Metadata.bytes() + hex_padded(file_id as nat, 16)
}

/// `m/0000000000000000/next_file_id`.
pub open spec fn next_file_id_key_bytes() -> Seq<u8> {
    Prefix::Metadata.bytes() + hex_padded(0, 16) + encode_utf8("/next_file_id"@)
}

/// `p/<path>`.
pub open spec fn path_key_bytes(path: Seq<char>) -> Seq<u8> {
    Prefix::Path.bytes() + encode_utf8(path)
}

/// The order of keys in the store: byte by byte, a proper prefix first.
pub open spec fn key_less(a: Seq<u8>, b: Seq<u8>) -> bool {
    exists|i: int| differ_first_at(a, b, i)
}

/// `a` and `b` agree below `i`, where `a` has ended or holds the lesser byte.
pub open spec fn differ_first_at(a: Seq<u8>, b: Seq<u8>, i: int) -> bool {
    &&& 0 <= i <= a.len()
    &&& i < b.len()
    &&& forall|j: int| 0 <= j < i ==> a[j] == b[j]
    &&& i < a.len() ==> a[i] < b[i]
}

/// Whether `key` starts with `prefix`.
pub open spec fn starts_with(key: Seq<u8>, prefix: Seq<u8>) -> bool {
    prefix.len() <= key.len() && key.subrange(0, prefix.len() as int) == prefix
}

fn push_hex(out: &mut Vec<u8>, n: u64, width: usize)
    ensures
        final(out)@ == old(out)@ + hex_padded(n as nat, width as nat),
    decreases width,
{
    if width > 0 {
        push_hex(out, n / 16, width - 1);
        let digit: u8 = (n % 16) as u8;
        if digit < 10 {
            out.push(48 + digit);
        } else {
            out.push(87 + digit);
        }
    }
}

/// Returns `c/<file_id:016x>/<chunk_index:016x>`.
pub fn chunk_key(file_id: u64, chunk_index: u64) -> (r: Vec<u8>)
    ensures
        r@ == chunk_key_bytes(file_id, chunk_index),
{
    let mut key = chunk_prefix(file_id);
    push_hex(&mut key, chunk_index, 16);
    key
}

/// Returns `c/<file_id:016x>/` for scanning every chunk in a file.
pub fn chunk_prefix(file_id: u64) -> (r: Vec<u8>)
    ensures
        r@ == chunk_prefix_bytes(file_id),
{
    let mut key: Vec<u8> = Vec::new();
    key.extend_from_slice(Prefix::Chunk.as_str().as_bytes());
    push_hex(&mut key, file_id, 16);
    key.push(47);
    assert(key@ =~= chunk_prefix_bytes(file_id));
    key
}

/// Returns `m/<file_id:016x>`.
pub fn metadata_key(file_id: u64) -> (r: Vec<u8>)
    ensures
        r@ == metadata_key_bytes(file_id),
{
    let mut key: Vec<u8> = Vec::new();
    key.extend_from_slice(Prefix::Metadata.as_str().as_bytes());
    push_hex(&mut key, file_id, 16);
    assert(key@ =~= metadata_key_bytes(file_id));
    key
}

/// Returns the reserved metadata key holding the next available file ID.
pub fn next_file_id_key() -> (r: Vec<u8>)
    ensures
        r@ == next_file_id_key_bytes(),
{
    let mut key = metadata_key(0);
    key.extend_from_slice("/next_file_id".as_bytes());
    assert(key@ =~= next_file_id_key_bytes());
    key
}

/// Returns `p/<path>`.
pub fn path_key(path: &str) -> (r: Vec<u8>)
    ensures
        r@ == path_key_bytes(path@),
{
    let mut key: Vec<u8> = Vec::new();
    key.extend_from_slice(Prefix::Path.as_str().as_bytes());
    key.extend_from_slice(path.as_bytes());
    assert(key@ =~= path_key_bytes(path@));
    key
}

/// Returns the path encoded in a key produced by [`path_key`], or `None` if
/// `key` is not valid UTF-8 or belongs to another key family.
pub fn parse_path_from_key(key: &[u8]) -> (r: Option<&str>)
    ensures
        r is Some <==> valid_utf8(key@) && starts_with(key@, Prefix::Path.bytes()),
        r matches Some(path) ==> key@ == path_key_bytes(path@),
{
    let text = match std::str::from_utf8(key) {
        Ok(text) => text,
        Err(_) => {
            return None;
        },
    };
    if key.len() < 2 || key[0] != 112 || key[1] != 47 {
        assert(!starts_with(key@, Prefix::Path.bytes())) by {
            if starts_with(key@, Prefix::Path.bytes()) {
                let head = key@.subrange(0, 2);
                assert(head[0] == 112 && head[1] == 47);
            }
        }
        return None;
    }
    assert(key@.subrange(0, 2) =~= Prefix::Path.bytes());
    assert(is_char_boundary(key@, 2)) by {
        reveal_with_fuel(is_char_boundary, 3);
        reveal_with_fuel(valid_utf8, 3);
    }
    let (_, path) = text.split_at(2);
    proof {
        assert(key@ =~= key@.subrange(0, 2) + key@.subrange(2, key@.len() as int));
    }
    Some(path)
}

/// What follows the last `/` of `text`, or all of it where there is none.
pub open spec fn last_segment(text: Seq<char>) -> Seq<char>
    decreases text.len(),
{
    if text.len() == 0 || text.last() == '/' {
        Seq::empty()
    } else {
        last_segment(text.drop_last()).push(text.last())
    }
}

/// The chunk index that a chunk key ends in, where it reads as one.
pub open spec fn chunk_index_of(key: Seq<u8>) -> Option<u64> {
    if valid_utf8(key) {
        parse::parsed_u64(last_segment(decode_utf8(key)), 16)
    } else {
        None
    }
}

/// Why a chunk key cannot be read.
pub open spec fn chunk_key_complaint(key: Seq<u8>) -> Seq<char> {
    if valid_utf8(key) {
        "invalid chunk index in key: "@ + decode_utf8(key)
    } else {
        "chunk key is not valid utf-8"@
    }
}

fn after_last_slash(text: &str) -> (r: &str)
    ensures
        r@ == last_segment(text@),
{
    let len = text.unicode_len();
    let mut start: usize = len;
    assert(text@.take(len as int) =~= text@);
    while start > 0 && text.get_char(start - 1) != '/'
        invariant
            start <= len,
            len == text@.len(),
            last_segment(text@) == last_segment(text@.take(start as int)) + text@.skip(
                start as int,
            ),
        decreases start,
    {
        proof {
            let before = text@.take(start as int);
            assert(before.drop_last() =~= text@.take(start - 1));
            assert(seq![before.last()] + text@.skip(start as int) =~= text@.skip(start - 1));
            assert(last_segment(before) + text@.skip(start as int) =~= last_segment(
                text@.take(start - 1),
            ) + text@.skip(start - 1));
        }
        start = start - 1;
    }
    proof {
        let before = text@.take(start as int);
        assert(last_segment(before) =~= Seq::empty());
        assert(text@.skip(start as int) =~= text@.subrange(start as int, len as int));
    }
    text.substring_char(start, len)
}

/// Reads the chunk index back out of a key produced by [`chunk_key`].
pub fn parse_chunk_idx(key: &[u8]) -> (r: Result<u64>)
    ensures
        r is Ok <==> chunk_index_of(key@) is Some,
        r matches Ok(index) ==> chunk_index_of(key@) == Some(index),
        r matches Err(e) ==> e@.source is Some && e@ == (ErrorView {
            source: e@.source,
            ..error::metadata_decode_error(chunk_key_complaint(key@), HERE@)
        }),
{
    let text = match std::str::from_utf8(key) {
        Ok(text) => text,
        Err(source) => {
            return Err(
                Error::metadata_decode_with_source(
                    "chunk key is not valid utf-8".to_string(),
                    source,
                    HERE,
                ),
            );
        },
    };
    proof {
        encode_utf8_decode_utf8(text@);
    }
    match u64::from_str_radix(after_last_slash(text), 16) {
        Ok(index) => Ok(index),
        Err(source) => Err(
            Error::metadata_decode_with_source(
                join2("invalid chunk index in key: ", text),
                source,
                HERE,
            ),
        ),
    }
}

/// How many numbers `width` hexadecimal digits can tell apart.
spec fn hex_range(width: nat) -> nat
    decreases width,
{
    if width == 0 {
        1
    } else {
        16 * hex_range((width - 1) as nat)
    }
}

proof fn lemma_hex_range_16()
    ensures
        hex_range(16) == u64::MAX + 1,
{
    reveal_with_fuel(hex_range, 17);
}

proof fn lemma_hex_padded_len(n: nat, width: nat)
    ensures
        hex_padded(n, width).len() == width,
    decreases width,
{
    if width > 0 {
        lemma_hex_padded_len(n / 16, (width - 1) as nat);
    }
}

/// Where padded digits of two numbers first differ, the lesser number has the
/// lesser digit.
proof fn lemma_hex_padded_order(n: nat, m: nat, width: nat) -> (i: int)
    requires
        n < m,
        m < hex_range(width),
    ensures
        0 <= i < width,
        forall|j: int| 0 <= j < i ==> hex_padded(n, width)[j] == hex_padded(m, width)[j],
        hex_padded(n, width)[i] < hex_padded(m, width)[i],
    decreases width,
{
    lemma_hex_padded_len(n / 16, (width - 1) as nat);
    lemma_hex_padded_len(m / 16, (width - 1) as nat);
    if n / 16 < m / 16 {
        lemma_hex_padded_order(n / 16, m / 16, (width - 1) as nat)
    } else {
        width - 1
    }
}

proof fn lemma_key_less_asymmetric(a: Seq<u8>, b: Seq<u8>)
    requires
        key_less(a, b),
    ensures
        !key_less(b, a),
{
    let i = choose|i: int| differ_first_at(a, b, i);
    if key_less(b, a) {
        let j = choose|j: int| differ_first_at(b, a, j);
        if i < j {
            assert(b[i] == a[i]);
        } else if j < i {
            assert(a[j] == b[j]);
        }
    }
}

proof fn lemma_chunk_keys_less(file_a: u64, index_a: u64, file_b: u64, index_b: u64)
    requires
        file_a < file_b || (file_a == file_b && index_a < index_b),
    ensures
        key_less(chunk_key_bytes(file_a, index_a), chunk_key_bytes(file_b, index_b)),
{
    let a = chunk_key_bytes(file_a, index_a);
    let b = chunk_key_bytes(file_b, index_b);
    lemma_hex_range_16();
    lemma_hex_padded_len(file_a as nat, 16);
    lemma_hex_padded_len(file_b as nat, 16);
    lemma_hex_padded_len(index_a as nat, 16);
    lemma_hex_padded_len(index_b as nat, 16);
    if file_a < file_b {
        let i = lemma_hex_padded_order(file_a as nat, file_b as nat, 16);
        assert(differ_first_at(a, b, 2 + i)) by {
            assert forall|j: int| 0 <= j < 2 + i implies a[j] == b[j] by {
                if j >= 2 {
                    assert(a[j] == hex_padded(file_a as nat, 16)[j - 2]);
                }
            }
        }
    } else {
        let i = lemma_hex_padded_order(index_a as nat, index_b as nat, 16);
        assert(differ_first_at(a, b, 19 + i)) by {
            assert forall|j: int| 0 <= j < 19 + i implies a[j] == b[j] by {
                if j >= 19 {
                    assert(a[j] == hex_padded(index_a as nat, 16)[j - 19]);
                }
            }
        }
    }
}

/// Chunk keys sort by file, and within a file by index.
pub proof fn chunk_keys_sort_by_file_then_index(
    file_a: u64,
    index_a: u64,
    file_b: u64,
    index_b: u64,
)
    ensures
        key_less(chunk_key_bytes(file_a, index_a), chunk_key_bytes(file_b, index_b)) <==> (file_a
            < file_b || (file_a == file_b && index_a < index_b)),
{
    let a = chunk_key_bytes(file_a, index_a);
    let b = chunk_key_bytes(file_b, index_b);
    if file_a < file_b || (file_a == file_b && index_a < index_b) {
        lemma_chunk_keys_less(file_a, index_a, file_b, index_b);
    } else if file_a != file_b || index_a != index_b {
        lemma_chunk_keys_less(file_b, index_b, file_a, index_a);
        lemma_key_less_asymmetric(b, a);
    } else if key_less(a, b) {
        lemma_key_less_asymmetric(a, b);
    }
}

/// Two chunk keys are the same key only for the same chunk of the same file.
pub proof fn chunk_keys_are_distinct(file_a: u64, index_a: u64, file_b: u64, index_b: u64)
    ensures
        chunk_key_bytes(file_a, index_a) == chunk_key_bytes(file_b, index_b) <==> (file_a == file_b
            && index_a == index_b),
{
    chunk_keys_sort_by_file_then_index(file_a, index_a, file_b, index_b);
    chunk_keys_sort_by_file_then_index(file_b, index_b, file_a, index_a);
    chunk_keys_sort_by_file_then_index(file_a, index_a, file_a, index_a);
}

/// A scan between two chunk keys of one file meets no chunk of another file,
/// and of its own file the chunks between the two indices alone.
pub proof fn chunk_scans_stay_in_their_file(
    file_id: u64,
    first: u64,
    last: u64,
    other: u64,
    index: u64,
)
    ensures
        (!key_less(chunk_key_bytes(other, index), chunk_key_bytes(file_id, first)) && !key_less(
            chunk_key_bytes(file_id, last),
            chunk_key_bytes(other, index),
        )) <==> (other == file_id && first <= index <= last),
{
    chunk_keys_sort_by_file_then_index(other, index, file_id, first);
    chunk_keys_sort_by_file_then_index(file_id, last, other, index);
}

/// A chunk key starts with a file's prefix exactly if it is that file's.
pub proof fn chunk_prefix_matches_only_its_own_file(file_id: u64, other: u64, index: u64)
    ensures
        starts_with(chunk_key_bytes(other, index), chunk_prefix_bytes(file_id)) <==> other
            == file_id,
{
    let key = chunk_key_bytes(other, index);
    let prefix = chunk_prefix_bytes(file_id);
    lemma_hex_range_16();
    lemma_hex_padded_len(file_id as nat, 16);
    lemma_hex_padded_len(other as nat, 16);
    lemma_hex_padded_len(index as nat, 16);
    if other == file_id {
        assert(key.subrange(0, prefix.len() as int) =~= prefix);
    } else if starts_with(key, prefix) {
        let i = if other < file_id {
            lemma_hex_padded_order(other as nat, file_id as nat, 16)
        } else {
            lemma_hex_padded_order(file_id as nat, other as nat, 16)
        };
        assert(key.subrange(0, prefix.len() as int)[2 + i] == prefix[2 + i]);
        assert(key[2 + i] == hex_padded(other as nat, 16)[i]);
        assert(prefix[2 + i] == hex_padded(file_id as nat, 16)[i]);
    }
}

/// A key starts with the chunk prefix of at most one file.
pub proof fn a_key_has_one_chunk_prefix(key: Seq<u8>, file_a: u64, file_b: u64)
    requires
        starts_with(key, chunk_prefix_bytes(file_a)),
        starts_with(key, chunk_prefix_bytes(file_b)),
    ensures
        file_a == file_b,
{
    lemma_hex_padded_len(file_a as nat, 16);
    lemma_hex_padded_len(file_b as nat, 16);
    chunk_prefix_matches_only_its_own_file(file_a, file_b, 0);
    chunk_prefix_matches_only_its_own_file(file_b, file_b, 0);
}

/// Two metadata keys are the same key only for the same file, and none is the
/// key of the next file ID.
pub proof fn metadata_keys_are_distinct(file_a: u64, file_b: u64)
    ensures
        metadata_key_bytes(file_a) == metadata_key_bytes(file_b) <==> file_a == file_b,
        metadata_key_bytes(file_a) != next_file_id_key_bytes(),
{
    let a = metadata_key_bytes(file_a);
    let b = metadata_key_bytes(file_b);
    lemma_hex_range_16();
    lemma_hex_padded_len(file_a as nat, 16);
    lemma_hex_padded_len(file_b as nat, 16);
    lemma_hex_padded_len(0, 16);
    lemma_next_file_id_suffix();
    assert(a.len() == 18 && next_file_id_key_bytes().len() == 31);
    if file_a != file_b {
        let i = if file_a < file_b {
            lemma_hex_padded_order(file_a as nat, file_b as nat, 16)
        } else {
            lemma_hex_padded_order(file_b as nat, file_a as nat, 16)
        };
        assert(a[2 + i] == hex_padded(file_a as nat, 16)[i]);
        assert(b[2 + i] == hex_padded(file_b as nat, 16)[i]);
    }
}

proof fn lemma_next_file_id_suffix()
    ensures
        encode_utf8("/next_file_id"@).len() == 13,
{
    reveal_strlit("/next_file_id");
    assert(is_ascii_chars("/next_file_id"@));
    is_ascii_chars_encode_utf8("/next_file_id"@);
}

/// The key of the next file ID sorts before the metadata key of every file.
pub proof fn next_file_id_key_sorts_before_every_file_metadata_key(file_id: u64)
    requires
        file_id != 0,
    ensures
        key_less(next_file_id_key_bytes(), metadata_key_bytes(file_id)),
{
    let a = next_file_id_key_bytes();
    let b = metadata_key_bytes(file_id);
    lemma_hex_range_16();
    lemma_hex_padded_len(0, 16);
    lemma_hex_padded_len(file_id as nat, 16);
    lemma_next_file_id_suffix();
    let i = lemma_hex_padded_order(0, file_id as nat, 16);
    assert(differ_first_at(a, b, 2 + i)) by {
        assert forall|j: int| 0 <= j < 2 + i implies a[j] == b[j] by {
            if j >= 2 {
                assert(a[j] == hex_padded(0, 16)[j - 2]);
            }
        }
    }
}

/// Families are told apart by their leading byte, so no scan can straddle two
/// of them however large the file ids or paths get.
pub proof fn key_families_are_disjoint(file_id: u64, index: u64, other: u64, path: Seq<char>)
    ensures
        chunk_key_bytes(file_id, index)[0] == 99,
        chunk_prefix_bytes(file_id)[0] == 99,
        metadata_key_bytes(other)[0] == 109,
        next_file_id_key_bytes()[0] == 109,
        path_key_bytes(path)[0] == 112,
        chunk_key_bytes(file_id, index) != metadata_key_bytes(other),
        chunk_key_bytes(file_id, index) != next_file_id_key_bytes(),
        chunk_key_bytes(file_id, index) != path_key_bytes(path),
        metadata_key_bytes(other) != path_key_bytes(path),
        next_file_id_key_bytes() != path_key_bytes(path),
{
    let chunk = chunk_key_bytes(file_id, index);
    let metadata = metadata_key_bytes(other);
    let next = next_file_id_key_bytes();
    let mapping = path_key_bytes(path);
    assert(Prefix::Chunk.bytes()[0] == 99);
    assert(Prefix::Metadata.bytes()[0] == 109);
    assert(Prefix::Path.bytes()[0] == 112);
    assert(chunk[0] == Prefix::Chunk.bytes()[0]);
    assert(metadata[0] == Prefix::Metadata.bytes()[0]);
    assert(next[0] == Prefix::Metadata.bytes()[0]);
    assert(mapping[0] == Prefix::Path.bytes()[0]);
}

/// A path survives the trip through its key: [`parse_path_from_key`] accepts
/// the key of any path, and no other path has that key.
pub proof fn path_key_round_trips(path: Seq<char>, other: Seq<char>)
    ensures
        valid_utf8(path_key_bytes(path)),
        starts_with(path_key_bytes(path), Prefix::Path.bytes()),
        path_key_bytes(path) == path_key_bytes(other) <==> path == other,
{
    let key = path_key_bytes(path);
    encode_utf8_valid_utf8(path);
    reveal_strlit("p/");
    assert(is_ascii_chars("p/"@));
    is_ascii_chars_encode_utf8("p/"@);
    assert(encode_utf8("p/"@) =~= Prefix::Path.bytes());
    encode_utf8_valid_utf8("p/"@);
    valid_utf8_concat(Prefix::Path.bytes(), encode_utf8(path));
    assert(key.subrange(0, 2) =~= Prefix::Path.bytes());
    if path_key_bytes(other) == key {
        assert(encode_utf8(path) =~= key.subrange(2, key.len() as int));
        assert(encode_utf8(other) =~= path_key_bytes(other).subrange(2, key.len() as int));
        encode_utf8_decode_utf8(path);
        encode_utf8_decode_utf8(other);
    }
}

/// The digits of a padded number, as characters.
spec fn hex_chars(n: nat, width: nat) -> Seq<char> {
    Seq::new(width, |i: int| hex_padded(n, width)[i] as char)
}

proof fn lemma_hex_chars_value(n: nat, width: nat)
    requires
        n < hex_range(width),
    ensures
        forall|i: int| 0 <= i < width ==> parse::is_digit(hex_chars(n, width)[i], 16),
        forall|i: int| 0 <= i < width ==> hex_padded(n, width)[i] < 128,
        parse::digits_value(hex_chars(n, width), 16) == n,
    decreases width,
{
    if width > 0 {
        let less = (width - 1) as nat;
        lemma_hex_chars_value(n / 16, less);
        lemma_hex_padded_len(n / 16, less);
        let chars = hex_chars(n, width);
        assert(chars.drop_last() =~= hex_chars(n / 16, less));
        assert(chars.last() == hex_digit(n % 16) as char);
        assert(parse::digit_value(chars.last()) == Some(n % 16));
        assert forall|i: int| 0 <= i < width implies parse::is_digit(chars[i], 16) && hex_padded(
            n,
            width,
        )[i] < 128 by {
            if i < width - 1 {
                assert(chars[i] == hex_chars(n / 16, less)[i]);
            }
        }
    }
}

proof fn lemma_last_segment(head: Seq<char>, tail: Seq<char>)
    requires
        head.len() > 0,
        head.last() == '/',
        forall|i: int| 0 <= i < tail.len() ==> tail[i] != '/',
    ensures
        last_segment(head + tail) == tail,
    decreases tail.len(),
{
    let all = head + tail;
    if tail.len() == 0 {
        assert(all =~= head);
    } else {
        assert(all.drop_last() =~= head + tail.drop_last());
        lemma_last_segment(head, tail.drop_last());
        assert(tail.drop_last().push(tail.last()) =~= tail);
    }
}

/// [`parse_chunk_idx`] reads back the index that [`chunk_key`] wrote.
pub proof fn chunk_index_round_trips(file_id: u64, index: u64)
    ensures
        chunk_index_of(chunk_key_bytes(file_id, index)) == Some(index),
{
    let key = chunk_key_bytes(file_id, index);
    lemma_hex_range_16();
    lemma_hex_chars_value(file_id as nat, 16);
    lemma_hex_chars_value(index as nat, 16);
    lemma_hex_padded_len(file_id as nat, 16);
    lemma_hex_padded_len(index as nat, 16);

    let head = seq!['c', '/'] + hex_chars(file_id as nat, 16) + seq!['/'];
    let tail = hex_chars(index as nat, 16);
    let chars = head + tail;
    assert forall|i: int| 0 <= i < chars.len() implies '\0' <= #[trigger] chars[i] <= '\u{7f}' && chars[i] as u8
        == key[i] by {
        if 2 <= i < 18 {
            assert(chars[i] == hex_chars(file_id as nat, 16)[i - 2]);
            assert(key[i] == hex_padded(file_id as nat, 16)[i - 2]);
        } else if 19 <= i {
            assert(chars[i] == tail[i - 19]);
            assert(key[i] == hex_padded(index as nat, 16)[i - 19]);
        }
    }
    assert(is_ascii_chars(chars));
    is_ascii_chars_encode_utf8(chars);
    assert(encode_utf8(chars) =~= key);
    encode_utf8_valid_utf8(chars);
    encode_utf8_decode_utf8(chars);
    assert forall|i: int| 0 <= i < tail.len() implies tail[i] != '/' by {
        assert(parse::is_digit(tail[i], 16));
    }
    lemma_last_segment(head, tail);
    assert(parse::is_digit(tail[0], 16));
    assert(parse::unsigned_digits(tail) == tail);
}

} // verus!
