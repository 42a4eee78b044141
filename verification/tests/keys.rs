//! Keys, and what can be read back out of them.

use std::collections::HashSet;

use slatefs::database_metadata;
use slatefs::error::Error;
use slatefs::ids::{id_from_be_bytes, id_from_le_bytes, id_to_be_bytes, id_to_le_bytes};
use slatefs::keys::{
    chunk_key, chunk_prefix, metadata_key, next_file_id_key, parse_chunk_idx, parse_path_from_key,
    path_key,
};
use slatefs::slatefs as slatefs_module;

#[test]
fn chunk_key_is_zero_padded_hex() {
    assert_eq!(chunk_key(1, 0), b"c/0000000000000001/0000000000000000");
}

#[test]
fn chunk_keys_sort_by_file_then_index() {
    assert!(chunk_key(5, 0) < chunk_key(5, 1));
    assert!(chunk_key(1, 100) < chunk_key(2, 0));
}

#[test]
fn chunk_keys_sort_at_the_ends_of_the_range() {
    assert!(chunk_key(5, u64::MAX) < chunk_key(6, 0));
    assert!(chunk_key(9, 0) < chunk_key(10, 0));
    assert_eq!(
        chunk_key(u64::MAX, 0x0123_4567_89ab_cdef),
        b"c/ffffffffffffffff/0123456789abcdef"
    );
}

#[test]
fn chunk_prefix_matches_only_its_own_file() {
    let prefix = chunk_prefix(42);

    assert!(chunk_key(42, 7).starts_with(&prefix));
    assert!(!chunk_key(43, 0).starts_with(&prefix));
}

#[test]
fn metadata_key_is_zero_padded_hex() {
    assert_eq!(metadata_key(1), b"m/0000000000000001");
}

#[test]
fn next_file_id_key_sorts_before_every_file_metadata_key() {
    assert_eq!(next_file_id_key(), b"m/0000000000000000/next_file_id");
    assert!(next_file_id_key() < metadata_key(1));
}

#[test]
fn path_key_round_trips() {
    let path = "some/file.db";

    let key = path_key(path);

    assert!(key.starts_with(b"p/"));
    assert_eq!(parse_path_from_key(&key), Some(path));
}

#[test]
fn path_keys_of_other_scripts_round_trip() {
    for path in ["", "p/", "каталог/файл.db", "鴨子.db"] {
        assert_eq!(parse_path_from_key(&path_key(path)), Some(path));
    }
}

#[test]
fn parse_path_rejects_other_key_families() {
    assert_eq!(parse_path_from_key(&chunk_key(1, 0)), None);
    assert_eq!(parse_path_from_key(&metadata_key(1)), None);
}

#[test]
fn parse_path_rejects_invalid_utf8() {
    assert_eq!(parse_path_from_key(b"p/\xff\xfe"), None);
}

#[test]
fn parse_path_rejects_a_bare_letter() {
    assert_eq!(parse_path_from_key(b"p"), None);
    assert_eq!(parse_path_from_key(b""), None);
}

#[test]
fn key_families_are_disjoint() {
    let keys = [chunk_key(0, 0), metadata_key(0), path_key("")];

    // Families are discriminated by their leading byte, so no scan can
    // straddle two of them however large the file ids or paths get.
    let leading: HashSet<u8> = keys.iter().map(|key| key[0]).collect();
    assert_eq!(leading.len(), keys.len());
}

#[test]
fn chunk_indices_read_back() {
    for index in [0, 1, 9, 10, 15, 16, 255, 1 << 40, u64::MAX] {
        assert_eq!(
            parse_chunk_idx(&chunk_key(7, index)).expect("chunk index"),
            index
        );
    }
}

#[test]
fn chunk_index_is_what_follows_the_last_slash() {
    assert_eq!(parse_chunk_idx(b"anything/1F").expect("index"), 31);
    assert_eq!(parse_chunk_idx(b"+a").expect("index"), 10);

    for key in [
        b"c/0000000000000001/".as_slice(),
        b"c/xyz",
        b"+",
        b"-1",
        b"10000000000000000",
    ] {
        let error = parse_chunk_idx(key).expect_err("no chunk index");
        assert!(matches!(error, Error::MetadataDecode(_)));
        assert!(error.to_string().contains("invalid chunk index in key: "));
    }

    let error = parse_chunk_idx(b"c/\xff").expect_err("not UTF-8");
    assert!(error.to_string().contains("chunk key is not valid utf-8"));
}

#[test]
fn path_key_uses_database_metadata_prefix() {
    assert_eq!(path_key("some/file.db"), b"p/some/file.db");
}

#[test]
fn file_id_round_trips() {
    assert_eq!(
        database_metadata::decode_file_id(&42_u64.to_be_bytes(), "file ID").expect("file ID"),
        42
    );
}

#[test]
fn malformed_file_id_is_rejected() {
    assert!(matches!(
        database_metadata::decode_file_id(&[1, 2, 3], "file ID"),
        Err(Error::MetadataDecode(_))
    ));
}

#[test]
fn reserved_file_id_is_rejected() {
    assert!(matches!(
        database_metadata::decode_file_id(&0_u64.to_be_bytes(), "file ID"),
        Err(Error::MetadataDecode(_))
    ));
}

#[test]
fn rejected_file_ids_say_which_record_holds_them() {
    let error = database_metadata::decode_file_id(&[1, 2, 3], "path mapping").expect_err("short");
    assert_eq!(
        error.to_string(),
        "path mapping must contain an 8-byte file ID (permanent) at src/database_metadata.rs"
    );
    let error = database_metadata::decode_file_id(&[0; 8], "next file ID").expect_err("reserved");
    assert_eq!(
        error.to_string(),
        "next file ID contains reserved file ID 0 (permanent) at src/database_metadata.rs"
    );
}

#[test]
fn file_ids_round_trip_through_their_stored_form() {
    assert_eq!(
        slatefs_module::decode_file_id(&7u64.to_le_bytes(), "path mapping").expect("file id"),
        7
    );

    let error =
        slatefs_module::decode_file_id(&[1, 2, 3], "path mapping").expect_err("short payload");
    assert!(matches!(error, Error::MetadataDecode(_)));
    assert!(error.to_string().contains("expected 8 bytes, found 3"));
}

#[test]
fn stored_ids_are_the_bytes_of_the_number() {
    for id in [0, 1, 255, 256, 0x0102_0304_0506_0708, u64::MAX] {
        assert_eq!(id_to_be_bytes(id), id.to_be_bytes());
        assert_eq!(id_to_le_bytes(id), id.to_le_bytes());
        assert_eq!(id_from_be_bytes(&id.to_be_bytes()), id);
        assert_eq!(id_from_le_bytes(&id.to_le_bytes()), id);
    }
}
