//! The stored record of a file.

use slatefs::error::Error;
use slatefs::error_struct::ErrorStatus;
use slatefs::file_metadata::{FileMetadata, DEFAULT_CHUNK_BASE_OFFSET, DEFAULT_CHUNK_SIZE};
use slatefs::util::{current_time_millis, saturated_millis};

#[test]
fn file_metadata_protobuf_roundtrip_preserves_metadata() {
    let metadata = FileMetadata {
        size: 8192,
        modified_at_ms: 1_234_567_890,
        chunk_size: DEFAULT_CHUNK_SIZE,
        chunk_base_offset: DEFAULT_CHUNK_BASE_OFFSET,
    };

    let decoded = FileMetadata::decode_from_bytes(&metadata.encode_to_bytes())
        .expect("metadata should decode");

    assert_eq!(decoded, metadata);
}

#[test]
fn file_metadata_malformed_metadata_is_rejected() {
    let error = FileMetadata::decode_from_bytes(&[0x08, 0x80])
        .expect_err("truncated varint should not decode");

    assert!(matches!(error, Error::MetadataDecode(_)));
    assert_eq!(error.status(), ErrorStatus::Permanent);
}

#[test]
fn new_metadata_starts_empty_at_the_default_chunk_size() {
    let metadata = FileMetadata::new();

    assert_eq!(metadata.size, 0);
    assert_eq!(metadata.chunk_size, DEFAULT_CHUNK_SIZE);
    assert_eq!(metadata.chunk_base_offset, DEFAULT_CHUNK_BASE_OFFSET);
    assert!(metadata.modified_at_ms > 0);
    assert_eq!(
        metadata.validated_chunk_size(7).expect("chunk size"),
        DEFAULT_CHUNK_SIZE as usize
    );
}

#[test]
fn zero_chunk_size_is_rejected() {
    let metadata = FileMetadata {
        size: 0,
        modified_at_ms: 0,
        chunk_size: 0,
        chunk_base_offset: 0,
    };

    let error = metadata
        .validated_chunk_size(7)
        .expect_err("zero chunk size should be rejected");

    assert!(matches!(error, Error::InvalidArgument(_)));
    assert!(error.to_string().contains("file_id 7: must be non-zero"));
}

#[test]
fn oversized_chunk_base_offset_is_rejected() {
    let mut metadata = FileMetadata::new();
    metadata.chunk_base_offset = metadata.chunk_size;
    assert!(metadata.validated_chunk_size(7).is_err());
}

#[test]
fn oversized_chunk_base_offset_is_reported_in_full() {
    let mut metadata = FileMetadata::new();
    metadata.chunk_base_offset = 300_000;
    let error = metadata.validated_chunk_size(12).expect_err("base offset");
    assert_eq!(
        error.to_string(),
        "invalid chunk base offset for file_id 12: 300000 must be less than 262144 (permanent) \
         at src/file_metadata.rs"
    );
}

#[test]
fn metadata_protobuf_roundtrip_preserves_metadata() {
    let metadata = FileMetadata {
        size: 8192,
        modified_at_ms: 1_234_567_890,
        chunk_size: DEFAULT_CHUNK_SIZE,
        chunk_base_offset: 0,
    };

    let decoded = FileMetadata::decode_from_bytes(&metadata.encode_to_bytes())
        .expect("metadata should decode");

    assert_eq!(decoded, metadata);
}

#[test]
fn metadata_malformed_metadata_is_rejected() {
    let error = FileMetadata::decode_from_bytes(&[0x08, 0x80]);

    assert!(error.is_err());
}

#[test]
fn metadata_is_stored_as_protobuf_fields() {
    let metadata = FileMetadata {
        size: 300,
        modified_at_ms: 0,
        chunk_size: 1,
        chunk_base_offset: 127,
    };
    assert_eq!(
        metadata.encode_to_bytes(),
        [0x08, 0xac, 0x02, 0x18, 0x01, 0x20, 0x7f]
    );
    let largest = FileMetadata {
        size: u64::MAX,
        modified_at_ms: u64::MAX,
        chunk_size: u64::MAX,
        chunk_base_offset: u64::MAX,
    };
    assert_eq!(
        FileMetadata::decode_from_bytes(&largest.encode_to_bytes()).expect("largest"),
        largest
    );
}

#[test]
fn no_bytes_decode_to_a_blank_record() {
    let blank = FileMetadata {
        size: 0,
        modified_at_ms: 0,
        chunk_size: 0,
        chunk_base_offset: 0,
    };
    assert_eq!(FileMetadata::decode_from_bytes(&[]).expect("blank"), blank);
    assert!(blank.encode_to_bytes().is_empty());
}

#[test]
fn unknown_fields_are_skipped_and_the_last_value_counts() {
    let bytes = [
        0x08, 0x05, // size: 5
        0x28, 0x96, 0x01, // field 5, a varint
        0x32, 0x02, 0xff, 0xff, // field 6, two bytes
        0x3d, 1, 2, 3, 4, // field 7, four bytes
        0x41, 1, 2, 3, 4, 5, 6, 7, 8, // field 8, eight bytes
        0x4b, 0x08, 0x01, 0x4c, // field 9, a group
        0x08, 0x09, // size: 9
    ];
    let metadata = FileMetadata::decode_from_bytes(&bytes).expect("unknown fields");
    assert_eq!(metadata.size, 9);
    assert_eq!(metadata.chunk_size, 0);
}

#[test]
fn records_that_are_no_protobuf_are_rejected() {
    for bytes in [
        [0x00, 0x00].as_slice(),                   // tag zero
        &[0x0e, 0x00],                             // wire type six
        &[0x0a, 0x01, 0x00],                       // size as bytes
        &[0x4c],                                   // the end of no group
        &[0x4b, 0x08, 0x01],                       // a group without end
        &[0x32, 0x05, 0x00],                       // too few bytes
        &[0x08, 0xff, 0xff, 0xff, 0xff, 0xff, 0xff, 0xff, 0xff, 0xff, 0x02], // over 64 bits
    ] {
        let error = FileMetadata::decode_from_bytes(bytes).expect_err("no record");
        assert!(matches!(error, Error::MetadataDecode(_)));
        assert!(error.to_string().contains("metadata decode error"));
        assert!(error.detail().source().is_some());
    }
}

#[test]
fn a_field_that_does_not_decode_is_named() {
    let error = FileMetadata::decode_from_bytes(&[0x18, 0x80]).expect_err("truncated");
    assert!(error.to_string().contains("FileMetadata.chunk_size"));
}

#[test]
fn the_clock_saturates() {
    assert_eq!(saturated_millis(None), 0);
    assert_eq!(saturated_millis(Some(17)), 17);
    assert_eq!(saturated_millis(Some(u128::from(u64::MAX))), u64::MAX);
    assert_eq!(saturated_millis(Some(u128::MAX)), u64::MAX);
    assert!(current_time_millis() > 1_600_000_000_000);
}
