use atomic_present::errors::DisplayError;
use atomic_present::fixed::{
    check_blob_payload, decode_matrix, encode_matrix, frame_matrix, identity_matrix,
    MATRIX_BLOB_LEN, ONE_Q32_32,
};

#[test]
fn one_is_the_fixed_point_unit() {
    assert_eq!(ONE_Q32_32, 1u64 << 32);
}

#[test]
fn blob_payload_is_72_bytes() {
    assert_eq!(MATRIX_BLOB_LEN, 72);
    let m = identity_matrix();
    assert_eq!(encode_matrix(&m).len(), 72);
}

#[test]
fn encode_is_little_endian_row_major() {
    let m = [
        0x0807060504030201u64,
        0,
        0,
        0,
        0,
        0,
        0,
        0,
        0xffff_ffff_ffff_ffffu64,
    ];
    let b = encode_matrix(&m);
    assert_eq!(&b[0..8], &[0x01, 0x02, 0x03, 0x04, 0x05, 0x06, 0x07, 0x08]);
    assert_eq!(&b[8..16], &[0; 8]);
    assert_eq!(&b[64..72], &[0xff; 8]);
}

#[test]
fn encode_identity() {
    let b = encode_matrix(&identity_matrix());
    // 1.0 in Q32.32 is 1 << 32: byte 4 of the word is 1, the rest 0.
    for k in 0..9 {
        for j in 0..8 {
            let expected = if k % 4 == 0 && j == 4 { 1 } else { 0 };
            assert_eq!(b[8 * k + j], expected, "word {} byte {}", k, j);
        }
    }
}

#[test]
fn round_trip_preserves_all_nine_values() {
    let m = [
        ONE_Q32_32,
        123,
        0,
        u64::MAX,
        ONE_Q32_32,
        0x8000_0000_0000_0000,
        7,
        ONE_Q32_32 / 2,
        ONE_Q32_32,
    ];
    let b = encode_matrix(&m);
    let back = decode_matrix(&b).expect("72-byte payload must decode");
    assert_eq!(back, m);
}

#[test]
fn decode_rejects_wrong_sizes() {
    assert_eq!(
        decode_matrix(&vec![0u8; 71]),
        Err(DisplayError::BlobCreationFailed)
    );
    assert_eq!(
        decode_matrix(&vec![0u8; 73]),
        Err(DisplayError::BlobCreationFailed)
    );
    assert_eq!(
        decode_matrix(&Vec::new()),
        Err(DisplayError::BlobCreationFailed)
    );
    assert!(decode_matrix(&vec![0u8; 72]).is_ok());
}

#[test]
fn payload_size_is_checked_before_blob_creation() {
    let good = encode_matrix(&identity_matrix());
    assert_eq!(check_blob_payload(&good), Ok(()));
    assert_eq!(
        check_blob_payload(&vec![0u8; 71]),
        Err(DisplayError::BlobCreationFailed)
    );
    assert_eq!(
        check_blob_payload(&vec![0u8; 80]),
        Err(DisplayError::BlobCreationFailed)
    );
}

#[test]
fn frame_matrix_interpolates_the_shear_terms() {
    let first = frame_matrix(0, 100);
    assert_eq!(
        first,
        [ONE_Q32_32, 0, 0, 0, ONE_Q32_32, ONE_Q32_32, 0, 0, ONE_Q32_32]
    );

    let mid = frame_matrix(50, 100);
    assert_eq!(mid[1], ONE_Q32_32 / 2);
    assert_eq!(mid[5], ONE_Q32_32 / 2);

    let last = frame_matrix(99, 100);
    assert_eq!(last[1], 99 * ONE_Q32_32 / 100);
    assert_eq!(last[5], ONE_Q32_32 / 100);

    // The diagonal stays identity throughout.
    for m in [first, mid, last] {
        assert_eq!(m[0], ONE_Q32_32);
        assert_eq!(m[4], ONE_Q32_32);
        assert_eq!(m[8], ONE_Q32_32);
        assert_eq!([m[2], m[3], m[6], m[7]], [0, 0, 0, 0]);
    }
}
