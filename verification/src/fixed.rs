//! Q32.32 fixed-point coefficients and the color-transform blob format.
//!
//! A color-transform matrix is nine signed fixed-point numbers with 32
//! integer and 32 fractional bits, laid out row-major. The blob payload the
//! controller expects is the nine values as little-endian 64-bit words,
//! 72 bytes in all.

use vstd::prelude::*;
use crate::errors::DisplayError;

verus! {

/// The Q32.32 encoding of 1.0: one in the lowest integer bit.
pub const ONE_Q32_32: u64 = 0x1_0000_0000;

/// The exact payload size of a matrix blob: nine 8-byte words.
pub const MATRIX_BLOB_LEN: usize = 72;

/// Byte `j` (little-endian, `0 <= j < 8`) of a Q32.32 word.
pub open spec fn q32_byte(v: u64, j: int) -> u8 {
    if j == 0 {
        (v & 0xff) as u8
    } else if j == 1 {
        ((v >> 8) & 0xff) as u8
    } else if j == 2 {
        ((v >> 16) & 0xff) as u8
    } else if j == 3 {
        ((v >> 24) & 0xff) as u8
    } else if j == 4 {
        ((v >> 32) & 0xff) as u8
    } else if j == 5 {
        ((v >> 40) & 0xff) as u8
    } else if j == 6 {
        ((v >> 48) & 0xff) as u8
    } else {
        ((v >> 56) & 0xff) as u8
    }
}

/// The little-endian byte sequence of one Q32.32 word.
pub open spec fn q32_le_bytes(v: u64) -> Seq<u8> {
    Seq::new(8, |j: int| q32_byte(v, j))
}

/// The Q32.32 word read back from 8 little-endian bytes.
pub open spec fn q32_from_bytes(s: Seq<u8>) -> u64
    recommends
        s.len() == 8,
{
    (s[0] as u64) | ((s[1] as u64) << 8) | ((s[2] as u64) << 16) | ((s[3] as u64) << 24)
        | ((s[4] as u64) << 32) | ((s[5] as u64) << 40) | ((s[6] as u64) << 48)
        | ((s[7] as u64) << 56)
}

/// The 72-byte blob payload of a nine-element matrix.
pub open spec fn matrix_bytes(m: Seq<u64>) -> Seq<u8>
    recommends
        m.len() == 9,
{
    Seq::new(72, |i: int| q32_byte(m[i / 8], i % 8))
}

/// The nine matrix elements read back from a 72-byte blob payload.
pub open spec fn matrix_from_bytes(b: Seq<u8>) -> Seq<u64>
    recommends
        b.len() == 72,
{
    Seq::new(9, |k: int| q32_from_bytes(b.subrange(8 * k, 8 * k + 8)))
}

proof fn lemma_flat_index(i: int, k: int)
    by (nonlinear_arith)
    requires
        0 <= k,
        8 * k <= i < 8 * k + 8,
    ensures
        i / 8 == k,
        i % 8 == i - 8 * k,
{
}

/// One Q32.32 word survives the little-endian byte round trip.
pub proof fn lemma_q32_round_trip(v: u64)
    ensures
        q32_from_bytes(q32_le_bytes(v)) == v,
{
    assert(((v & 0xff) as u8 as u64) | ((((v >> 8) & 0xff) as u8 as u64) << 8)
        | ((((v >> 16) & 0xff) as u8 as u64) << 16) | ((((v >> 24) & 0xff) as u8 as u64) << 24)
        | ((((v >> 32) & 0xff) as u8 as u64) << 32) | ((((v >> 40) & 0xff) as u8 as u64) << 40)
        | ((((v >> 48) & 0xff) as u8 as u64) << 48) | ((((v >> 56) & 0xff) as u8 as u64) << 56)
        == v) by (bit_vector);
}

/// Serializing a nine-element matrix and deserializing the payload yields
/// the original nine values exactly: the blob format is lossless.
pub proof fn lemma_matrix_round_trip(m: Seq<u64>)
    requires
        m.len() == 9,
    ensures
        matrix_from_bytes(matrix_bytes(m)) == m,
{
    let b = matrix_bytes(m);
    assert forall|k: int| 0 <= k < 9 implies matrix_from_bytes(b)[k] == m[k] by {
        let sub = b.subrange(8 * k, 8 * k + 8);
        assert forall|j: int| 0 <= j < 8 implies sub[j] == q32_byte(m[k], j) by {
            lemma_flat_index(8 * k + j, k);
        }
        assert(sub =~= q32_le_bytes(m[k]));
        lemma_q32_round_trip(m[k]);
    }
    assert(matrix_from_bytes(b) =~= m);
}

/// Appends the 8 little-endian bytes of one Q32.32 word.
fn push_q32_le(out: &mut Vec<u8>, v: u64)
    ensures
        final(out)@ == old(out)@ + q32_le_bytes(v),
{
    out.push((v & 0xff) as u8);
    out.push(((v >> 8) & 0xff) as u8);
    out.push(((v >> 16) & 0xff) as u8);
    out.push(((v >> 24) & 0xff) as u8);
    out.push(((v >> 32) & 0xff) as u8);
    out.push(((v >> 40) & 0xff) as u8);
    out.push(((v >> 48) & 0xff) as u8);
    out.push(((v >> 56) & 0xff) as u8);
    proof {
        assert(final(out)@ =~= old(out)@ + q32_le_bytes(v));
    }
}

/// Serializes a row-major 3x3 matrix of Q32.32 coefficients into the
/// 72-byte little-endian blob payload the controller expects.
pub fn encode_matrix(m: &[u64; 9]) -> (r: Vec<u8>)
    ensures
        r@ == matrix_bytes(m@),
        r@.len() == MATRIX_BLOB_LEN,
{
    let mut out: Vec<u8> = Vec::new();
    let mut k: usize = 0;
    while k < 9
        invariant
            k <= 9,
            out@.len() == 8 * k,
            forall|i: int| 0 <= i < 8 * k ==> out@[i] == q32_byte(m@[i / 8], i % 8),
        decreases 9 - k,
    {
        let ghost prev = out@;
        push_q32_le(&mut out, m[k]);
        proof {
            assert forall|i: int| 8 * k <= i < 8 * k + 8 implies out@[i] == q32_byte(
                m@[i / 8],
                i % 8,
            ) by {
                lemma_flat_index(i, k as int);
                assert(out@[i] == q32_le_bytes(m@[k as int])[i - 8 * k]);
            }
        }
        k = k + 1;
    }
    proof {
        assert(out@ =~= matrix_bytes(m@));
    }
    out
}

/// Reads one Q32.32 word from 8 little-endian bytes at `off`.
fn read_q32(bytes: &Vec<u8>, off: usize) -> (v: u64)
    requires
        off + 8 <= bytes@.len(),
    ensures
        v == q32_from_bytes(bytes@.subrange(off as int, off as int + 8)),
{
    let n: usize = bytes.len();
    assert(off + 8 <= n);
    (bytes[off] as u64) | ((bytes[off + 1] as u64) << 8) | ((bytes[off + 2] as u64) << 16)
        | ((bytes[off + 3] as u64) << 24) | ((bytes[off + 4] as u64) << 32)
        | ((bytes[off + 5] as u64) << 40) | ((bytes[off + 6] as u64) << 48)
        | ((bytes[off + 7] as u64) << 56)
}

/// Deserializes a blob payload back into the nine Q32.32 coefficients.
/// A payload of any size other than 72 bytes is rejected.
pub fn decode_matrix(bytes: &Vec<u8>) -> (r: Result<[u64; 9], DisplayError>)
    ensures
        bytes@.len() == MATRIX_BLOB_LEN ==> (r matches Ok(m) && m@ == matrix_from_bytes(bytes@)),
        bytes@.len() != MATRIX_BLOB_LEN ==> r == Err::<[u64; 9], DisplayError>(
            DisplayError::BlobCreationFailed,
        ),
{
    if bytes.len() != MATRIX_BLOB_LEN {
        return Err(DisplayError::BlobCreationFailed);
    }
    let m: [u64; 9] = [
        read_q32(bytes, 0),
        read_q32(bytes, 8),
        read_q32(bytes, 16),
        read_q32(bytes, 24),
        read_q32(bytes, 32),
        read_q32(bytes, 40),
        read_q32(bytes, 48),
        read_q32(bytes, 56),
        read_q32(bytes, 64),
    ];
    proof {
        assert(m@ =~= matrix_from_bytes(bytes@));
    }
    Ok(m)
}

/// Checks a payload against the blob size the CTM property expects before
/// it is handed to the kernel: anything but exactly 72 bytes is rejected.
pub fn check_blob_payload(bytes: &Vec<u8>) -> (r: Result<(), DisplayError>)
    ensures
        r == (if bytes@.len() == MATRIX_BLOB_LEN {
            Ok::<(), DisplayError>(())
        } else {
            Err::<(), DisplayError>(DisplayError::BlobCreationFailed)
        }),
{
    if bytes.len() == MATRIX_BLOB_LEN {
        Ok(())
    } else {
        Err(DisplayError::BlobCreationFailed)
    }
}

/// The identity color transform: ones on the diagonal.
pub open spec fn spec_identity_matrix() -> Seq<u64> {
    seq![
        ONE_Q32_32,
        0u64,
        0u64,
        0u64,
        ONE_Q32_32,
        0u64,
        0u64,
        0u64,
        ONE_Q32_32,
    ]
}

/// The schedule of frame `i` out of `frames`: identity on the diagonal,
/// with the two off-diagonal shear terms interpolated linearly, one rising
/// from 0 toward 1.0 and one falling from 1.0 toward 0.
pub open spec fn spec_frame_matrix(i: u64, frames: u64) -> Seq<u64>
    recommends
        0 < frames,
        i < frames,
{
    seq![
        ONE_Q32_32,
        (i * ONE_Q32_32 / (frames as int)) as u64,
        0u64,
        0u64,
        ONE_Q32_32,
        ((frames - i) * ONE_Q32_32 / (frames as int)) as u64,
        0u64,
        0u64,
        ONE_Q32_32,
    ]
}

/// The identity color-transform matrix.
pub fn identity_matrix() -> (r: [u64; 9])
    ensures
        r@ == spec_identity_matrix(),
{
    let r = [
        ONE_Q32_32,
        0u64,
        0u64,
        0u64,
        ONE_Q32_32,
        0u64,
        0u64,
        0u64,
        ONE_Q32_32,
    ];
    proof {
        assert(r@ =~= spec_identity_matrix());
    }
    r
}

/// The time-varying color-transform matrix for frame `i` of `frames`.
pub fn frame_matrix(i: u64, frames: u64) -> (r: [u64; 9])
    requires
        0 < frames,
        i < frames,
        frames < 0x1_0000_0000,
    ensures
        r@ == spec_frame_matrix(i, frames),
{
    let rising = i * ONE_Q32_32 / frames;
    let falling = (frames - i) * ONE_Q32_32 / frames;
    let r = [
        ONE_Q32_32,
        rising,
        0u64,
        0u64,
        ONE_Q32_32,
        falling,
        0u64,
        0u64,
        ONE_Q32_32,
    ];
    proof {
        assert(r@ =~= spec_frame_matrix(i, frames));
    }
    r
}

} // verus!
