//! Vector blobs: the stored form of an embedding, and the checks that come
//! before two vectors are compared.
//!
//! A component is the bit pattern of a binary32 value. The blob holds the
//! components in order, four bytes each, least significant byte first.

use vstd::prelude::*;
use vstd::string::*;
use super::Error;
use crate::float_bits::finite_32;
use crate::float_bits::is_finite_32;

verus! {

/// Number of components of every stored vector.
pub const EMBEDDING_DIMS: usize = 384;

/// Number of bytes of every stored vector blob.
pub const EMBEDDING_BLOB_SIZE: usize = 1536;

/// Byte `k` (0 is least significant) of the component `x`.
pub open spec fn le_byte(x: u32, k: int) -> u8 {
    if k == 0 {
        (x & 0xff) as u8
    } else if k == 1 {
        ((x >> 8) & 0xff) as u8
    } else if k == 2 {
        ((x >> 16) & 0xff) as u8
    } else {
        ((x >> 24) & 0xff) as u8
    }
}

/// The component whose bytes, least significant first, are `b0` to `b3`.
pub open spec fn le_word(b0: u8, b1: u8, b2: u8, b3: u8) -> u32 {
    (b0 as u32) | ((b1 as u32) << 8) | ((b2 as u32) << 16) | ((b3 as u32) << 24)
}

/// The blob of a vector: byte `i` is byte `i % 4` of component `i / 4`.
pub open spec fn encode(v: Seq<u32>) -> Seq<u8> {
    Seq::new(4 * v.len(), |i: int| le_byte(v[i / 4], i % 4))
}

/// The vector of a blob: component `i` is made of bytes `4 i` to `4 i + 3`.
pub open spec fn decode(b: Seq<u8>) -> Seq<u32> {
    Seq::new(b.len() / 4, |i: int| le_word(b[4 * i], b[4 * i + 1], b[4 * i + 2], b[4 * i + 3]))
}

proof fn lemma_word_of_bytes(x: u32)
    ensures
        le_word(le_byte(x, 0), le_byte(x, 1), le_byte(x, 2), le_byte(x, 3)) == x,
{
    assert(x == (((x & 0xff) as u8) as u32) | ((((x >> 8) & 0xff) as u8) as u32) << 8 | ((((x
        >> 16) & 0xff) as u8) as u32) << 16 | ((((x >> 24) & 0xff) as u8) as u32) << 24)
        by (bit_vector);
}

proof fn lemma_bytes_of_word(b0: u8, b1: u8, b2: u8, b3: u8)
    ensures
        le_byte(le_word(b0, b1, b2, b3), 0) == b0,
        le_byte(le_word(b0, b1, b2, b3), 1) == b1,
        le_byte(le_word(b0, b1, b2, b3), 2) == b2,
        le_byte(le_word(b0, b1, b2, b3), 3) == b3,
{
    assert(({
        let x = (b0 as u32) | ((b1 as u32) << 8) | ((b2 as u32) << 16) | ((b3 as u32) << 24);
        &&& (x & 0xff) as u8 == b0
        &&& ((x >> 8) & 0xff) as u8 == b1
        &&& ((x >> 16) & 0xff) as u8 == b2
        &&& ((x >> 24) & 0xff) as u8 == b3
    })) by (bit_vector);
}

/// Decoding undoes encoding, bit for bit, on vectors of any length.
pub proof fn lemma_decode_encode(v: Seq<u32>)
    ensures
        decode(encode(v)) == v,
{
    let b = encode(v);
    assert(b.len() / 4 == v.len());
    assert forall|i: int| 0 <= i < v.len() implies decode(b)[i] == v[i] by {
        lemma_word_of_bytes(v[i]);
        assert((4 * i) / 4 == i && (4 * i + 1) / 4 == i && (4 * i + 2) / 4 == i && (4 * i + 3) / 4
            == i);
        assert((4 * i) % 4 == 0 && (4 * i + 1) % 4 == 1 && (4 * i + 2) % 4 == 2 && (4 * i + 3) % 4
            == 3);
    }
    assert(decode(b) =~= v);
}

/// Encoding undoes decoding on blobs whose length is a multiple of four.
pub proof fn lemma_encode_decode(b: Seq<u8>)
    requires
        b.len() % 4 == 0,
    ensures
        encode(decode(b)) == b,
{
    let v = decode(b);
    assert(4 * v.len() == b.len());
    assert forall|i: int| 0 <= i < b.len() implies encode(v)[i] == b[i] by {
        let q = i / 4;
        lemma_bytes_of_word(b[4 * q], b[4 * q + 1], b[4 * q + 2], b[4 * q + 3]);
        assert(i == 4 * q + i % 4);
    }
    assert(encode(v) =~= b);
}

/// A vector of the stored dimension survives the trip through its blob
/// unchanged, and its blob has the stored size.
pub proof fn lemma_codec_round_trip(v: Seq<u32>)
    requires
        v.len() == EMBEDDING_DIMS,
    ensures
        encode(v).len() == EMBEDDING_BLOB_SIZE,
        decode(encode(v)) == v,
{
    lemma_decode_encode(v);
}

/// The blob of a vector of 384 components.
///
/// Fails with `MismatchedDimensions` on every other length.
pub fn vec_to_blob(vec: &[u32]) -> (r: Result<Vec<u8>, Error>)
    ensures
        vec@.len() == EMBEDDING_DIMS ==> (r matches Ok(blob) && blob@ == encode(vec@)),
        vec@.len() != EMBEDDING_DIMS ==> (r matches Err(
            Error::MismatchedDimensions { expected, actual },
        ) && expected == EMBEDDING_DIMS && actual == vec@.len()),
{
    if vec.len() != EMBEDDING_DIMS {
        return Err(Error::MismatchedDimensions { expected: EMBEDDING_DIMS, actual: vec.len() });
    }
    let mut blob: Vec<u8> = Vec::new();
    let mut i: usize = 0;
    while i < vec.len()
        invariant
            i <= vec@.len() == EMBEDDING_DIMS,
            blob@ == encode(vec@.take(i as int)),
        decreases vec.len() - i,
    {
        let x: u32 = vec[i];
        let ghost before = blob@;
        blob.push((x & 0xff) as u8);
        blob.push(((x >> 8) & 0xff) as u8);
        blob.push(((x >> 16) & 0xff) as u8);
        blob.push(((x >> 24) & 0xff) as u8);
        proof {
            let next = encode(vec@.take(i + 1));
            assert(blob@.len() == next.len());
            assert forall|j: int| 0 <= j < next.len() implies blob@[j] == next[j] by {
                if j < 4 * i {
                    assert(blob@[j] == before[j]);
                    assert(j / 4 < i);
                } else {
                    assert(j / 4 == i);
                    assert(j % 4 == j - 4 * i);
                }
            }
            assert(blob@ =~= next);
        }
        i += 1;
    }
    assert(vec@.take(i as int) =~= vec@);
    Ok(blob)
}

/// The vector of a blob of 1536 bytes.
///
/// Fails with `InvalidBlobSize` on every other size: a blob is never cut or padded.
pub fn blob_to_vec(blob: &[u8]) -> (r: Result<Vec<u32>, Error>)
    ensures
        blob@.len() == EMBEDDING_BLOB_SIZE ==> (r matches Ok(vec) && vec@ == decode(blob@)
            && vec@.len() == EMBEDDING_DIMS),
        blob@.len() != EMBEDDING_BLOB_SIZE ==> (r matches Err(
            Error::InvalidBlobSize { expected, actual },
        ) && expected == EMBEDDING_BLOB_SIZE && actual == blob@.len()),
{
    if blob.len() != EMBEDDING_BLOB_SIZE {
        return Err(Error::InvalidBlobSize { expected: EMBEDDING_BLOB_SIZE, actual: blob.len() });
    }
    let mut vec: Vec<u32> = Vec::new();
    let mut i: usize = 0;
    while i < EMBEDDING_DIMS
        invariant
            i <= EMBEDDING_DIMS,
            blob@.len() == EMBEDDING_BLOB_SIZE,
            vec@ == decode(blob@).take(i as int),
        decreases EMBEDDING_DIMS - i,
    {
        let b0: u8 = blob[4 * i];
        let b1: u8 = blob[4 * i + 1];
        let b2: u8 = blob[4 * i + 2];
        let b3: u8 = blob[4 * i + 3];
        let x: u32 = (b0 as u32) | ((b1 as u32) << 8) | ((b2 as u32) << 16) | ((b3 as u32) << 24);
        vec.push(x);
        assert(vec@ =~= decode(blob@).take(i + 1));
        i += 1;
    }
    assert(decode(blob@).take(i as int) =~= decode(blob@));
    Ok(vec)
}

/// No component is infinite or NaN.
pub open spec fn all_finite(v: Seq<u32>) -> bool {
    forall|i: int| 0 <= i < v.len() ==> is_finite_32(#[trigger] v[i])
}

/// Two vectors whose cosine similarity is defined: not empty, of one
/// length, every component finite.
pub open spec fn comparable(a: Seq<u32>, b: Seq<u32>) -> bool {
    &&& a.len() > 0
    &&& a.len() == b.len()
    &&& all_finite(a)
    &&& all_finite(b)
}

/// `e` is the error that comparing `a` with `b` gives.
pub open spec fn is_comparison_error(a: Seq<u32>, b: Seq<u32>, e: Error) -> bool {
    match e {
        Error::EmptyVector => a.len() == 0 || b.len() == 0,
        Error::MismatchedDimensions { expected, actual } => {
            &&& a.len() != 0
            &&& b.len() != 0
            &&& a.len() != b.len()
            &&& expected == a.len()
            &&& actual == b.len()
        },
        Error::InvalidEmbedding(msg) => {
            &&& a.len() != 0
            &&& a.len() == b.len()
            &&& !(all_finite(a) && all_finite(b))
            &&& msg@ == "Vector contains NaN or infinite values"@
        },
        _ => false,
    }
}

/// Whether every component of `v` is finite.
pub fn finite_components(v: &[u32]) -> (r: bool)
    ensures
        r == all_finite(v@),
{
    let mut i: usize = 0;
    while i < v.len()
        invariant
            i <= v@.len(),
            forall|j: int| 0 <= j < i ==> is_finite_32(#[trigger] v@[j]),
        decreases v.len() - i,
    {
        if !finite_32(v[i]) {
            return false;
        }
        i += 1;
    }
    true
}

/// The checks that come before the cosine similarity of `a` and `b` is
/// computed, in the order in which they are made: an empty vector, then
/// unequal lengths, then a component that is NaN or infinite.
pub fn validate_vectors(a: &[u32], b: &[u32]) -> (r: Result<(), Error>)
    ensures
        comparable(a@, b@) ==> r is Ok,
        !comparable(a@, b@) ==> (r matches Err(e) && is_comparison_error(a@, b@, e)),
{
    if a.len() == 0 || b.len() == 0 {
        return Err(Error::EmptyVector);
    }
    if a.len() != b.len() {
        return Err(Error::MismatchedDimensions { expected: a.len(), actual: b.len() });
    }
    if !finite_components(a) || !finite_components(b) {
        return Err(
            Error::InvalidEmbedding(String::from_str("Vector contains NaN or infinite values")),
        );
    }
    Ok(())
}

} // verus!
