use vipune::sqlite::embedding::{blob_to_vec, vec_to_blob, EMBEDDING_BLOB_SIZE};
use vipune::sqlite::Error;
use vipune::EMBEDDING_DIMS;

fn bits(v: &[f32]) -> Vec<u32> {
    v.iter().map(|x| x.to_bits()).collect()
}

fn floats(v: &[u32]) -> Vec<f32> {
    v.iter().map(|x| f32::from_bits(*x)).collect()
}

#[test]
fn test_embedding_dimensions() {
    assert_eq!(EMBEDDING_DIMS, 384);
}

#[test]
fn test_vec_to_blob_correct_dimensions() {
    let vec = vec![0.1f32; 384];
    let blob = vec_to_blob(&bits(&vec)).unwrap();
    assert_eq!(blob.len(), 1536);
}

#[test]
fn test_vec_to_blob_wrong_dimensions() {
    let vec = vec![0.1f32; 256];
    assert!(matches!(
        vec_to_blob(&bits(&vec)),
        Err(Error::MismatchedDimensions { .. })
    ));
}

#[test]
fn test_blob_to_vec_correct_size() {
    let vec = vec![0.1f32; 384];
    let blob = vec_to_blob(&bits(&vec)).unwrap();
    let recovered = floats(&blob_to_vec(&blob).unwrap());
    assert_eq!(recovered.len(), 384);
    for (a, b) in vec.iter().zip(recovered.iter()) {
        assert!((a - b).abs() < 1e-6);
    }
}

#[test]
fn test_blob_to_vec_wrong_size() {
    let blob = vec![0u8; 1500];
    assert!(matches!(
        blob_to_vec(&blob),
        Err(Error::InvalidBlobSize { .. })
    ));
}

#[test]
fn test_blob_to_vec_valid() {
    let mut blob = vec![0u8; 1536];
    blob[0] = 0x00;
    blob[1] = 0x00;
    blob[2] = 0x80;
    blob[3] = 0x3F;
    let result = blob_to_vec(&blob);
    assert!(result.is_ok());
    let vec = floats(&result.unwrap());
    assert_eq!(vec.len(), 384);
    assert_eq!(vec[0], 1.0f32);
}

#[test]
fn test_blob_to_vec_invalid_size() {
    let blob = vec![0u8; 100];
    let result = blob_to_vec(&blob);
    assert!(result.is_err());
}

#[test]
fn test_vec_to_blob_valid() {
    let vec = vec![0.5f32; 384];
    let result = vec_to_blob(&bits(&vec));
    assert!(result.is_ok());
    let blob = result.unwrap();
    assert_eq!(blob.len(), 1536);
}

#[test]
fn test_vec_to_blob_invalid_dimensions() {
    let vec = vec![0.5f32; 100];
    let result = vec_to_blob(&bits(&vec));
    assert!(result.is_err());
}

#[test]
fn blob_is_little_endian_per_component() {
    let mut vec = vec![0.0f32; 384];
    vec[0] = 1.0;
    vec[1] = -2.5;
    vec[383] = f32::MIN_POSITIVE;
    let blob = vec_to_blob(&bits(&vec)).unwrap();
    assert_eq!(blob.len(), EMBEDDING_BLOB_SIZE);
    assert_eq!(&blob[0..4], &1.0f32.to_le_bytes());
    assert_eq!(&blob[4..8], &(-2.5f32).to_le_bytes());
    assert_eq!(&blob[1532..1536], &f32::MIN_POSITIVE.to_le_bytes());
    let expected: Vec<u8> = vec.iter().flat_map(|x| x.to_le_bytes()).collect();
    assert_eq!(blob, expected);
}

#[test]
fn round_trip_is_exact_on_every_kind_of_value() {
    let specials = [
        0.0f32,
        -0.0,
        1.0,
        -1.0,
        f32::MAX,
        f32::MIN,
        f32::MIN_POSITIVE,
        f32::EPSILON,
        f32::INFINITY,
        f32::NEG_INFINITY,
        f32::NAN,
        1.0e-45,
        0.1,
        3.1415927,
    ];
    let vec: Vec<u32> = (0..384)
        .map(|i| specials[i % specials.len()].to_bits() ^ ((i as u32) << 3))
        .collect();
    let blob = vec_to_blob(&vec).unwrap();
    let back = blob_to_vec(&blob).unwrap();
    assert_eq!(back, vec);
    let again = vec_to_blob(&back).unwrap();
    assert_eq!(again, blob);
}

#[test]
fn dimension_errors_name_both_lengths() {
    match vec_to_blob(&vec![0u32; 383]) {
        Err(Error::MismatchedDimensions { expected, actual }) => {
            assert_eq!(expected, 384);
            assert_eq!(actual, 383);
        }
        other => panic!("unexpected: {:?}", other),
    }
    match vec_to_blob(&[]) {
        Err(Error::MismatchedDimensions { expected, actual }) => {
            assert_eq!((expected, actual), (384, 0));
        }
        other => panic!("unexpected: {:?}", other),
    }
    match blob_to_vec(&vec![0u8; 1537]) {
        Err(Error::InvalidBlobSize { expected, actual }) => {
            assert_eq!((expected, actual), (1536, 1537));
        }
        other => panic!("unexpected: {:?}", other),
    }
    assert!(vec_to_blob(&vec![0u32; 385]).is_err());
    assert!(blob_to_vec(&vec![0u8; 1535]).is_err());
    assert!(blob_to_vec(&[]).is_err());
}

#[test]
fn record_layer_error_texts() {
    assert_eq!(
        Error::InvalidBlobSize { expected: 1536, actual: 1500 }.message(),
        "Invalid BLOB size: expected 1536 bytes, got 1500 bytes"
    );
    assert_eq!(
        Error::MismatchedDimensions { expected: 384, actual: 0 }.message(),
        "Mismatched dimensions: expected 384 dimensions, got 0 dimensions"
    );
    assert_eq!(
        Error::EmptyVector.message(),
        "Cannot compute similarity with empty vector"
    );
    assert_eq!(Error::Sqlite("locked".to_string()).message(), "Database error: locked");
    assert_eq!(
        Error::InvalidEmbedding("bad".to_string()).message(),
        "Invalid embedding: bad"
    );
    assert_eq!(Error::InvalidLimit("no".to_string()).message(), "Invalid limit: no");
}
