use hola::codec::{decode_models, encode_models, StorageError};
use hola::store::Model;

fn sample_models() -> Vec<Model> {
    vec![
        Model {
            data: vec![0.1f64.to_bits(), (-0.5f64).to_bits(), 0.0f64.to_bits()],
            label: String::from("work laptop"),
            id: 0,
            time: 1_700_000_000,
        },
        Model { data: Vec::new(), label: String::new(), id: 1, time: 0 },
        Model {
            data: vec![u64::MAX, 0, 1],
            label: String::from("Füße 👣"),
            id: 2,
            time: -123_456_789,
        },
    ]
}

#[test]
fn round_trip_preserves_every_field_and_the_order() {
    let models = sample_models();
    let bytes = encode_models(&models);
    let back = decode_models(&bytes).expect("encoded store must decode");
    assert_eq!(back, models);
}

#[test]
fn round_trip_of_the_empty_store() {
    let models: Vec<Model> = Vec::new();
    let bytes = encode_models(&models);
    let back = decode_models(&bytes).expect("empty store must decode");
    assert!(back.is_empty());
}

#[test]
fn empty_file_is_malformed() {
    let bytes: Vec<u8> = Vec::new();
    assert_eq!(decode_models(&bytes), Err(StorageError::Malformed));
}

#[test]
fn truncated_file_is_malformed() {
    let models = sample_models();
    let mut bytes = encode_models(&models);
    bytes.pop();
    assert_eq!(decode_models(&bytes), Err(StorageError::Malformed));
}

#[test]
fn trailing_bytes_are_malformed() {
    let models = sample_models();
    let mut bytes = encode_models(&models);
    bytes.push(0);
    assert_eq!(decode_models(&bytes), Err(StorageError::Malformed));
}

#[test]
fn count_larger_than_contents_is_malformed() {
    // A file that promises one template and delivers none.
    let bytes = 1u64.to_le_bytes().to_vec();
    assert_eq!(decode_models(&bytes), Err(StorageError::Malformed));
}

#[test]
fn encoding_is_deterministic() {
    let a = encode_models(&sample_models());
    let b = encode_models(&sample_models());
    assert_eq!(a, b);
}
