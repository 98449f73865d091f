use socket_relay::receive::{receive_step, CHUNK_SIZE};

#[test]
fn chunks_are_concatenated_until_close() {
    let mut payload = Vec::new();
    let mut chunk = [0u8; CHUNK_SIZE];
    chunk[..3].copy_from_slice(b"abc");
    assert!(receive_step(&mut payload, &chunk, Ok(3)));
    chunk[..2].copy_from_slice(b"de");
    assert!(receive_step(&mut payload, &chunk, Ok(2)));
    assert!(!receive_step(&mut payload, &chunk, Ok(0)));
    assert_eq!(payload, b"abcde".to_vec());
}

#[test]
fn failed_read_ends_the_message() {
    let mut payload = b"xy".to_vec();
    let chunk = [7u8; CHUNK_SIZE];
    assert!(!receive_step(&mut payload, &chunk, Err("reset".to_string())));
    assert_eq!(payload, b"xy".to_vec());
}

#[test]
fn full_chunk_is_taken_whole() {
    let mut payload = Vec::new();
    let chunk = [1u8; CHUNK_SIZE];
    assert!(receive_step(&mut payload, &chunk, Ok(CHUNK_SIZE)));
    assert_eq!(payload.len(), CHUNK_SIZE);
}
