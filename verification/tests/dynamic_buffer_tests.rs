use para_speak::dynamic_buffer::{DynamicBuffer, DEFAULT_GROWTH_INCREMENT};

#[test]
fn test_dynamic_buffer_growth() {
    let mut buffer = DynamicBuffer::with_capacity(1024);
    assert_eq!(buffer.len(), 0);
    assert!(buffer.capacity() >= 1024);

    let data = vec![0u8; 512];
    buffer.write(&data);
    assert_eq!(buffer.len(), 512);

    buffer.write(&data);
    assert_eq!(buffer.len(), 1024);

    buffer.write(&data);
    assert_eq!(buffer.len(), 1536);
    assert!(buffer.capacity() >= 1536);
}

#[test]
fn test_read_all() {
    let mut buffer = DynamicBuffer::with_capacity(1024);
    let data = vec![1, 2, 3, 4, 5];
    buffer.write(&data);

    let read_data = buffer.read_all();
    assert_eq!(read_data, data);
    assert_eq!(buffer.len(), 0);
}

#[test]
fn test_reset() {
    let mut buffer = DynamicBuffer::with_capacity(1024);
    let data = vec![1u8; 2048];
    buffer.write(&data);
    assert_eq!(buffer.len(), 2048);
    assert!(buffer.capacity() >= 2048);

    buffer.reset();
    assert_eq!(buffer.len(), 0);
    assert_eq!(buffer.capacity(), 1024);
}

#[test]
fn new_buffer_sizes_follow_the_sample_rate() {
    let buffer = DynamicBuffer::new(48000, 15);
    assert_eq!(buffer.capacity(), 1_440_000);
    assert!(buffer.is_empty());
    let small = DynamicBuffer::new(8000, 2);
    assert_eq!(small.capacity(), 32_000);
}

#[test]
fn capacity_stays_while_the_bytes_fit() {
    let mut buffer = DynamicBuffer::with_capacity(1024);
    buffer.write(&vec![7u8; 1024]);
    assert_eq!(buffer.capacity(), 1024);
    assert_eq!(buffer.len(), 1024);
}

#[test]
fn capacity_grows_to_a_whole_number_of_increments() {
    let mut buffer = DynamicBuffer::with_capacity(1024);
    buffer.write(&vec![7u8; 1025]);
    assert_eq!(buffer.capacity(), DEFAULT_GROWTH_INCREMENT);

    let mut exact = DynamicBuffer::new(1000, 1);
    // growth increment 30_000; a write that needs exactly two increments
    exact.write(&vec![1u8; 60_000]);
    assert_eq!(exact.capacity(), 60_000);
    exact.write(&[9u8]);
    assert_eq!(exact.capacity(), 90_000);
    assert_eq!(exact.len(), 60_001);
}

#[test]
fn round_trip_returns_every_write_in_order() {
    let mut buffer = DynamicBuffer::with_capacity(4);
    let writes: Vec<Vec<u8>> = vec![vec![1, 2, 3], vec![], vec![4], vec![5, 6, 7, 8, 9]];
    let mut expected: Vec<u8> = Vec::new();
    for w in &writes {
        buffer.write(w);
        expected.extend_from_slice(w);
    }
    assert_eq!(buffer.get_data(), expected.as_slice());
    let all = buffer.read_all();
    assert_eq!(all, expected);
    assert_eq!(buffer.len(), 0);
    assert!(buffer.is_empty());
    assert_eq!(buffer.capacity(), 4);
    assert_eq!(buffer.read_all(), Vec::<u8>::new());
}

#[test]
fn get_data_does_not_drain() {
    let mut buffer = DynamicBuffer::with_capacity(16);
    buffer.write(&[10, 20, 30]);
    assert_eq!(buffer.get_data(), &[10, 20, 30]);
    assert_eq!(buffer.get_data(), &[10, 20, 30]);
    assert_eq!(buffer.len(), 3);
}
