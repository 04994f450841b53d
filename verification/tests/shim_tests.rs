use roextract::shim::{compress, maybe_decompress};

#[test]
fn round_trip_through_companion_compressor() {
    let original = b"a buffer worth compressing, a buffer worth compressing".to_vec();
    let frame = compress(original.as_slice(), 3).unwrap();
    assert_ne!(frame, original);
    assert_eq!(&frame[0..4], &[0x28, 0xB5, 0x2F, 0xFD]);
    assert_eq!(maybe_decompress(frame), original);
}

#[test]
fn round_trip_of_empty_buffer() {
    let frame = compress(b"", 0).unwrap();
    assert_eq!(maybe_decompress(frame), Vec::<u8>::new());
}

#[test]
fn uncompressed_buffer_passes_through_unchanged() {
    let plain = b"OggS plain bytes, no container magic".to_vec();
    assert_eq!(maybe_decompress(plain.clone()), plain);
}

#[test]
fn short_buffer_passes_through_unchanged() {
    let short = vec![0x28, 0xB5];
    assert_eq!(maybe_decompress(short.clone()), short);
}

#[test]
fn corrupt_frame_fails_open_to_original_bytes() {
    // The container magic number followed by garbage: decompression
    // fails and the original bytes come back unchanged.
    let fake = vec![0x28, 0xB5, 0x2F, 0xFD, 0xAA, 0xBB, 0xCC];
    assert_eq!(maybe_decompress(fake.clone()), fake);
}
