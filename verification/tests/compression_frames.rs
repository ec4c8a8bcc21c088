use remote_memory::compression::{compress, decompress, COMPRESSION_LEVEL};

#[test]
fn compress_then_decompress_gives_the_input() {
    let data: Vec<u8> = (0..2000u32).map(|i| (i % 7) as u8).collect();
    let packed = compress(&data);
    assert_ne!(packed, data);
    assert!(packed.len() < data.len());
    assert_eq!(decompress(&packed), Some(data));
}

#[test]
fn compressed_frames_open_with_the_magic_number() {
    let packed = compress(&[1, 2, 3]);
    assert_eq!(&packed[..4], &[0x04, 0x22, 0x4D, 0x18]);
    let packed = compress(&[]);
    assert_eq!(&packed[..4], &[0x04, 0x22, 0x4D, 0x18]);
    assert_eq!(decompress(&packed), Some(Vec::new()));
}

#[test]
fn decompress_rejects_what_is_no_frame() {
    assert_eq!(decompress(&[5, 0, 0, 0, 0, 1, 2, 3, 4, 5, 6, 7, 8, 9, 10, 11]), None);
}

#[test]
fn compression_is_repeatable() {
    let data = b"the same bytes give the same frame".to_vec();
    assert_eq!(compress(&data), compress(&data));
    assert_eq!(COMPRESSION_LEVEL, 4);
}
