use webtiles_rs::deflate::{strip_sync_marker, FrameCompressor, FrameDecompressor};

#[test]
fn deflate_round_trips_through_inflate() {
    let original = br#"{"msgs":[{"msg":"ping"},{"msg":"chat","content":"hello world"}]}"#;
    let mut compressor = FrameCompressor::new();
    let compressed = compressor.compress_frame(original).unwrap();
    assert_ne!(&compressed[..2], &[0x78, 0x9c][..]);
    let mut decompressor = FrameDecompressor::new();
    let decompressed = decompressor.decompress_frame(&compressed).unwrap();
    assert_eq!(decompressed, original);
}

#[test]
fn deflate_handles_larger_payloads() {
    let original = "x".repeat(200_000);
    let mut compressor = FrameCompressor::new();
    let compressed = compressor.compress_frame(original.as_bytes()).unwrap();
    let mut decompressor = FrameDecompressor::new();
    let decompressed = decompressor.decompress_frame(&compressed).unwrap();
    assert_eq!(decompressed, original.as_bytes());
}

#[test]
fn compressor_state_persists_across_multiple_frames_like_python() {
    let mut compressor = FrameCompressor::new();
    let mut decompressor = FrameDecompressor::new();

    let frame1 = compressor.compress_frame(b"repeated repeated repeated").unwrap();
    let frame2 = compressor
        .compress_frame(b"repeated repeated repeated again")
        .unwrap();

    assert_eq!(
        decompressor.decompress_frame(&frame1).unwrap(),
        b"repeated repeated repeated"
    );
    assert_eq!(
        decompressor.decompress_frame(&frame2).unwrap(),
        b"repeated repeated repeated again"
    );
}

#[test]
fn sync_marker_is_cut_off() {
    assert_eq!(strip_sync_marker(&vec![1, 2, 0, 0, 0xff, 0xff]), vec![1, 2]);
    assert_eq!(strip_sync_marker(&vec![1, 2, 3]), Vec::<u8>::new());
}
