use ollama_proxy::ico::{parse_ico, IcoError};

/// A minimal icon container: 6-byte header, one 16-byte directory entry
/// whose payload sits immediately after it at offset 22.
fn build_ico(width_byte: u8, height_byte: u8, payload: &[u8]) -> Vec<u8> {
    let mut data = vec![0u8, 0, 1, 0, 1, 0];
    data.extend_from_slice(&[width_byte, height_byte, 0, 0, 1, 0, 32, 0]);
    data.extend_from_slice(&(payload.len() as u32).to_le_bytes());
    data.extend_from_slice(&22u32.to_le_bytes());
    data.extend_from_slice(payload);
    data
}

/// A bitmap payload: a `header_len`-byte sub-header declaring its own
/// length and a bit depth, followed by raw pixel bytes.
fn dib_payload(header_len: u8, bpp: u8, pixels: &[u8]) -> Vec<u8> {
    let mut payload = vec![0u8; header_len as usize];
    payload[0] = header_len;
    payload[14] = bpp;
    payload.extend_from_slice(pixels);
    payload
}

const PLACEHOLDER: [u8; 4] = [0x00, 0x80, 0xff, 0xff];

#[test]
fn truncated_buffer_rejected() {
    let data = vec![0u8; 10];
    let r = parse_ico(&data);
    assert!(matches!(r, Err(IcoError::TruncatedInput)));
}

#[test]
fn empty_buffer_rejected() {
    let data: Vec<u8> = Vec::new();
    let r = parse_ico(&data);
    assert!(matches!(r, Err(IcoError::TruncatedInput)));
}

#[test]
fn twenty_two_bytes_is_enough_header() {
    // Exactly header + entry, zero-length payload at offset 22: the
    // container reads fine, but the sub-header fields are missing.
    let data = build_ico(1, 1, &[]);
    assert_eq!(data.len(), 22);
    let r = parse_ico(&data);
    assert!(matches!(r, Err(IcoError::TruncatedInput)));
}

#[test]
fn offset_beyond_buffer_rejected() {
    let mut data = build_ico(1, 1, &[0u8; 16]);
    // Rewrite the payload offset to point far past the end.
    data[18] = 0xe8;
    data[19] = 0x03;
    data[20] = 0;
    data[21] = 0;
    let r = parse_ico(&data);
    assert!(matches!(r, Err(IcoError::MalformedField)));
}

#[test]
fn subheader_truncated_rejected() {
    // Four payload bytes that are not a PNG signature: too short for the
    // sub-header fields.
    let data = build_ico(1, 1, &[0u8; 4]);
    let r = parse_ico(&data);
    assert!(matches!(r, Err(IcoError::TruncatedInput)));
}

#[test]
fn channel_swap_single_pixel() {
    // One 32bpp pixel stored B,G,R,A = 1,2,3,4 must come out R,G,B,A = 3,2,1,4.
    let payload = dib_payload(40, 32, &[1, 2, 3, 4]);
    let data = build_ico(1, 1, &payload);
    let img = parse_ico(&data).unwrap();
    assert_eq!(img.width, 1);
    assert_eq!(img.height, 1);
    assert_eq!(img.rgba, vec![3, 2, 1, 4]);
}

#[test]
fn row_order_bottom_source_row_is_last_output_row() {
    // 2x2, bottom source row solid red, top source row solid green
    // (B,G,R,A order). Decoded row 0 must be green, row 1 red.
    let red = [0u8, 0, 255, 255];
    let green = [0u8, 255, 0, 255];
    let mut pixels = Vec::new();
    pixels.extend_from_slice(&red);
    pixels.extend_from_slice(&red);
    pixels.extend_from_slice(&green);
    pixels.extend_from_slice(&green);
    let payload = dib_payload(40, 32, &pixels);
    let data = build_ico(2, 2, &payload);
    let img = parse_ico(&data).unwrap();
    assert_eq!(img.width, 2);
    assert_eq!(img.height, 2);
    let expected_top = [0u8, 255, 0, 255];
    let expected_bottom = [255u8, 0, 0, 255];
    assert_eq!(&img.rgba[0..4], &expected_top);
    assert_eq!(&img.rgba[4..8], &expected_top);
    assert_eq!(&img.rgba[8..12], &expected_bottom);
    assert_eq!(&img.rgba[12..16], &expected_bottom);
}

#[test]
fn zero_dimension_bytes_decode_to_256() {
    // Width and height bytes of 0 encode 256. No pixel data at all: every
    // pixel degrades to transparent black, but the buffer is full-size.
    let payload = dib_payload(40, 32, &[]);
    let data = build_ico(0, 0, &payload);
    let img = parse_ico(&data).unwrap();
    assert_eq!(img.width, 256);
    assert_eq!(img.height, 256);
    assert_eq!(img.rgba.len(), 256 * 256 * 4);
    assert!(img.rgba.iter().all(|&b| b == 0));
}

#[test]
fn png_signature_produces_placeholder() {
    // A payload starting with the PNG signature yields the fixed
    // placeholder fill of the declared dimensions, whatever follows.
    let mut payload = vec![0x89u8, 0x50, 0x4e, 0x47];
    payload.extend_from_slice(&[0xde, 0xad, 0xbe, 0xef, 0x01, 0x02, 0x03]);
    let data = build_ico(2, 3, &payload);
    let img = parse_ico(&data).unwrap();
    assert_eq!(img.width, 2);
    assert_eq!(img.height, 3);
    assert_eq!(img.rgba.len(), 2 * 3 * 4);
    for pixel in img.rgba.chunks(4) {
        assert_eq!(pixel, &PLACEHOLDER);
    }
}

#[test]
fn unsupported_depth_produces_placeholder() {
    // Bit depth 24 is not decoded: the placeholder fill is used instead.
    let payload = dib_payload(40, 24, &[7u8; 48]);
    let data = build_ico(2, 2, &payload);
    let img = parse_ico(&data).unwrap();
    assert_eq!(img.rgba.len(), 2 * 2 * 4);
    for pixel in img.rgba.chunks(4) {
        assert_eq!(pixel, &PLACEHOLDER);
    }
}

#[test]
fn partial_payload_blank_tail() {
    // 2x2 but only one source row (the bottom, solid red) present: the
    // decode still succeeds; the top output row (whose source row is
    // missing) is transparent black, the bottom row is red.
    let red = [0u8, 0, 255, 255];
    let mut pixels = Vec::new();
    pixels.extend_from_slice(&red);
    pixels.extend_from_slice(&red);
    let payload = dib_payload(40, 32, &pixels);
    let data = build_ico(2, 2, &payload);
    let img = parse_ico(&data).unwrap();
    assert_eq!(img.rgba.len(), 16);
    assert_eq!(&img.rgba[0..8], &[0u8; 8]);
    let expected_bottom = [255u8, 0, 0, 255];
    assert_eq!(&img.rgba[8..12], &expected_bottom);
    assert_eq!(&img.rgba[12..16], &expected_bottom);
}

#[test]
fn png_signature_alone_is_enough_to_classify() {
    // Exactly the four signature bytes and nothing else: still PNG,
    // still the placeholder.
    let data = build_ico(1, 1, &[0x89, 0x50, 0x4e, 0x47]);
    let img = parse_ico(&data).unwrap();
    assert_eq!(img.rgba, PLACEHOLDER.to_vec());
}

#[test]
fn only_first_directory_entry_is_consulted() {
    // Two directory entries; the second declares 9x9 but is never read.
    // The first entry's payload sits after both entries, at offset 38.
    let mut data = vec![0u8, 0, 1, 0, 2, 0];
    data.extend_from_slice(&[1, 1, 0, 0, 1, 0, 32, 0]);
    data.extend_from_slice(&44u32.to_le_bytes());
    data.extend_from_slice(&38u32.to_le_bytes());
    data.extend_from_slice(&[9, 9, 0, 0, 1, 0, 32, 0]);
    data.extend_from_slice(&0u32.to_le_bytes());
    data.extend_from_slice(&0u32.to_le_bytes());
    assert_eq!(data.len(), 38);
    data.extend_from_slice(&dib_payload(40, 32, &[1, 2, 3, 4]));
    let img = parse_ico(&data).unwrap();
    assert_eq!(img.width, 1);
    assert_eq!(img.height, 1);
    assert_eq!(img.rgba, vec![3, 2, 1, 4]);
}

#[test]
fn subheader_length_positions_pixel_data() {
    // A 44-byte sub-header: pixel data starts 44 bytes into the payload.
    let mut payload = vec![0u8; 44];
    payload[0] = 44;
    payload[14] = 32;
    payload.extend_from_slice(&[10, 20, 30, 40]);
    let data = build_ico(1, 1, &payload);
    let img = parse_ico(&data).unwrap();
    assert_eq!(img.rgba, vec![30, 20, 10, 40]);
}
