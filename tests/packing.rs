use pzip::error::PixelError;
use pzip::geometry::{dimensions, floor_sqrt_u64};
use pzip::packing::{pack, unpack};
use pzip::png::{decode, encode};

#[test]
fn abc_packs_into_a_one_by_three_grid() {
    let payload = vec![0x41u8, 0x42, 0x43];
    let packed = pack(&payload).unwrap();
    assert_eq!(packed.width, 1);
    assert_eq!(packed.height, 3);
    assert_eq!(packed.buffer, vec![0u8, 0, 0, 3, 0x41, 0x42, 0x43, 0, 0]);
    assert_eq!(unpack(&packed.buffer).unwrap(), payload);
}

#[test]
fn nine_byte_buffer_unpacks_to_abc() {
    let buffer = vec![0u8, 0, 0, 3, 0x41, 0x42, 0x43, 0, 0];
    assert_eq!(unpack(&buffer).unwrap(), vec![0x41u8, 0x42, 0x43]);
}

#[test]
fn payload_of_4096_bytes_uses_a_36_by_38_grid() {
    let payload: Vec<u8> = (0..4096u32).map(|i| (i * 7 % 251) as u8).collect();
    let packed = pack(&payload).unwrap();
    assert_eq!(packed.width, 36);
    assert_eq!(packed.height, 38);
    assert_eq!(packed.buffer.len(), 4104);
    assert_eq!(&packed.buffer[4100..], &[0u8, 0, 0, 0]);
    let back = unpack(&packed.buffer).unwrap();
    assert_eq!(back.len(), 4096);
    assert_eq!(back, payload);
}

#[test]
fn empty_payload_round_trips() {
    let packed = pack(&Vec::new()).unwrap();
    assert_eq!((packed.width, packed.height), (1, 2));
    assert_eq!(packed.buffer, vec![0u8, 0, 0, 0, 0, 0]);
    assert_eq!(unpack(&packed.buffer).unwrap(), Vec::<u8>::new());
}

#[test]
fn round_trip_over_many_lengths() {
    for n in 0..300usize {
        let payload: Vec<u8> = (0..n).map(|i| (i % 256) as u8 ^ 0x5a).collect();
        let packed = pack(&payload).unwrap();
        let w = packed.width as usize;
        let h = packed.height as usize;
        assert_eq!(packed.buffer.len(), w * h * 3);
        assert!(w <= h);
        assert!(w * h * 3 - (n + 4) < 3 * h);
        assert_eq!(unpack(&packed.buffer).unwrap(), payload);
    }
}

#[test]
fn header_states_payload_length() {
    let payload = vec![9u8; 70_000];
    let packed = pack(&payload).unwrap();
    assert_eq!(&packed.buffer[0..4], &[0u8, 1, 0x11, 0x70]);
    let size = u32::from_be_bytes([packed.buffer[0], packed.buffer[1], packed.buffer[2], packed.buffer[3]]);
    assert_eq!(size, 70_000);
}

#[test]
fn short_buffer_is_truncated_header() {
    assert!(matches!(unpack(&vec![]), Err(PixelError::TruncatedHeader)));
    assert!(matches!(unpack(&vec![0u8, 0, 0]), Err(PixelError::TruncatedHeader)));
}

#[test]
fn oversized_header_is_truncated_payload() {
    assert!(matches!(unpack(&vec![0u8, 0, 0, 3, 1, 2]), Err(PixelError::TruncatedPayload)));
    assert!(matches!(unpack(&vec![0xffu8, 0xff, 0xff, 0xff]), Err(PixelError::TruncatedPayload)));
}

#[test]
fn padding_is_not_checked() {
    let buffer = vec![0u8, 0, 0, 2, 7, 8, 0xaa, 0xbb, 0xcc];
    assert_eq!(unpack(&buffer).unwrap(), vec![7u8, 8]);
    assert_eq!(unpack(&vec![0u8, 0, 0, 0]).unwrap(), Vec::<u8>::new());
}

#[test]
fn dimensions_of_known_lengths() {
    assert_eq!(dimensions(7), (1, 3));
    assert_eq!(dimensions(4100), (36, 38));
    assert_eq!(dimensions(4), (1, 2));
    assert_eq!(dimensions(27), (3, 3));
    assert_eq!(dimensions(28), (3, 4));
    assert_eq!(dimensions(0x1_0000_0003), (37837, 37838));
}

#[test]
fn floor_sqrt_of_known_values() {
    assert_eq!(floor_sqrt_u64(0), 0);
    assert_eq!(floor_sqrt_u64(1), 1);
    assert_eq!(floor_sqrt_u64(3), 1);
    assert_eq!(floor_sqrt_u64(1367), 36);
    assert_eq!(floor_sqrt_u64(1369), 37);
    assert_eq!(floor_sqrt_u64(1_431_655_766), 37837);
    assert_eq!(floor_sqrt_u64(0xFFFF_FFFF_FFFF), 16_777_215);
}

#[test]
fn encode_writes_a_png_file() {
    let file = encode(&b"hello, pixels".to_vec()).unwrap();
    assert_eq!(&file[0..8], &[0x89u8, b'P', b'N', b'G', 0x0d, 0x0a, 0x1a, 0x0a]);
}

#[test]
fn encode_then_decode_round_trips() {
    for payload in [Vec::new(), b"ABC".to_vec(), (0..5000u32).map(|i| (i % 253) as u8).collect()] {
        let file = encode(&payload).unwrap();
        assert_eq!(decode(&file).unwrap(), payload);
    }
}

#[test]
fn decode_rejects_what_is_not_png() {
    assert!(matches!(decode(&vec![1u8, 2, 3, 4, 5]), Err(PixelError::Decode(_))));
}

fn png_file(pixels: &[u8], width: u32, height: u32, color: image::ColorType) -> Vec<u8> {
    let mut file: Vec<u8> = Vec::new();
    image::codecs::png::PngEncoder::new(&mut file).encode(pixels, width, height, color).unwrap();
    file
}

#[test]
fn decode_rejects_rgba_image() {
    let file = png_file(&[0u8, 0, 0, 1, 9, 0, 0, 0], 2, 1, image::ColorType::Rgba8);
    assert!(matches!(decode(&file), Err(PixelError::UnsupportedImage)));
}

#[test]
fn decode_rejects_sixteen_bit_image() {
    let file = png_file(&[0u8; 12], 2, 1, image::ColorType::Rgb16);
    assert!(matches!(decode(&file), Err(PixelError::UnsupportedImage)));
}

#[test]
fn decode_of_one_pixel_image_is_truncated_header() {
    let file = png_file(&[0u8, 0, 0], 1, 1, image::ColorType::Rgb8);
    assert!(matches!(decode(&file), Err(PixelError::TruncatedHeader)));
}

#[test]
fn decode_of_foreign_rgb_image_is_truncated_payload() {
    let file = png_file(&[0u8, 0, 0, 9, 1, 2], 2, 1, image::ColorType::Rgb8);
    assert!(matches!(decode(&file), Err(PixelError::TruncatedPayload)));
}

#[test]
fn floor_sqrt_of_largest_u64() {
    assert_eq!(floor_sqrt_u64(u64::MAX), 0xFFFF_FFFF);
    assert_eq!(floor_sqrt_u64(0xFFFF_FFFE_0000_0001), 0xFFFF_FFFF);
    assert_eq!(floor_sqrt_u64(0xFFFF_FFFE_0000_0000), 0xFFFF_FFFE);
}
