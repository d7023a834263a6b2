use dianju_wasm_seal::seal_image::{build_image_xobject, decode_png_to_rgba, parse_png_to_rgb, png_headers_complete};
use std::io::{Read, Write};

fn chunk(kind: &[u8], data: &[u8]) -> Vec<u8> {
    let mut v = (data.len() as u32).to_be_bytes().to_vec();
    v.extend_from_slice(kind);
    v.extend_from_slice(data);
    v.extend_from_slice(&[0, 0, 0, 0]);
    v
}

fn zlib(data: &[u8]) -> Vec<u8> {
    let mut e = flate2::write::ZlibEncoder::new(Vec::new(), flate2::Compression::default());
    e.write_all(data).unwrap();
    e.finish().unwrap()
}

fn png(width: u32, height: u32, color_type: u8, raw: &[u8]) -> Vec<u8> {
    let mut v = vec![0x89, 0x50, 0x4E, 0x47, 0x0D, 0x0A, 0x1A, 0x0A];
    let mut ihdr = width.to_be_bytes().to_vec();
    ihdr.extend_from_slice(&height.to_be_bytes());
    ihdr.extend_from_slice(&[8, color_type, 0, 0, 0]);
    v.extend(chunk(b"IHDR", &ihdr));
    v.extend(chunk(b"IDAT", &zlib(raw)));
    v.extend(chunk(b"IEND", &[]));
    v
}

#[test]
fn rgba_is_laid_over_white() {
    // Two pixels: opaque red, fully transparent black.
    let data = png(2, 1, 6, &[0, 255, 0, 0, 255, 0, 0, 0, 0]);
    assert!(png_headers_complete(&data));
    let (w, h, rgb) = parse_png_to_rgb(&data).unwrap();
    assert_eq!((w, h), (2, 1));
    assert_eq!(rgb, vec![255, 0, 0, 255, 255, 255]);
}

#[test]
fn rgb_and_grey_rows() {
    let data = png(1, 2, 2, &[0, 1, 2, 3, 0, 4, 5, 6]);
    assert_eq!(parse_png_to_rgb(&data), Some((1, 2, vec![1, 2, 3, 4, 5, 6])));
    let grey = png(2, 1, 0, &[0, 7, 9]);
    assert_eq!(parse_png_to_rgb(&grey), Some((2, 1, vec![7, 7, 7, 9, 9, 9])));
    // Rows stop where the data does.
    let short = png(1, 3, 2, &[0, 1, 2, 3]);
    assert_eq!(parse_png_to_rgb(&short), Some((1, 3, vec![1, 2, 3])));
}

#[test]
fn unreadable_pngs() {
    assert_eq!(parse_png_to_rgb(b"GIF89a"), None);
    let sixteen_bit = {
        let mut v = png(1, 1, 2, &[0, 1, 2, 3]);
        v[24] = 16;
        v
    };
    assert_eq!(parse_png_to_rgb(&sixteen_bit), None);
    assert_eq!(parse_png_to_rgb(&png(1, 1, 3, &[0, 1])), None);
    let truncated_header = [0x89, 0x50, 0x4E, 0x47, 0x0D, 0x0A, 0x1A, 0x0A, 0, 0, 0, 0, b'I', b'H', b'D', b'R'];
    assert!(!png_headers_complete(&truncated_header));
}

#[test]
fn image_object_data() {
    let image = build_image_xobject(&png(1, 1, 2, &[0, 10, 20, 30]));
    assert_eq!((image.width, image.height), (1, 1));
    let mut out = Vec::new();
    flate2::read::ZlibDecoder::new(&image.data[..]).read_to_end(&mut out).unwrap();
    assert_eq!(out, vec![10, 20, 30]);
    let fallback = build_image_xobject(b"not a png");
    let mut red = Vec::new();
    flate2::read::ZlibDecoder::new(&fallback.data[..]).read_to_end(&mut red).unwrap();
    assert_eq!((fallback.width, fallback.height, red), (1, 1, vec![220, 40, 40]));
}

#[test]
fn rgba_pixels() {
    assert_eq!(decode_png_to_rgba(&png(2, 1, 6, &[0, 255, 0, 0, 255, 0, 0, 0, 0])), Some((2, 1, vec![255, 0, 0, 255, 0, 0, 0, 0])));
    assert_eq!(decode_png_to_rgba(&png(1, 1, 2, &[0, 1, 2, 3])), Some((1, 1, vec![1, 2, 3, 255])));
    assert_eq!(decode_png_to_rgba(&png(1, 1, 4, &[0, 9, 100])), Some((1, 1, vec![9, 9, 9, 100])));
    assert_eq!(decode_png_to_rgba(&png(1, 1, 0, &[0, 5])), Some((1, 1, vec![5, 5, 5, 255])));
}
