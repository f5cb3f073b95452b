use jpgfromraw::assembler::{extract_jpeg, extract_jpeg_bytes, get_header_bytes, get_jpeg_data};
use jpgfromraw::scanner::{EmbeddedJpegInfo, FindJpegType, ScanError};
use jpgfromraw::synth::build_synthetic_tiff;

/// The fixed output header for orientation 1, byte for byte.
const HEADER_ORIENTATION_1: [u8; 34] = [
    0xff, 0xd8, 0xff, 0xe1, 0x00, 0x1e, 0x45, 0x78, 0x69, 0x66, 0x00, 0x00, 0x49, 0x49, 0x2a,
    0x00, 0x08, 0x00, 0x00, 0x00, 0x01, 0x00, 0x12, 0x01, 0x03, 0x00, 0x01, 0x00, 0x00, 0x00,
    0x01, 0x00, 0x00, 0x00,
];

#[test]
fn header_bytes_for_orientation_one() {
    assert_eq!(get_header_bytes(1), HEADER_ORIENTATION_1);
}

#[test]
fn header_bytes_carry_orientation_little_endian() {
    let header = get_header_bytes(0x0201);
    assert_eq!(&header[..30], &HEADER_ORIENTATION_1[..30]);
    assert_eq!(header[30], 0x01);
    assert_eq!(header[31], 0x02);
    assert_eq!(&header[32..], &[0x00, 0x00][..]);
}

#[test]
fn assembled_output_is_header_plus_body_after_soi() {
    let body: Vec<u8> = vec![0xff, 0xd8, 0xaa, 0xbb, 0xcc];
    let info = EmbeddedJpegInfo { offset: 0, length: 5, orientation: Some(8) };
    let out = get_jpeg_data(&body, &info);
    assert_eq!(out.len(), 34 + body.len() - 2);
    assert_eq!(&out[..30], &HEADER_ORIENTATION_1[..30]);
    assert_eq!(&out[30..34], &[0x08, 0x00, 0x00, 0x00][..]);
    assert_eq!(&out[34..], &[0xaa, 0xbb, 0xcc][..]);
}

#[test]
fn missing_orientation_defaults_to_one() {
    let body: Vec<u8> = vec![0xff, 0xd8, 0x42];
    let info = EmbeddedJpegInfo { offset: 0, length: 3, orientation: None };
    let out = get_jpeg_data(&body, &info);
    assert_eq!(&out[..34], &HEADER_ORIENTATION_1[..]);
    assert_eq!(&out[34..], &[0x42][..]);
}

#[test]
fn extract_jpeg_returns_the_declared_region() {
    let buf: Vec<u8> = (0u8..100).collect();
    let info = EmbeddedJpegInfo { offset: 10, length: 4, orientation: None };
    assert_eq!(extract_jpeg(&buf, &info), &[10, 11, 12, 13][..]);
}

#[test]
fn pipeline_assembles_region_bytes() {
    // A synthetic stream whose declared region is filled with known bytes.
    let mut buf = build_synthetic_tiff(true, 60, 6, Some(3));
    for k in 0..6 {
        buf[60 + k] = 0x80 + k as u8;
    }
    let out = extract_jpeg_bytes(&buf, FindJpegType::Largest).unwrap();
    assert_eq!(out.len(), 34 + 4);
    assert_eq!(&out[..30], &HEADER_ORIENTATION_1[..30]);
    assert_eq!(&out[30..34], &[0x03, 0x00, 0x00, 0x00][..]);
    // The body: the region minus its own two leading marker bytes.
    assert_eq!(&out[34..], &[0x82, 0x83, 0x84, 0x85][..]);
}

#[test]
fn pipeline_reads_stream_behind_exif_marker() {
    let mut buf = vec![0x01, 0x02];
    buf.extend_from_slice(b"Exif\0\0");
    let stream_start = buf.len();
    buf.extend_from_slice(&build_synthetic_tiff(true, 44, 4, None));
    buf[stream_start + 44] = 0xff;
    buf[stream_start + 45] = 0xd8;
    buf[stream_start + 46] = 0x77;
    buf[stream_start + 47] = 0x99;
    let out = extract_jpeg_bytes(&buf, FindJpegType::Largest).unwrap();
    assert_eq!(&out[..34], &HEADER_ORIENTATION_1[..]);
    assert_eq!(&out[34..], &[0x77, 0x99][..]);
}

#[test]
fn pipeline_rejects_one_byte_region() {
    let buf = build_synthetic_tiff(true, 60, 1, None);
    let err = extract_jpeg_bytes(&buf, FindJpegType::Largest).unwrap_err();
    assert_eq!(err, ScanError::JpegTooShort);
}

#[test]
fn pipeline_propagates_scan_errors() {
    let buf: Vec<u8> = vec![9, 9, 9, 9, 9, 9, 9, 9, 9];
    let err = extract_jpeg_bytes(&buf, FindJpegType::Largest).unwrap_err();
    assert_eq!(err, ScanError::InvalidTiffMagic);
}

#[test]
fn extraction_is_deterministic() {
    // The per-file pipeline is a pure function of the buffer bytes: two runs
    // with the same input give identical output bytes, so a batch produces
    // the same files whatever order or concurrency ran it.
    let buf = build_synthetic_tiff(false, 70, 8, Some(6));
    let first = extract_jpeg_bytes(&buf, FindJpegType::Largest).unwrap();
    let second = extract_jpeg_bytes(&buf, FindJpegType::Largest).unwrap();
    assert_eq!(first, second);
}
