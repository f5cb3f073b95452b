use jpgfromraw::scanner::{find_largest_embedded_jpeg, find_tiff_header_offset};
use jpgfromraw::scanner::{EmbeddedJpegInfo, FindJpegType, ScanError};
use jpgfromraw::synth::build_synthetic_tiff;

/// A little-endian TIFF buffer with a chain of single-candidate IFDs, one per
/// `(offset, length, orientation)` triple, first IFD at byte 8.
fn build_le_chain(ifds: &[(u32, u32, Option<u16>)]) -> Vec<u8> {
    let mut buf = vec![0x49, 0x49, 0x2a, 0x00, 8, 0, 0, 0];
    for (k, &(offset, length, orientation)) in ifds.iter().enumerate() {
        let n: u16 = if orientation.is_some() { 3 } else { 2 };
        buf.extend_from_slice(&n.to_le_bytes());
        if let Some(o) = orientation {
            buf.extend_from_slice(&0x0112u16.to_le_bytes());
            buf.extend_from_slice(&3u16.to_le_bytes());
            buf.extend_from_slice(&1u32.to_le_bytes());
            buf.extend_from_slice(&o.to_le_bytes());
            buf.extend_from_slice(&[0, 0]);
        }
        buf.extend_from_slice(&0x0201u16.to_le_bytes());
        buf.extend_from_slice(&4u16.to_le_bytes());
        buf.extend_from_slice(&1u32.to_le_bytes());
        buf.extend_from_slice(&offset.to_le_bytes());
        buf.extend_from_slice(&0x0202u16.to_le_bytes());
        buf.extend_from_slice(&4u16.to_le_bytes());
        buf.extend_from_slice(&1u32.to_le_bytes());
        buf.extend_from_slice(&length.to_le_bytes());
        let next: u32 = if k + 1 < ifds.len() {
            (buf.len() + 4) as u32
        } else {
            0
        };
        buf.extend_from_slice(&next.to_le_bytes());
    }
    // Pad so every declared region lies inside the buffer.
    let needed = ifds.iter().map(|&(o, l, _)| (o + l) as usize).max().unwrap_or(0);
    while buf.len() < needed {
        buf.push(0);
    }
    buf
}

#[test]
fn two_entry_le_ifd_yields_declared_region() {
    // An 8-byte little-endian header, then one IFD with a pointer entry
    // (value 0x10) and a length entry (value 5), then a zero next-IFD link.
    let buf: Vec<u8> = vec![
        0x49, 0x49, 0x2a, 0x00, 0x08, 0x00, 0x00, 0x00, // header
        0x02, 0x00, // two entries
        0x01, 0x02, 0x03, 0x00, 0x01, 0x00, 0x00, 0x00, 0x10, 0x00, 0x00, 0x00, // pointer
        0x02, 0x02, 0x03, 0x00, 0x01, 0x00, 0x00, 0x00, 0x05, 0x00, 0x00, 0x00, // length
        0x00, 0x00, 0x00, 0x00, // no next IFD
    ];
    let info = find_largest_embedded_jpeg(&buf, 0, FindJpegType::Largest).unwrap();
    assert_eq!(
        info,
        EmbeddedJpegInfo { offset: 0x10, length: 5, orientation: None }
    );
}

#[test]
fn round_trip_little_endian_with_orientation() {
    let buf = build_synthetic_tiff(true, 100, 7, Some(6));
    let info = find_largest_embedded_jpeg(&buf, 0, FindJpegType::Largest).unwrap();
    assert_eq!(
        info,
        EmbeddedJpegInfo { offset: 100, length: 7, orientation: Some(6) }
    );
}

#[test]
fn round_trip_big_endian_with_orientation() {
    let buf = build_synthetic_tiff(false, 77, 9, Some(8));
    let info = find_largest_embedded_jpeg(&buf, 0, FindJpegType::Smallest).unwrap();
    assert_eq!(
        info,
        EmbeddedJpegInfo { offset: 77, length: 9, orientation: Some(8) }
    );
}

#[test]
fn round_trip_without_orientation() {
    let buf = build_synthetic_tiff(true, 64, 3, None);
    let info = find_largest_embedded_jpeg(&buf, 0, FindJpegType::Largest).unwrap();
    assert_eq!(info, EmbeddedJpegInfo { offset: 64, length: 3, orientation: None });
    let buf = build_synthetic_tiff(false, 64, 3, None);
    let info = find_largest_embedded_jpeg(&buf, 0, FindJpegType::Largest).unwrap();
    assert_eq!(info, EmbeddedJpegInfo { offset: 64, length: 3, orientation: None });
}

#[test]
fn largest_picks_maximum_across_chain() {
    let buf = build_le_chain(&[(200, 10, Some(1)), (300, 40, Some(2)), (400, 20, None)]);
    let info = find_largest_embedded_jpeg(&buf, 0, FindJpegType::Largest).unwrap();
    assert_eq!(info, EmbeddedJpegInfo { offset: 300, length: 40, orientation: Some(2) });
}

#[test]
fn smallest_picks_minimum_across_chain() {
    let buf = build_le_chain(&[(200, 10, Some(1)), (300, 40, Some(2)), (400, 5, None)]);
    let info = find_largest_embedded_jpeg(&buf, 0, FindJpegType::Smallest).unwrap();
    assert_eq!(info, EmbeddedJpegInfo { offset: 400, length: 5, orientation: None });
}

#[test]
fn ties_keep_the_first_candidate_seen() {
    let buf = build_le_chain(&[(200, 25, Some(3)), (300, 25, Some(4))]);
    let info = find_largest_embedded_jpeg(&buf, 0, FindJpegType::Largest).unwrap();
    assert_eq!(info, EmbeddedJpegInfo { offset: 200, length: 25, orientation: Some(3) });
    let info = find_largest_embedded_jpeg(&buf, 0, FindJpegType::Smallest).unwrap();
    assert_eq!(info, EmbeddedJpegInfo { offset: 200, length: 25, orientation: Some(3) });
}

#[test]
fn zero_first_ifd_offset_is_not_found() {
    let buf: Vec<u8> = vec![0x49, 0x49, 0x2a, 0x00, 0, 0, 0, 0];
    let err = find_largest_embedded_jpeg(&buf, 0, FindJpegType::Largest).unwrap_err();
    assert_eq!(err, ScanError::NoJpegFound);
}

#[test]
fn truncated_header_is_an_error() {
    let buf: Vec<u8> = vec![0x49, 0x49, 0x2a, 0x00];
    let err = find_largest_embedded_jpeg(&buf, 0, FindJpegType::Largest).unwrap_err();
    assert_eq!(err, ScanError::TruncatedTiffHeader);
}

#[test]
fn wrong_magic_is_an_error() {
    let buf: Vec<u8> = vec![0x50, 0x4b, 0x03, 0x04, 8, 0, 0, 0];
    let err = find_largest_embedded_jpeg(&buf, 0, FindJpegType::Largest).unwrap_err();
    assert_eq!(err, ScanError::InvalidTiffMagic);
}

#[test]
fn ifd_offset_past_buffer_is_an_error() {
    let buf: Vec<u8> = vec![0x49, 0x49, 0x2a, 0x00, 0xf0, 0, 0, 0];
    let err = find_largest_embedded_jpeg(&buf, 0, FindJpegType::Largest).unwrap_err();
    assert_eq!(err, ScanError::InvalidIfdOffset);
}

#[test]
fn entry_table_overrun_is_an_error() {
    // One IFD claiming 1000 entries in a buffer with room for none.
    let buf: Vec<u8> = vec![
        0x49, 0x49, 0x2a, 0x00, 8, 0, 0, 0, // header
        0xe8, 0x03, // 1000 entries
        0, 0, 0, 0,
    ];
    let err = find_largest_embedded_jpeg(&buf, 0, FindJpegType::Largest).unwrap_err();
    assert_eq!(err, ScanError::InvalidEntryCount);
}

#[test]
fn missing_next_link_is_an_error() {
    // A zero-entry IFD with no room for the 4-byte next-IFD link after it.
    let buf: Vec<u8> = vec![
        0x49, 0x49, 0x2a, 0x00, 8, 0, 0, 0, // header
        0x00, 0x00, // zero entries, then nothing
    ];
    let err = find_largest_embedded_jpeg(&buf, 0, FindJpegType::Largest).unwrap_err();
    assert_eq!(err, ScanError::InvalidNextIfdOffset);
}

#[test]
fn next_link_past_buffer_is_an_error() {
    // A zero-entry IFD whose next-IFD link points far outside the buffer.
    let buf: Vec<u8> = vec![
        0x49, 0x49, 0x2a, 0x00, 8, 0, 0, 0, // header
        0x00, 0x00, // zero entries
        0xff, 0xff, 0x00, 0x00, // next IFD at 0xffff
    ];
    let err = find_largest_embedded_jpeg(&buf, 0, FindJpegType::Largest).unwrap_err();
    assert_eq!(err, ScanError::InvalidIfdOffset);
}

#[test]
fn region_past_buffer_is_an_error() {
    // A candidate whose declared region reaches past the end of the buffer.
    let buf: Vec<u8> = vec![
        0x49, 0x49, 0x2a, 0x00, 8, 0, 0, 0, // header
        0x02, 0x00, // two entries
        0x01, 0x02, 0x04, 0x00, 0x01, 0x00, 0x00, 0x00, 0x10, 0x00, 0x00, 0x00, // pointer 0x10
        0x02, 0x02, 0x04, 0x00, 0x01, 0x00, 0x00, 0x00, 0xff, 0x00, 0x00, 0x00, // length 255
        0x00, 0x00, 0x00, 0x00, // no next IFD
    ];
    let err = find_largest_embedded_jpeg(&buf, 0, FindJpegType::Largest).unwrap_err();
    assert_eq!(err, ScanError::JpegOutOfBounds);
}

#[test]
fn cyclic_chain_is_an_error() {
    // A zero-entry IFD whose next-IFD link points back at itself.
    let buf: Vec<u8> = vec![
        0x49, 0x49, 0x2a, 0x00, 8, 0, 0, 0, // header
        0x00, 0x00, // zero entries
        0x08, 0x00, 0x00, 0x00, // next IFD: itself
    ];
    let err = find_largest_embedded_jpeg(&buf, 0, FindJpegType::Largest).unwrap_err();
    assert_eq!(err, ScanError::IfdChainTooLong);
}

#[test]
fn tiff_offset_translates_found_region() {
    // The same synthetic stream, shifted 6 bytes into a larger buffer.
    let stream = build_synthetic_tiff(true, 80, 4, Some(1));
    let mut buf = vec![0u8; 6];
    buf.extend_from_slice(&stream);
    let info = find_largest_embedded_jpeg(&buf, 6, FindJpegType::Largest).unwrap();
    assert_eq!(info, EmbeddedJpegInfo { offset: 86, length: 4, orientation: Some(1) });
}

#[test]
fn header_found_directly_at_start() {
    let buf = build_synthetic_tiff(true, 50, 3, None);
    assert_eq!(find_tiff_header_offset(&buf), Ok(0));
}

#[test]
fn header_found_after_exif_marker() {
    // Garbage, then "Exif\0\0", then a TIFF stream: the offset is just after
    // the 6-byte marker. A search that returned its input unchanged, or 0,
    // would fail this.
    let mut buf = vec![0xab, 0xcd, 0xef, 0x00, 0x11];
    buf.extend_from_slice(b"Exif\0\0");
    buf.extend_from_slice(&build_synthetic_tiff(true, 40, 2, None));
    assert_eq!(find_tiff_header_offset(&buf), Ok(11));
}

#[test]
fn no_marker_anywhere_is_an_error() {
    let buf: Vec<u8> = vec![1, 2, 3, 4, 5, 6, 7, 8, 9, 10];
    assert_eq!(find_tiff_header_offset(&buf), Err(ScanError::NoExifHeader));
}
