//! The JPEG assembler: synthesizes a minimal Exif header carrying the
//! orientation and concatenates it with the extracted JPEG body.

use vstd::prelude::*;

use crate::scanner::EmbeddedJpegInfo;
use crate::scanner::FindJpegType;
use crate::scanner::ScanError;
use crate::scanner::be_magic;
use crate::scanner::exif_marker;
use crate::scanner::find_largest_embedded_jpeg;
use crate::scanner::find_tiff_header_offset;
use crate::scanner::first_match_at;
use crate::scanner::le_magic;
use crate::scanner::lemma_first_match_unique;
use crate::scanner::lemma_scan_chain_ok_in_bounds;
use crate::scanner::match_at;
use crate::scanner::no_jpeg;
use crate::scanner::scan_fuel;
use crate::scanner::scan_tiff;
use crate::scanner::the_scan_base;
use crate::scanner::u32_at;

verus! {

/// The byte length of the synthetic header that precedes the JPEG body.
pub const JPEG_HEADER_LEN: usize = 34;

/// The fixed 34-byte output header: start-of-image marker, an APP1 segment
/// holding one bare little-endian TIFF IFD with a single SHORT orientation
/// entry (stored little-endian), and a zero next-IFD link.
pub open spec fn jpeg_header_bytes(orientation: u16) -> Seq<u8> {
    seq![
        0xffu8, 0xd8u8,  // start of image
        0xffu8, 0xe1u8,  // APP1
        0x00u8, 0x1eu8,  // segment length, 30 bytes including these two
        0x45u8, 0x78u8, 0x69u8, 0x66u8, 0x00u8, 0x00u8,  // Exif\0\0
        0x49u8, 0x49u8, 0x2au8, 0x00u8,  // little-endian TIFF magic
        0x08u8, 0x00u8, 0x00u8, 0x00u8,  // offset of the IFD
        0x01u8, 0x00u8,  // one entry
        0x12u8, 0x01u8,  // orientation tag
        0x03u8, 0x00u8,  // type SHORT
        0x01u8, 0x00u8, 0x00u8, 0x00u8,  // count 1
        (orientation % 256) as u8, (orientation / 256) as u8,  // the value
        0x00u8, 0x00u8,  // no next IFD
    ]
}

/// The orientation written into the output: the one found in the source, or
/// 1 (no rotation) when the source carried none.
pub open spec fn orientation_or_default(info: EmbeddedJpegInfo) -> u16 {
    match info.orientation {
        Some(o) => o,
        None => 1u16,
    }
}

/// Build the fixed 34-byte output header for one orientation value.
pub fn get_header_bytes(orientation: u16) -> (r: [u8; 34])
    ensures
        r@ == jpeg_header_bytes(orientation),
{
    let lo = (orientation % 256) as u8;
    let hi = (orientation / 256) as u8;
    let r: [u8; 34] = [
        0xff, 0xd8, 0xff, 0xe1, 0x00, 0x1e, 0x45, 0x78, 0x69, 0x66, 0x00, 0x00, 0x49, 0x49,
        0x2a, 0x00, 0x08, 0x00, 0x00, 0x00, 0x01, 0x00, 0x12, 0x01, 0x03, 0x00, 0x01, 0x00,
        0x00, 0x00, lo, hi, 0x00, 0x00,
    ];
    proof {
        assert(r@ =~= jpeg_header_bytes(orientation));
    }
    r
}

/// The source region of an embedded JPEG, as a borrowed slice.
pub fn extract_jpeg<'a>(raw_buf: &'a [u8], jpeg: &EmbeddedJpegInfo) -> (r: &'a [u8])
    requires
        jpeg.offset + jpeg.length <= raw_buf@.len(),
    ensures
        r@ == raw_buf@.subrange(jpeg.offset as int, jpeg.offset + jpeg.length),
{
    let total = raw_buf.len();
    assert(jpeg.offset + jpeg.length <= total);
    vstd::slice::slice_subrange(raw_buf, jpeg.offset, jpeg.offset + jpeg.length)
}

/// Assemble the output bytes: the synthetic header (carrying the found
/// orientation, or 1) followed by the JPEG body with its own leading
/// start-of-image marker dropped.
pub fn get_jpeg_data(jpeg_buf: &[u8], jpeg_info: &EmbeddedJpegInfo) -> (r: Vec<u8>)
    requires
        jpeg_buf@.len() >= 2,
    ensures
        r@ == jpeg_header_bytes(orientation_or_default(*jpeg_info)) + jpeg_buf@.skip(2),
{
    let orientation = match jpeg_info.orientation {
        Some(o) => o,
        None => 1,
    };
    let header = get_header_bytes(orientation);
    let mut out: Vec<u8> = Vec::new();
    let mut i: usize = 0;
    while i < JPEG_HEADER_LEN
        invariant
            i <= 34,
            JPEG_HEADER_LEN == 34,
            out@ == jpeg_header_bytes(orientation).take(i as int),
            header@ == jpeg_header_bytes(orientation),
        decreases 34 - i,
    {
        out.push(header[i]);
        proof {
            assert(out@ =~= jpeg_header_bytes(orientation).take(i + 1));
        }
        i = i + 1;
    }
    let mut j: usize = 2;
    while j < jpeg_buf.len()
        invariant
            2 <= j <= jpeg_buf@.len(),
            out@ == jpeg_header_bytes(orientation) + jpeg_buf@.subrange(2, j as int),
        decreases jpeg_buf@.len() - j,
    {
        out.push(jpeg_buf[j]);
        proof {
            assert(out@ =~= jpeg_header_bytes(orientation) + jpeg_buf@.subrange(2, j + 1));
        }
        j = j + 1;
    }
    proof {
        assert(out@ =~= jpeg_header_bytes(orientation) + jpeg_buf@.skip(2));
        assert(orientation == orientation_or_default(*jpeg_info));
    }
    out
}

/// What `extract_jpeg_bytes` returns for a buffer, given where the scan of it
/// starts: the assembled bytes of the region `scan_tiff` selects, or the
/// error it reports, or `JpegTooShort` for a region with no room for a
/// start-of-image marker.
pub open spec fn extraction_result(
    b: Seq<u8>,
    base: int,
    ft: FindJpegType,
    r: Result<Vec<u8>, ScanError>,
) -> bool {
    let t = b.skip(base);
    match scan_tiff(t, ft, scan_fuel(t)) {
        Ok(info) => {
            let abs = info.offset + base;
            if info.length < 2 {
                r == Err::<Vec<u8>, ScanError>(ScanError::JpegTooShort)
            } else {
                match r {
                    Ok(out) => out@ == jpeg_header_bytes(orientation_or_default(info))
                        + b.subrange(abs + 2, abs + info.length),
                    Err(_) => false,
                }
            }
        },
        Err(e) => r == Err::<Vec<u8>, ScanError>(e),
    }
}

/// Extract the embedded JPEG the policy selects from a RAW buffer and
/// assemble it into a standalone JPEG stream.
pub fn extract_jpeg_bytes(raw_buf: &[u8], find_type: FindJpegType) -> (r: Result<
    Vec<u8>,
    ScanError,
>)
    ensures
        extraction_result(raw_buf@, the_scan_base(raw_buf@), find_type, r),
{
    let base = match find_tiff_header_offset(raw_buf) {
        Ok(offset) => offset,
        Err(_) => 0,
    };
    proof {
        if !le_magic(raw_buf@) && exists|i: int| match_at(raw_buf@, exif_marker(), i) {
            let i = choose|i: int| first_match_at(raw_buf@, exif_marker(), i);
            lemma_first_match_unique(raw_buf@, exif_marker(), i, base - 6);
        }
        assert(base as int == the_scan_base(raw_buf@));
    }
    let total = raw_buf.len();
    let info = match find_largest_embedded_jpeg(raw_buf, base, find_type) {
        Ok(info) => info,
        Err(e) => {
            return Err(e);
        },
    };
    let ghost t = raw_buf@.skip(base as int);
    proof {
        if t.len() >= 8 && (le_magic(t) || be_magic(t)) {
            lemma_scan_chain_ok_in_bounds(
                t,
                le_magic(t),
                u32_at(le_magic(t), t, 4),
                find_type,
                no_jpeg(),
                scan_fuel(t),
            );
        }
        assert(info.offset + info.length <= raw_buf@.len());
    }
    if info.length < 2 {
        return Err(ScanError::JpegTooShort);
    }
    let body = extract_jpeg(raw_buf, &info);
    let out = get_jpeg_data(body, &info);
    proof {
        assert(out@ =~= jpeg_header_bytes(orientation_or_default(info))
            + raw_buf@.subrange(info.offset + 2, info.offset + info.length));
        let si = scan_tiff(t, find_type, scan_fuel(t))->Ok_0;
        assert(si.offset + si.length <= t.len() && t.len() + base == total);
        assert(info.offset == si.offset + base && info.length == si.length
            && info.orientation == si.orientation);
        assert(orientation_or_default(info) == orientation_or_default(si));
        assert(extraction_result(raw_buf@, base as int, find_type, Ok(out)));
    }
    Ok(out)
}

/// Law: assembled output starts with the fixed 34-byte header, whose bytes 30
/// and 31 are the little-endian orientation; the rest is the source body with
/// its own two leading start-of-image bytes dropped.
pub proof fn lemma_assembled_output_shape(orientation: u16, body: Seq<u8>)
    requires
        body.len() >= 2,
    ensures
        ({
            let out = jpeg_header_bytes(orientation) + body.skip(2);
            &&& out.len() == 34 + body.len() - 2
            &&& out.subrange(0, 34) == jpeg_header_bytes(orientation)
            &&& out[30] == (orientation % 256) as u8
            &&& out[31] == (orientation / 256) as u8
            &&& out.skip(34) == body.skip(2)
        }),
{
    let out = jpeg_header_bytes(orientation) + body.skip(2);
    assert(out.subrange(0, 34) =~= jpeg_header_bytes(orientation));
    assert(out.skip(34) =~= body.skip(2));
}

} // verus!
