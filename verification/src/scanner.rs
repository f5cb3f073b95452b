//! The IFD scanner: walks the chain of TIFF Image File Directories inside a
//! byte buffer and locates embedded JPEG regions.

use vstd::prelude::*;

verus! {

/// An embedded JPEG in a RAW file: a byte region of the buffer plus the
/// orientation recorded alongside it, if any.
#[derive(Clone, Copy, PartialEq, Eq, Structural, Debug)]
pub struct EmbeddedJpegInfo {
    pub offset: usize,
    pub length: usize,
    pub orientation: Option<u16>,
}

impl Default for EmbeddedJpegInfo {
    /// The sentinel value meaning "no embedded JPEG found".
    fn default() -> (r: Self)
        ensures
            r == (EmbeddedJpegInfo { offset: 0, length: 0, orientation: None }),
    {
        EmbeddedJpegInfo { offset: 0, length: 0, orientation: None }
    }
}

/// Which embedded JPEG wins when several IFDs of the chain declare one.
#[derive(Clone, Copy, Debug)]
pub enum FindJpegType {
    Largest,
    Smallest,
}

/// Why a scan of a buffer produced no embedded JPEG.
#[derive(Clone, Copy, PartialEq, Eq, Structural, Debug)]
pub enum ScanError {
    /// No leading TIFF magic and no Exif marker anywhere in the buffer.
    NoExifHeader,
    /// Fewer than 8 bytes available for the TIFF header.
    TruncatedTiffHeader,
    /// The 4 leading bytes are neither the little- nor the big-endian magic.
    InvalidTiffMagic,
    /// An IFD offset does not leave room for the 2-byte entry count.
    InvalidIfdOffset,
    /// The declared entry table does not fit in the buffer.
    InvalidEntryCount,
    /// No room for the 4-byte next-IFD link after the entry table.
    InvalidNextIfdOffset,
    /// The chain is longer than any acyclic chain in this buffer can be,
    /// so it must contain a cycle.
    IfdChainTooLong,
    /// The chain ended without declaring any embedded JPEG.
    NoJpegFound,
    /// The selected region does not lie within the buffer.
    JpegOutOfBounds,
    /// The selected region is too short to hold a start-of-image marker.
    JpegTooShort,
}

/// The 16-bit word at `b[i]`, read with the given endianness.
pub open spec fn u16_at(le: bool, b: Seq<u8>, i: int) -> int {
    if le {
        b[i] + 256 * b[i + 1]
    } else {
        256 * b[i] + b[i + 1]
    }
}

/// The 32-bit word at `b[i]`, read with the given endianness.
pub open spec fn u32_at(le: bool, b: Seq<u8>, i: int) -> int {
    if le {
        b[i] + 256 * b[i + 1] + 65536 * b[i + 2] + 16777216 * b[i + 3]
    } else {
        16777216 * b[i] + 65536 * b[i + 1] + 256 * b[i + 2] + b[i + 3]
    }
}

fn read_u16_at(buf: &[u8], i: usize, le: bool) -> (r: u16)
    requires
        i + 2 <= buf@.len(),
    ensures
        r as int == u16_at(le, buf@, i as int),
{
    let b0 = buf[i] as u16;
    let b1 = buf[i + 1] as u16;
    if le {
        b0 + 256 * b1
    } else {
        256 * b0 + b1
    }
}

fn read_u32_at(buf: &[u8], i: usize, le: bool) -> (r: u32)
    requires
        i + 4 <= buf@.len(),
    ensures
        r as int == u32_at(le, buf@, i as int),
{
    let b0 = buf[i] as u32;
    let b1 = buf[i + 1] as u32;
    let b2 = buf[i + 2] as u32;
    let b3 = buf[i + 3] as u32;
    if le {
        b0 + 256 * b1 + 65536 * b2 + 16777216 * b3
    } else {
        16777216 * b0 + 65536 * b1 + 256 * b2 + b3
    }
}

/// The TIFF tag whose value points at an embedded JPEG stream.
pub const JPEG_TAG: u16 = 0x0201;

/// The TIFF tag whose value is the byte length of the embedded JPEG stream.
pub const JPEG_LENGTH_TAG: u16 = 0x0202;

/// The TIFF tag carrying the image orientation.
pub const ORIENTATION_TAG: u16 = 0x0112;

/// The sentinel meaning "no embedded JPEG found yet".
pub open spec fn no_jpeg() -> EmbeddedJpegInfo {
    EmbeddedJpegInfo { offset: 0, length: 0, orientation: None }
}

/// `b` starts with the little-endian TIFF magic `II*\0`.
pub open spec fn le_magic(b: Seq<u8>) -> bool {
    b.len() >= 4 && b[0] == 0x49u8 && b[1] == 0x49u8 && b[2] == 0x2au8 && b[3] == 0u8
}

/// `b` starts with the big-endian TIFF magic `MM\0*`.
pub open spec fn be_magic(b: Seq<u8>) -> bool {
    b.len() >= 4 && b[0] == 0x4du8 && b[1] == 0x4du8 && b[2] == 0u8 && b[3] == 0x2au8
}

/// Does a candidate of length `length` replace the running best under `ft`?
///
/// The first candidate is always accepted: the sentinel has length zero, so
/// `Largest` accepts anything longer and `Smallest` accepts via the
/// `best.length == 0` disjunct.
pub open spec fn replaces_best(ft: FindJpegType, length: usize, best: EmbeddedJpegInfo) -> bool {
    match ft {
        FindJpegType::Smallest => length < best.length || best.length == 0,
        FindJpegType::Largest => length > best.length,
    }
}

/// The candidate of one IFD, if its entries declare both a JPEG pointer and a
/// JPEG length.
///
/// Entries are read in order from index `i` up to `n`, accumulating the
/// pointer, length and orientation values seen so far; at the first entry
/// that completes the pointer/length pair the candidate is fixed (with
/// whatever orientation has been seen up to and including that entry) and
/// later entries are ignored.
pub open spec fn ifd_candidate(
    t: Seq<u8>,
    le: bool,
    start: int,
    n: int,
    i: int,
    cur_off: Option<usize>,
    cur_len: Option<usize>,
    cur_or: Option<u16>,
) -> Option<EmbeddedJpegInfo>
    decreases n - i,
{
    if i >= n {
        None
    } else {
        let e = start + 12 * i;
        let tag = u16_at(le, t, e);
        let new_off = if tag == JPEG_TAG { Some(u32_at(le, t, e + 8) as usize) } else { cur_off };
        let new_len = if tag == JPEG_LENGTH_TAG { Some(u32_at(le, t, e + 8) as usize) } else { cur_len };
        let new_or = if tag == ORIENTATION_TAG { Some(u16_at(le, t, e + 8) as u16) } else { cur_or };
        if new_off is Some && new_len is Some {
            Some(EmbeddedJpegInfo { offset: new_off->0, length: new_len->0, orientation: new_or })
        } else {
            ifd_candidate(t, le, start, n, i + 1, new_off, new_len, new_or)
        }
    }
}

/// The running best after one IFD: its candidate, if any, held against the
/// current best under the policy.
pub open spec fn fold_candidate(
    ft: FindJpegType,
    cand: Option<EmbeddedJpegInfo>,
    best: EmbeddedJpegInfo,
) -> EmbeddedJpegInfo {
    match cand {
        Some(c) => if replaces_best(ft, c.length, best) { c } else { best },
        None => best,
    }
}

/// The checks applied to the winning candidate once the chain has ended.
pub open spec fn finish_scan(t: Seq<u8>, best: EmbeddedJpegInfo) -> Result<EmbeddedJpegInfo, ScanError> {
    if best == no_jpeg() {
        Err(ScanError::NoJpegFound)
    } else if best.offset + best.length > t.len() {
        Err(ScanError::JpegOutOfBounds)
    } else {
        Ok(best)
    }
}

/// The walk of the IFD chain of `t` (the TIFF-relative bytes) from the IFD at
/// `off`, with `best` the best candidate of the IFDs already visited.
///
/// `fuel` bounds how many further IFDs may be visited: any acyclic chain in
/// `t` has fewer than `t.len()` directories, so running out of fuel that
/// starts at `t.len()` proves the chain cyclic.
pub open spec fn scan_ifd_chain(
    t: Seq<u8>,
    le: bool,
    off: int,
    ft: FindJpegType,
    best: EmbeddedJpegInfo,
    fuel: nat,
) -> Result<EmbeddedJpegInfo, ScanError>
    decreases fuel,
{
    if off == 0 {
        finish_scan(t, best)
    } else if off + 2 > t.len() {
        Err(ScanError::InvalidIfdOffset)
    } else {
        let n = u16_at(le, t, off);
        if t.len() - (off + 2) < 12 * n {
            Err(ScanError::InvalidEntryCount)
        } else {
            let best2 = fold_candidate(ft, ifd_candidate(t, le, off + 2, n, 0, None, None, None), best);
            let next_pos = off + 2 + 12 * n;
            if t.len() < next_pos + 4 {
                Err(ScanError::InvalidNextIfdOffset)
            } else if fuel == 0 {
                Err(ScanError::IfdChainTooLong)
            } else {
                scan_ifd_chain(t, le, u32_at(le, t, next_pos), ft, best2, (fuel - 1) as nat)
            }
        }
    }
}

/// The fuel a scan of `t` starts with: enough for every acyclic chain.
pub open spec fn scan_fuel(t: Seq<u8>) -> nat {
    t.len()
}

/// The complete scan of the TIFF stream `t`: magic and header checks, then
/// the walk of the IFD chain from the offset the header names.
pub open spec fn scan_tiff(t: Seq<u8>, ft: FindJpegType, fuel: nat) -> Result<EmbeddedJpegInfo, ScanError> {
    if t.len() < 8 {
        Err(ScanError::TruncatedTiffHeader)
    } else if !le_magic(t) && !be_magic(t) {
        Err(ScanError::InvalidTiffMagic)
    } else {
        scan_ifd_chain(t, le_magic(t), u32_at(le_magic(t), t, 4), ft, no_jpeg(), fuel)
    }
}

/// The 6-byte ASCII marker `Exif\0\0` that announces an embedded TIFF stream.
pub open spec fn exif_marker() -> Seq<u8> {
    seq![0x45u8, 0x78u8, 0x69u8, 0x66u8, 0u8, 0u8]
}

/// `needle` occurs in `h` at position `i`.
pub open spec fn match_at(h: Seq<u8>, needle: Seq<u8>, i: int) -> bool {
    0 <= i && i + needle.len() <= h.len() && h.subrange(i, i + needle.len()) == needle
}

/// `i` is the position of the first occurrence of `needle` in `h`.
pub open spec fn first_match_at(h: Seq<u8>, needle: Seq<u8>, i: int) -> bool {
    match_at(h, needle, i) && forall|j: int| 0 <= j < i ==> !match_at(h, needle, j)
}

/// Relies on memchr::memmem::find: returns the index of the first occurrence
/// of `needle` in `haystack`, or None if it does not occur.
#[verifier::external_body]
fn find_first_subslice(haystack: &[u8], needle: &[u8]) -> (r: Option<usize>)
    ensures
        match r {
            Some(i) => first_match_at(haystack@, needle@, i as int),
            None => forall|j: int| !match_at(haystack@, needle@, j),
        },
{
    memchr::memmem::find(haystack, needle)
}

/// Where the TIFF stream starts inside `b`: at 0 when `b` itself starts with
/// the little-endian TIFF magic, else right after the first Exif marker.
pub open spec fn is_tiff_header_offset(b: Seq<u8>, p: int) -> bool {
    if le_magic(b) {
        p == 0
    } else {
        exists|i: int| first_match_at(b, exif_marker(), i) && p == i + 6
    }
}

/// Locate the start of the TIFF stream inside a RAW buffer: directly at the
/// front, or 6 bytes after the first `Exif\0\0` marker.
pub fn find_tiff_header_offset(raw_buf: &[u8]) -> (r: Result<usize, ScanError>)
    ensures
        match r {
            Ok(p) => is_tiff_header_offset(raw_buf@, p as int) && p <= raw_buf@.len(),
            Err(e) => e == ScanError::NoExifHeader && !le_magic(raw_buf@) && (forall|j: int|
                !match_at(raw_buf@, exif_marker(), j)),
        },
{
    if raw_buf.len() >= 4 && raw_buf[0] == 0x49 && raw_buf[1] == 0x49 && raw_buf[2] == 0x2a
        && raw_buf[3] == 0 {
        return Ok(0);
    }
    let needle: [u8; 6] = [0x45, 0x78, 0x69, 0x66, 0, 0];
    assert(needle@ =~= exif_marker());
    match find_first_subslice(raw_buf, needle.as_slice()) {
        Some(pos) => Ok(pos + 6),
        None => Err(ScanError::NoExifHeader),
    }
}

/// The first occurrence of a needle is unique.
pub proof fn lemma_first_match_unique(h: Seq<u8>, needle: Seq<u8>, i: int, j: int)
    requires
        first_match_at(h, needle, i),
        first_match_at(h, needle, j),
    ensures
        i == j,
{
    if i < j {
        assert(!match_at(h, needle, i));
    }
    if j < i {
        assert(!match_at(h, needle, j));
    }
}

/// Where a scan of `b` starts: at the TIFF magic, else after the first Exif
/// marker, else — best effort — at 0.
pub open spec fn the_scan_base(b: Seq<u8>) -> int {
    if le_magic(b) {
        0
    } else if exists|i: int| match_at(b, exif_marker(), i) {
        (choose|i: int| first_match_at(b, exif_marker(), i)) + 6
    } else {
        0
    }
}

/// A found region never reaches past the end of the scanned bytes.
pub proof fn lemma_scan_chain_ok_in_bounds(
    t: Seq<u8>,
    le: bool,
    off: int,
    ft: FindJpegType,
    best: EmbeddedJpegInfo,
    fuel: nat,
)
    ensures
        scan_ifd_chain(t, le, off, ft, best, fuel) matches Ok(info) ==> info.offset + info.length
            <= t.len(),
    decreases fuel,
{
    if off == 0 {
    } else if off + 2 > t.len() {
    } else {
        let n = u16_at(le, t, off);
        if t.len() - (off + 2) < 12 * n {
        } else {
            let best2 = fold_candidate(ft, ifd_candidate(t, le, off + 2, n, 0, None, None, None), best);
            let next_pos = off + 2 + 12 * n;
            if t.len() < next_pos + 4 {
            } else if fuel == 0 {
            } else {
                lemma_scan_chain_ok_in_bounds(t, le, u32_at(le, t, next_pos), ft, best2, (fuel - 1) as nat);
            }
        }
    }
}

/// Walk the IFD chain of the TIFF stream that starts at `tiff_offset` inside
/// `raw_buf` and return the embedded JPEG the policy selects, its offset
/// translated back to `raw_buf`.
///
/// The result is exactly what `scan_tiff` says of the TIFF-relative bytes:
/// every validation failure comes back as the matching `ScanError`, and a
/// found region satisfies `offset + length <= raw_buf.len()`.
#[verifier::loop_isolation(false)]
pub fn find_largest_embedded_jpeg(
    raw_buf: &[u8],
    tiff_offset: usize,
    find_type: FindJpegType,
) -> (r: Result<EmbeddedJpegInfo, ScanError>)
    requires
        tiff_offset <= raw_buf@.len(),
    ensures
        ({
            let t = raw_buf@.skip(tiff_offset as int);
            match scan_tiff(t, find_type, scan_fuel(t)) {
                Ok(info) => r == Ok::<EmbeddedJpegInfo, ScanError>(
                    EmbeddedJpegInfo {
                        offset: (info.offset + tiff_offset) as usize,
                        length: info.length,
                        orientation: info.orientation,
                    },
                ),
                Err(e) => r == Err::<EmbeddedJpegInfo, ScanError>(e),
            }
        }),
{
    let ghost t = raw_buf@.skip(tiff_offset as int);
    let t_slice = vstd::slice::slice_subrange(raw_buf, tiff_offset, raw_buf.len());
    proof {
        assert(t_slice@ =~= t);
    }
    let tlen = t_slice.len();
    if tlen < 8 {
        return Err(ScanError::TruncatedTiffHeader);
    }
    let is_le = t_slice[0] == 0x49 && t_slice[1] == 0x49 && t_slice[2] == 0x2a && t_slice[3] == 0;
    let is_be = t_slice[0] == 0x4d && t_slice[1] == 0x4d && t_slice[2] == 0 && t_slice[3] == 0x2a;
    if !is_le && !is_be {
        return Err(ScanError::InvalidTiffMagic);
    }
    assert(is_le == le_magic(t));
    let first_u32 = read_u32_at(t_slice, 4, is_le);
    let ghost target = scan_tiff(t, find_type, scan_fuel(t));
    proof {
        assert(target == scan_ifd_chain(t, is_le, first_u32 as int, find_type, no_jpeg(), scan_fuel(t)));
    }
    let mut cur: usize = first_u32 as usize;
    let mut best = EmbeddedJpegInfo { offset: 0, length: 0, orientation: None };
    let mut remaining: usize = tlen;
    while cur != 0
        invariant
            remaining <= tlen,
            scan_ifd_chain(t, is_le, cur as int, find_type, best, remaining as nat) == target,
        decreases remaining,
    {
        if cur > tlen - 2 {
            return Err(ScanError::InvalidIfdOffset);
        }
        let n16 = read_u16_at(t_slice, cur, is_le);
        let n = n16 as usize;
        let entries_len = 12 * n;
        if tlen - cur - 2 < entries_len {
            return Err(ScanError::InvalidEntryCount);
        }
        let start = cur + 2;
        let ghost cand = ifd_candidate(t, is_le, start as int, n as int, 0, None, None, None);
        let mut i: usize = 0;
        let mut co: Option<usize> = None;
        let mut cl: Option<usize> = None;
        let mut cor: Option<u16> = None;
        let mut new_best = best;
        let mut found = false;
        while i < n && !found
            invariant
                i <= n,
                !found ==> !(co is Some && cl is Some),
                !found ==> ifd_candidate(t, is_le, start as int, n as int, i as int, co, cl, cor)
                    == cand,
                !found ==> new_best == best,
                found ==> new_best == fold_candidate(find_type, cand, best),
            decreases n - i,
        {
            let e = start + 12 * i;
            let tag = read_u16_at(t_slice, e, is_le);
            if tag == JPEG_TAG {
                co = Some(read_u32_at(t_slice, e + 8, is_le) as usize);
            } else if tag == JPEG_LENGTH_TAG {
                cl = Some(read_u32_at(t_slice, e + 8, is_le) as usize);
            } else if tag == ORIENTATION_TAG {
                cor = Some(read_u16_at(t_slice, e + 8, is_le));
            }
            if co.is_some() && cl.is_some() {
                let c = EmbeddedJpegInfo { offset: co.unwrap(), length: cl.unwrap(), orientation: cor };
                let replaces = match find_type {
                    FindJpegType::Smallest => c.length < best.length || best.length == 0,
                    FindJpegType::Largest => c.length > best.length,
                };
                if replaces {
                    new_best = c;
                }
                found = true;
                proof {
                    assert(cand == Some(c));
                }
            }
            i += 1;
        }
        if !found {
            proof {
                assert(cand is None);
                assert(new_best == fold_candidate(find_type, cand, best));
            }
        }
        let next_pos = start + entries_len;
        if tlen - next_pos < 4 {
            return Err(ScanError::InvalidNextIfdOffset);
        }
        let next_u32 = read_u32_at(t_slice, next_pos, is_le);
        if remaining == 0 {
            return Err(ScanError::IfdChainTooLong);
        }
        proof {
            assert(scan_ifd_chain(t, is_le, cur as int, find_type, best, remaining as nat)
                == scan_ifd_chain(t, is_le, next_u32 as int, find_type, new_best, (remaining - 1) as nat));
        }
        remaining = remaining - 1;
        best = new_best;
        cur = next_u32 as usize;
    }
    assert(target == finish_scan(t, best));
    if best.offset == 0 && best.length == 0 && best.orientation.is_none() {
        return Err(ScanError::NoJpegFound);
    }
    if best.offset > tlen || best.length > tlen - best.offset {
        return Err(ScanError::JpegOutOfBounds);
    }
    Ok(EmbeddedJpegInfo {
        offset: best.offset + tiff_offset,
        length: best.length,
        orientation: best.orientation,
    })
}

} // verus!
