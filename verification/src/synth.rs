//! Synthetic single-IFD TIFF buffers, built from a known region and
//! orientation, together with the proof that scanning one reproduces exactly
//! the values it was built from.

use vstd::prelude::*;
use vstd::arithmetic::div_mod::lemma_div_denominator;
use vstd::arithmetic::div_mod::lemma_fundamental_div_mod;

use crate::scanner::EmbeddedJpegInfo;
use crate::scanner::FindJpegType;
use crate::scanner::JPEG_LENGTH_TAG;
use crate::scanner::JPEG_TAG;
use crate::scanner::ORIENTATION_TAG;
use crate::scanner::ScanError;
use crate::scanner::be_magic;
use crate::scanner::finish_scan;
use crate::scanner::fold_candidate;
use crate::scanner::ifd_candidate;
use crate::scanner::le_magic;
use crate::scanner::no_jpeg;
use crate::scanner::replaces_best;
use crate::scanner::scan_fuel;
use crate::scanner::scan_ifd_chain;
use crate::scanner::scan_tiff;
use crate::scanner::u16_at;
use crate::scanner::u32_at;

verus! {

/// A 16-bit value laid out in two bytes with the given endianness.
pub open spec fn u16_bytes(le: bool, v: u16) -> Seq<u8> {
    if le {
        seq![(v % 256) as u8, (v / 256) as u8]
    } else {
        seq![(v / 256) as u8, (v % 256) as u8]
    }
}

/// A 32-bit value laid out in four bytes with the given endianness.
pub open spec fn u32_bytes(le: bool, v: u32) -> Seq<u8> {
    if le {
        seq![
            (v % 256) as u8,
            ((v / 256) % 256) as u8,
            ((v / 65536) % 256) as u8,
            (v / 16777216) as u8,
        ]
    } else {
        seq![
            (v / 16777216) as u8,
            ((v / 65536) % 256) as u8,
            ((v / 256) % 256) as u8,
            (v % 256) as u8,
        ]
    }
}

/// Reading a 16-bit word from its own two-byte layout gives the word back.
pub proof fn lemma_u16_at_bytes(le: bool, b: Seq<u8>, i: int, v: u16)
    requires
        0 <= i,
        i + 2 <= b.len(),
        b[i] == u16_bytes(le, v)[0],
        b[i + 1] == u16_bytes(le, v)[1],
    ensures
        u16_at(le, b, i) == v,
{
    lemma_fundamental_div_mod(v as int, 256);
}

/// Reading a 32-bit word from its own four-byte layout gives the word back.
pub proof fn lemma_u32_at_bytes(le: bool, b: Seq<u8>, i: int, v: u32)
    requires
        0 <= i,
        i + 4 <= b.len(),
        b[i] == u32_bytes(le, v)[0],
        b[i + 1] == u32_bytes(le, v)[1],
        b[i + 2] == u32_bytes(le, v)[2],
        b[i + 3] == u32_bytes(le, v)[3],
    ensures
        u32_at(le, b, i) == v,
{
    lemma_fundamental_div_mod(v as int, 256);
    lemma_fundamental_div_mod(v as int / 256, 256);
    lemma_fundamental_div_mod(v as int / 65536, 256);
    lemma_div_denominator(v as int, 256, 256);
    lemma_div_denominator(v as int, 65536, 256);
    assert(v as int / 65536 == (v as int / 256) / 256);
    assert(v as int / 16777216 == (v as int / 65536) / 256);
    assert(v as int / 16777216 < 256);
}

/// The 4-byte TIFF magic for the given endianness.
pub open spec fn tiff_magic(le: bool) -> Seq<u8> {
    if le {
        seq![0x49u8, 0x49u8, 0x2au8, 0x00u8]
    } else {
        seq![0x4du8, 0x4du8, 0x00u8, 0x2au8]
    }
}

/// One 12-byte IFD entry: tag, type, count, and a 4-byte value field.
pub open spec fn entry_bytes(le: bool, tag: u16, typ: u16, count: u32, value: Seq<u8>) -> Seq<u8> {
    u16_bytes(le, tag) + u16_bytes(le, typ) + u32_bytes(le, count) + value
}

/// The number of entries of the synthetic IFD: pointer and length, plus an
/// orientation entry when one is given.
pub open spec fn synth_entry_count(orientation: Option<u16>) -> u16 {
    if orientation is Some {
        3u16
    } else {
        2u16
    }
}

/// The entry table of the synthetic IFD, in tag order: orientation (SHORT,
/// when given), then JPEG pointer and JPEG length (LONG).
pub open spec fn synth_entries(le: bool, offset: u32, length: u32, orientation: Option<u16>) -> Seq<
    u8,
> {
    let pointer_entries = entry_bytes(le, JPEG_TAG, 4u16, 1u32, u32_bytes(le, offset))
        + entry_bytes(le, JPEG_LENGTH_TAG, 4u16, 1u32, u32_bytes(le, length));
    match orientation {
        Some(o) => entry_bytes(le, ORIENTATION_TAG, 3u16, 1u32, u16_bytes(le, o) + seq![0u8, 0u8])
            + pointer_entries,
        None => pointer_entries,
    }
}

/// The synthetic TIFF structure itself: magic, first-IFD offset 8, one IFD,
/// and a zero next-IFD link.
pub open spec fn synth_core(le: bool, offset: u32, length: u32, orientation: Option<u16>) -> Seq<
    u8,
> {
    tiff_magic(le) + u32_bytes(le, 8u32) + u16_bytes(le, synth_entry_count(orientation))
        + synth_entries(le, offset, length, orientation) + u32_bytes(le, 0u32)
}

/// A synthetic TIFF buffer declaring one embedded JPEG region, padded with
/// zeros so that the declared region lies inside the buffer.
pub open spec fn synthetic_tiff(le: bool, offset: u32, length: u32, orientation: Option<u16>) -> Seq<
    u8,
> {
    let core = synth_core(le, offset, length, orientation);
    if offset + length > core.len() {
        core + Seq::new((offset + length - core.len()) as nat, |i: int| 0u8)
    } else {
        core
    }
}

/// What the scanner reads from one laid-out IFD entry: its tag word, and its
/// 4-byte value field.
proof fn lemma_entry_at(le: bool, t: Seq<u8>, pos: int, tag: u16, typ: u16, count: u32, value: Seq<u8>)
    requires
        value.len() == 4,
        0 <= pos,
        pos + 12 <= t.len(),
        t.subrange(pos, pos + 12) == entry_bytes(le, tag, typ, count, value),
    ensures
        u16_at(le, t, pos) == tag,
        t.subrange(pos + 8, pos + 12) == value,
{
    let e = entry_bytes(le, tag, typ, count, value);
    assert(t[pos] == e[0]);
    assert(t[pos + 1] == e[1]);
    assert(e[0] == u16_bytes(le, tag)[0]);
    assert(e[1] == u16_bytes(le, tag)[1]);
    lemma_u16_at_bytes(le, t, pos, tag);
    assert(t.subrange(pos + 8, pos + 12) =~= value) by {
        assert forall|k: int| 0 <= k < 4 implies t.subrange(pos + 8, pos + 12)[k] == value[k] by {
            assert(t.subrange(pos + 8, pos + 12)[k] == t[pos + 8 + k]);
            assert(t[pos + 8 + k] == e[8 + k]);
            assert(e[8 + k] == value[k]);
        }
    }
}

/// The length of a synthetic buffer, and that it carries its core unchanged,
/// with only zero padding after it.
proof fn lemma_synth_extends_core(le: bool, offset: u32, length: u32, orientation: Option<u16>)
    ensures
        ({
            let t = synthetic_tiff(le, offset, length, orientation);
            let core = synth_core(le, offset, length, orientation);
            let n = synth_entry_count(orientation) as int;
            &&& synth_entries(le, offset, length, orientation).len() == 12 * n
            &&& core.len() == 14 + 12 * n
            &&& t.len() >= core.len()
            &&& offset + length <= t.len()
            &&& forall|k: int| 0 <= k < core.len() ==> #[trigger] t[k] == core[k]
        }),
{
    let t = synthetic_tiff(le, offset, length, orientation);
    let core = synth_core(le, offset, length, orientation);
    assert(synth_entries(le, offset, length, orientation).len() == 12 * synth_entry_count(
        orientation,
    ));
    assert forall|k: int| 0 <= k < core.len() implies #[trigger] t[k] == core[k] by {}
}

/// The words of the synthetic TIFF header: the magic of the chosen
/// endianness, first-IFD offset 8, and the entry count.
proof fn lemma_synth_header_words(le: bool, offset: u32, length: u32, orientation: Option<u16>)
    ensures
        ({
            let t = synthetic_tiff(le, offset, length, orientation);
            &&& le_magic(t) == le
            &&& !le ==> be_magic(t)
            &&& u32_at(le, t, 4) == 8
            &&& u16_at(le, t, 8) == synth_entry_count(orientation)
        }),
{
    let t = synthetic_tiff(le, offset, length, orientation);
    let core = synth_core(le, offset, length, orientation);
    let n16 = synth_entry_count(orientation);
    lemma_synth_extends_core(le, offset, length, orientation);
    let head = tiff_magic(le) + u32_bytes(le, 8u32) + u16_bytes(le, n16);
    assert forall|k: int| 0 <= k < 10 implies t[k] == head[k] by {
        assert(core[k] == head[k]);
    }
    assert(t[0] == tiff_magic(le)[0] && t[1] == tiff_magic(le)[1] && t[2] == tiff_magic(le)[2]
        && t[3] == tiff_magic(le)[3]);
    assert(le_magic(t) == le);
    assert(!le ==> be_magic(t));
    assert(t[4] == u32_bytes(le, 8u32)[0] && t[5] == u32_bytes(le, 8u32)[1] && t[6] == u32_bytes(
        le,
        8u32,
    )[2] && t[7] == u32_bytes(le, 8u32)[3]);
    lemma_u32_at_bytes(le, t, 4, 8u32);
    assert(t[8] == u16_bytes(le, n16)[0] && t[9] == u16_bytes(le, n16)[1]);
    lemma_u16_at_bytes(le, t, 8, n16);
}

/// The words of the synthetic entry table: each entry's tag and value, and
/// the zero next-IFD link after the table.
#[verifier::rlimit(60)]
proof fn lemma_synth_entry_words(le: bool, offset: u32, length: u32, orientation: Option<u16>)
    ensures
        ({
            let t = synthetic_tiff(le, offset, length, orientation);
            let n = synth_entry_count(orientation) as int;
            let p_pos: int = if orientation is Some { 22 } else { 10 };
            &&& u16_at(le, t, p_pos) == JPEG_TAG
            &&& u32_at(le, t, p_pos + 8) == offset
            &&& u16_at(le, t, p_pos + 12) == JPEG_LENGTH_TAG
            &&& u32_at(le, t, p_pos + 20) == length
            &&& orientation matches Some(o) ==> u16_at(le, t, 10) == ORIENTATION_TAG && u16_at(
                le,
                t,
                18,
            ) == o
            &&& u32_at(le, t, 10 + 12 * n) == 0
        }),
{
    let t = synthetic_tiff(le, offset, length, orientation);
    let core = synth_core(le, offset, length, orientation);
    let entries = synth_entries(le, offset, length, orientation);
    let n = synth_entry_count(orientation) as int;
    lemma_synth_extends_core(le, offset, length, orientation);
    assert forall|r: int| 0 <= r < 12 * n implies t[10 + r] == entries[r] by {
        assert(core[10 + r] == entries[r]);
    }
    let pointer_entry = entry_bytes(le, JPEG_TAG, 4u16, 1u32, u32_bytes(le, offset));
    let length_entry = entry_bytes(le, JPEG_LENGTH_TAG, 4u16, 1u32, u32_bytes(le, length));
    let p_pos: int = if orientation is Some { 22 } else { 10 };
    match orientation {
        Some(o) => {
            let or_value = u16_bytes(le, o) + seq![0u8, 0u8];
            let or_entry = entry_bytes(le, ORIENTATION_TAG, 3u16, 1u32, or_value);
            assert(t.subrange(10, 22) =~= or_entry) by {
                assert forall|k: int| 0 <= k < 12 implies t.subrange(10, 22)[k] == or_entry[k] by {
                    assert(t[10 + k] == entries[k]);
                    assert(entries[k] == or_entry[k]);
                }
            }
            lemma_entry_at(le, t, 10, ORIENTATION_TAG, 3u16, 1u32, or_value);
            assert(t[18] == or_value[0] && t[19] == or_value[1]) by {
                assert(t.subrange(18, 22)[0] == t[18] && t.subrange(18, 22)[1] == t[19]);
            }
            lemma_u16_at_bytes(le, t, 18, o);
            assert(t.subrange(22, 34) =~= pointer_entry) by {
                assert forall|k: int| 0 <= k < 12 implies t.subrange(22, 34)[k] == pointer_entry[k] by {
                    assert(t[22 + k] == entries[12 + k]);
                    assert(entries[12 + k] == pointer_entry[k]);
                }
            }
            assert(t.subrange(34, 46) =~= length_entry) by {
                assert forall|k: int| 0 <= k < 12 implies t.subrange(34, 46)[k] == length_entry[k] by {
                    assert(t[34 + k] == entries[24 + k]);
                    assert(entries[24 + k] == length_entry[k]);
                }
            }
        },
        None => {
            assert(t.subrange(10, 22) =~= pointer_entry) by {
                assert forall|k: int| 0 <= k < 12 implies t.subrange(10, 22)[k] == pointer_entry[k] by {
                    assert(t[10 + k] == entries[k]);
                    assert(entries[k] == pointer_entry[k]);
                }
            }
            assert(t.subrange(22, 34) =~= length_entry) by {
                assert forall|k: int| 0 <= k < 12 implies t.subrange(22, 34)[k] == length_entry[k] by {
                    assert(t[22 + k] == entries[12 + k]);
                    assert(entries[12 + k] == length_entry[k]);
                }
            }
        },
    }
    lemma_entry_at(le, t, p_pos, JPEG_TAG, 4u16, 1u32, u32_bytes(le, offset));
    lemma_entry_at(le, t, p_pos + 12, JPEG_LENGTH_TAG, 4u16, 1u32, u32_bytes(le, length));
    assert(t[p_pos + 8] == u32_bytes(le, offset)[0] && t[p_pos + 9] == u32_bytes(le, offset)[1]
        && t[p_pos + 10] == u32_bytes(le, offset)[2] && t[p_pos + 11] == u32_bytes(le, offset)[3]) by {
        let v = t.subrange(p_pos + 8, p_pos + 12);
        assert(v[0] == t[p_pos + 8] && v[1] == t[p_pos + 9] && v[2] == t[p_pos + 10] && v[3] == t[
            p_pos + 11
        ]);
    }
    lemma_u32_at_bytes(le, t, p_pos + 8, offset);
    assert(t[p_pos + 20] == u32_bytes(le, length)[0] && t[p_pos + 21] == u32_bytes(le, length)[1]
        && t[p_pos + 22] == u32_bytes(le, length)[2] && t[p_pos + 23] == u32_bytes(le, length)[3]) by {
        let v = t.subrange(p_pos + 20, p_pos + 24);
        assert(v[0] == t[p_pos + 20] && v[1] == t[p_pos + 21] && v[2] == t[p_pos + 22] && v[3] == t[
            p_pos + 23
        ]);
    }
    lemma_u32_at_bytes(le, t, p_pos + 20, length);
    assert(t[10 + 12 * n] == u32_bytes(le, 0u32)[0] && t[10 + 12 * n + 1] == u32_bytes(le, 0u32)[1]
        && t[10 + 12 * n + 2] == u32_bytes(le, 0u32)[2] && t[10 + 12 * n + 3] == u32_bytes(
        le,
        0u32,
    )[3]) by {
        assert forall|k: int| 0 <= k < 4 implies t[10 + 12 * n + k] == u32_bytes(le, 0u32)[k] by {
            assert(core[10 + 12 * n + k] == u32_bytes(le, 0u32)[k]);
        }
    }
    lemma_u32_at_bytes(le, t, 10 + 12 * n, 0u32);
}

/// Scanning a synthetic TIFF reproduces exactly the region and orientation it
/// was built from, under either policy and either endianness.
#[verifier::rlimit(60)]
pub proof fn lemma_scan_round_trip(
    le: bool,
    offset: u32,
    length: u32,
    orientation: Option<u16>,
    ft: FindJpegType,
)
    requires
        length >= 1,
    ensures
        ({
            let t = synthetic_tiff(le, offset, length, orientation);
            scan_tiff(t, ft, scan_fuel(t)) == Ok::<EmbeddedJpegInfo, ScanError>(
                EmbeddedJpegInfo {
                    offset: offset as usize,
                    length: length as usize,
                    orientation,
                },
            )
        }),
{
    let t = synthetic_tiff(le, offset, length, orientation);
    let n = synth_entry_count(orientation) as int;
    lemma_synth_extends_core(le, offset, length, orientation);
    lemma_synth_header_words(le, offset, length, orientation);
    lemma_synth_entry_words(le, offset, length, orientation);
    assert(t.len() == 14 + 12 * n || t.len() == offset + length);

    let want = EmbeddedJpegInfo { offset: offset as usize, length: length as usize, orientation };
    let cand = ifd_candidate(t, le, 10, n, 0, None, None, None);
    match orientation {
        Some(o) => {
            assert(u16_at(le, t, 10) == ORIENTATION_TAG);
            assert(cand == ifd_candidate(t, le, 10, n, 1, None, None, Some((u16_at(le, t, 18) as u16))));
            assert((u16_at(le, t, 18) as u16) == o);
            assert(u16_at(le, t, 22) == JPEG_TAG);
            assert(cand == ifd_candidate(
                t,
                le,
                10,
                n,
                2,
                Some(u32_at(le, t, 30) as usize),
                None,
                Some(o),
            ));
            assert(u32_at(le, t, 30) as usize == offset as usize);
            assert(u16_at(le, t, 34) == JPEG_LENGTH_TAG);
            assert(cand == Some(want));
        },
        None => {
            assert(u16_at(le, t, 10) == JPEG_TAG);
            assert(cand == ifd_candidate(t, le, 10, n, 1, Some(u32_at(le, t, 18) as usize), None, None));
            assert(u32_at(le, t, 18) as usize == offset as usize);
            assert(u16_at(le, t, 22) == JPEG_LENGTH_TAG);
            assert(cand == Some(want));
        },
    }
    assert(replaces_best(ft, want.length, no_jpeg()));
    assert(fold_candidate(ft, cand, no_jpeg()) == want);
    assert(scan_ifd_chain(t, le, 8, ft, no_jpeg(), scan_fuel(t)) == scan_ifd_chain(
        t,
        le,
        0,
        ft,
        want,
        (scan_fuel(t) - 1) as nat,
    ));
    assert(finish_scan(t, want) == Ok::<EmbeddedJpegInfo, ScanError>(want));
}

/// Append a 16-bit word in the given endianness.
fn push_u16(out: &mut Vec<u8>, le: bool, v: u16)
    ensures
        final(out)@ == old(out)@ + u16_bytes(le, v),
{
    if le {
        out.push((v % 256) as u8);
        out.push((v / 256) as u8);
    } else {
        out.push((v / 256) as u8);
        out.push((v % 256) as u8);
    }
    proof {
        assert(out@ =~= old(out)@ + u16_bytes(le, v));
    }
}

/// Append a 32-bit word in the given endianness.
fn push_u32(out: &mut Vec<u8>, le: bool, v: u32)
    ensures
        final(out)@ == old(out)@ + u32_bytes(le, v),
{
    if le {
        out.push((v % 256) as u8);
        out.push(((v / 256) % 256) as u8);
        out.push(((v / 65536) % 256) as u8);
        out.push((v / 16777216) as u8);
    } else {
        out.push((v / 16777216) as u8);
        out.push(((v / 65536) % 256) as u8);
        out.push(((v / 256) % 256) as u8);
        out.push((v % 256) as u8);
    }
    proof {
        assert(out@ =~= old(out)@ + u32_bytes(le, v));
    }
}

/// Build a synthetic single-IFD TIFF buffer declaring the given region and
/// orientation, padded with zeros so that the region lies inside it.
#[verifier::rlimit(60)]
pub fn build_synthetic_tiff(le: bool, offset: u32, length: u32, orientation: Option<u16>) -> (r:
    Vec<u8>)
    requires
        offset + length <= usize::MAX,
    ensures
        r@ == synthetic_tiff(le, offset, length, orientation),
{
    let ghost core = synth_core(le, offset, length, orientation);
    let mut out: Vec<u8> = Vec::new();
    if le {
        out.push(0x49);
        out.push(0x49);
        out.push(0x2a);
        out.push(0x00);
    } else {
        out.push(0x4d);
        out.push(0x4d);
        out.push(0x00);
        out.push(0x2a);
    }
    proof {
        assert(out@ =~= tiff_magic(le));
    }
    push_u32(&mut out, le, 8);
    let n: u16 = if orientation.is_some() {
        3
    } else {
        2
    };
    push_u16(&mut out, le, n);
    match orientation {
        Some(o) => {
            push_u16(&mut out, le, ORIENTATION_TAG);
            push_u16(&mut out, le, 3);
            push_u32(&mut out, le, 1);
            push_u16(&mut out, le, o);
            out.push(0);
            out.push(0);
            proof {
                assert(out@ =~= tiff_magic(le) + u32_bytes(le, 8u32) + u16_bytes(
                    le,
                    synth_entry_count(orientation),
                ) + entry_bytes(le, ORIENTATION_TAG, 3u16, 1u32, u16_bytes(le, o) + seq![0u8, 0u8]));
            }
        },
        None => {},
    }
    push_u16(&mut out, le, JPEG_TAG);
    push_u16(&mut out, le, 4);
    push_u32(&mut out, le, 1);
    push_u32(&mut out, le, offset);
    push_u16(&mut out, le, JPEG_LENGTH_TAG);
    push_u16(&mut out, le, 4);
    push_u32(&mut out, le, 1);
    push_u32(&mut out, le, length);
    push_u32(&mut out, le, 0);
    proof {
        assert(out@ =~= core);
    }
    let core_len = out.len();
    let target = (offset as usize) + (length as usize);
    while out.len() < target
        invariant
            out@.len() >= core_len,
            out@.len() <= target || out@.len() == core_len,
            core_len == core.len(),
            target == offset + length,
            out@ == core + Seq::new((out@.len() - core.len()) as nat, |i: int| 0u8),
        decreases target - out@.len(),
    {
        out.push(0);
        proof {
            assert(out@ =~= core + Seq::new((out@.len() - core.len()) as nat, |i: int| 0u8));
        }
    }
    proof {
        assert(out@ =~= synthetic_tiff(le, offset, length, orientation));
    }
    out
}

} // verus!
