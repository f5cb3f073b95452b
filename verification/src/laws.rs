//! Laws of the scanner's selection policy: the winner over a whole IFD chain
//! is the first candidate of maximal (or minimal) length.

use vstd::prelude::*;

use crate::scanner::EmbeddedJpegInfo;
use crate::scanner::FindJpegType;
use crate::scanner::ScanError;
use crate::scanner::be_magic;
use crate::scanner::finish_scan;
use crate::scanner::fold_candidate;
use crate::scanner::ifd_candidate;
use crate::scanner::le_magic;
use crate::scanner::no_jpeg;
use crate::scanner::scan_ifd_chain;
use crate::scanner::scan_tiff;
use crate::scanner::u16_at;
use crate::scanner::u32_at;

verus! {

/// The candidates declared along an IFD chain, in chain order: one per IFD
/// whose entries complete a pointer/length pair. `None` when the walk fails a
/// bounds check or runs out of fuel, in which case the scan is an error.
pub open spec fn chain_candidates(t: Seq<u8>, le: bool, off: int, fuel: nat) -> Option<
    Seq<EmbeddedJpegInfo>,
>
    decreases fuel,
{
    if off == 0 {
        Some(Seq::empty())
    } else if off + 2 > t.len() {
        None
    } else {
        let n = u16_at(le, t, off);
        if t.len() - (off + 2) < 12 * n {
            None
        } else {
            let next_pos = off + 2 + 12 * n;
            if t.len() < next_pos + 4 {
                None
            } else if fuel == 0 {
                None
            } else {
                match chain_candidates(t, le, u32_at(le, t, next_pos), (fuel - 1) as nat) {
                    None => None,
                    Some(rest) => match ifd_candidate(t, le, off + 2, n, 0, None, None, None) {
                        Some(c) => Some(seq![c] + rest),
                        None => Some(rest),
                    },
                }
            }
        }
    }
}

/// The running best after a list of candidates, applied in order.
pub open spec fn fold_policy(
    ft: FindJpegType,
    cands: Seq<EmbeddedJpegInfo>,
    best: EmbeddedJpegInfo,
) -> EmbeddedJpegInfo
    decreases cands.len(),
{
    if cands.len() == 0 {
        best
    } else {
        fold_policy(ft, cands.drop_first(), fold_candidate(ft, Some(cands[0]), best))
    }
}

/// The scan of a chain is the fold of its candidate list, passed through the
/// final checks.
pub proof fn lemma_scan_is_fold(
    t: Seq<u8>,
    le: bool,
    off: int,
    ft: FindJpegType,
    best: EmbeddedJpegInfo,
    fuel: nat,
    cands: Seq<EmbeddedJpegInfo>,
)
    requires
        chain_candidates(t, le, off, fuel) == Some(cands),
    ensures
        scan_ifd_chain(t, le, off, ft, best, fuel) == finish_scan(t, fold_policy(ft, cands, best)),
    decreases fuel,
{
    if off == 0 {
        assert(cands =~= Seq::<EmbeddedJpegInfo>::empty());
    } else {
        let n = u16_at(le, t, off);
        let next_pos = off + 2 + 12 * n;
        let next = u32_at(le, t, next_pos);
        let rest = chain_candidates(t, le, next, (fuel - 1) as nat)->Some_0;
        let cand = ifd_candidate(t, le, off + 2, n, 0, None, None, None);
        let best2 = fold_candidate(ft, cand, best);
        lemma_scan_is_fold(t, le, next, ft, best2, (fuel - 1) as nat, rest);
        match cand {
            Some(c) => {
                assert(cands == seq![c] + rest);
                assert(cands[0] == c);
                assert(cands.drop_first() =~= rest);
            },
            None => {
                assert(cands == rest);
                assert(fold_policy(ft, cands, best) == fold_policy(ft, rest, best2));
            },
        }
    }
}

/// `i` is the first index of `cands` whose length exceeds `bound` and is
/// maximal over the whole list.
pub open spec fn first_max_above(cands: Seq<EmbeddedJpegInfo>, bound: usize, i: int) -> bool {
    &&& 0 <= i < cands.len()
    &&& cands[i].length > bound
    &&& forall|j: int| 0 <= j < cands.len() ==> cands[j].length <= cands[i].length
    &&& forall|j: int| 0 <= j < i ==> cands[j].length < cands[i].length
}

/// `i` is the first index of `cands` whose length is under `bound` and is
/// minimal over the whole list.
pub open spec fn first_min_below(cands: Seq<EmbeddedJpegInfo>, bound: usize, i: int) -> bool {
    &&& 0 <= i < cands.len()
    &&& cands[i].length < bound
    &&& forall|j: int| 0 <= j < cands.len() ==> cands[j].length >= cands[i].length
    &&& forall|j: int| 0 <= j < i ==> cands[j].length > cands[i].length
}

/// Folding `Largest` keeps the best unless some candidate is strictly
/// longer; then it yields the first candidate of maximal length.
#[verifier::rlimit(60)]
#[verifier::spinoff_prover]
pub proof fn lemma_fold_largest(cands: Seq<EmbeddedJpegInfo>, best: EmbeddedJpegInfo)
    ensures
        (forall|j: int| 0 <= j < cands.len() ==> cands[j].length <= best.length) ==> fold_policy(
            FindJpegType::Largest,
            cands,
            best,
        ) == best,
        (exists|j: int| 0 <= j < cands.len() && cands[j].length > best.length) ==> exists|i: int|
            first_max_above(cands, best.length, i) && fold_policy(FindJpegType::Largest, cands, best)
                == cands[i],
    decreases cands.len(),
{
    if cands.len() == 0 {
    } else {
        let c = cands[0];
        let rest = cands.drop_first();
        let best2 = fold_candidate(FindJpegType::Largest, Some(c), best);
        lemma_fold_largest(rest, best2);
        if c.length > best.length {
            assert(best2 == c);
            if forall|j: int| 0 <= j < rest.len() ==> rest[j].length <= c.length {
                assert(first_max_above(cands, best.length, 0)) by {
                    assert forall|j: int| 0 <= j < cands.len() implies (#[trigger] cands[j]).length
                        <= cands[0].length by {
                        if j >= 1 {
                            assert(cands[j] == rest[j - 1]);
                        }
                    }
                }
            } else {
                let i = choose|i: int|
                    first_max_above(rest, c.length, i) && fold_policy(
                        FindJpegType::Largest,
                        rest,
                        c,
                    ) == rest[i];
                assert(cands[i + 1] == rest[i]);
                assert(first_max_above(cands, best.length, i + 1)) by {
                    assert forall|j: int| 0 <= j < cands.len() implies (#[trigger] cands[j]).length
                        <= cands[i + 1].length by {
                        if j >= 1 {
                            assert(cands[j] == rest[j - 1]);
                        }
                    }
                    assert forall|j: int| 0 <= j < i + 1 implies (#[trigger] cands[j]).length
                        < cands[i + 1].length by {
                        if j >= 1 {
                            assert(cands[j] == rest[j - 1]);
                        }
                    }
                }
            }
        } else {
            assert(best2 == best);
            if exists|j: int| 0 <= j < cands.len() && cands[j].length > best.length {
                assert(exists|j: int| 0 <= j < rest.len() && rest[j].length > best.length) by {
                    let j = choose|j: int| 0 <= j < cands.len() && cands[j].length > best.length;
                    assert(rest[j - 1] == cands[j]);
                    assert(0 <= j - 1 < rest.len() && rest[j - 1].length > best.length);
                }
                let i = choose|i: int|
                    first_max_above(rest, best.length, i) && fold_policy(
                        FindJpegType::Largest,
                        rest,
                        best,
                    ) == rest[i];
                assert(cands[i + 1] == rest[i]);
                assert(first_max_above(cands, best.length, i + 1)) by {
                    assert forall|j: int| 0 <= j < cands.len() implies (#[trigger] cands[j]).length
                        <= cands[i + 1].length by {
                        if j >= 1 {
                            assert(cands[j] == rest[j - 1]);
                        }
                    }
                    assert forall|j: int| 0 <= j < i + 1 implies (#[trigger] cands[j]).length
                        < cands[i + 1].length by {
                        if j >= 1 {
                            assert(cands[j] == rest[j - 1]);
                        }
                    }
                }
            }
        }
    }
}

/// Folding `Smallest` from a real candidate keeps it unless some candidate is
/// strictly shorter; then it yields the first candidate of minimal length.
#[verifier::rlimit(60)]
#[verifier::spinoff_prover]
pub proof fn lemma_fold_smallest(cands: Seq<EmbeddedJpegInfo>, best: EmbeddedJpegInfo)
    requires
        best.length > 0,
        forall|j: int| 0 <= j < cands.len() ==> cands[j].length > 0,
    ensures
        (forall|j: int| 0 <= j < cands.len() ==> cands[j].length >= best.length) ==> fold_policy(
            FindJpegType::Smallest,
            cands,
            best,
        ) == best,
        (exists|j: int| 0 <= j < cands.len() && cands[j].length < best.length) ==> exists|i: int|
            first_min_below(cands, best.length, i) && fold_policy(
                FindJpegType::Smallest,
                cands,
                best,
            ) == cands[i],
    decreases cands.len(),
{
    if cands.len() == 0 {
    } else {
        let c = cands[0];
        let rest = cands.drop_first();
        let best2 = fold_candidate(FindJpegType::Smallest, Some(c), best);
        lemma_fold_smallest(rest, best2);
        if c.length < best.length {
            assert(best2 == c);
            if forall|j: int| 0 <= j < rest.len() ==> rest[j].length >= c.length {
                assert(first_min_below(cands, best.length, 0)) by {
                    assert forall|j: int| 0 <= j < cands.len() implies (#[trigger] cands[j]).length
                        >= cands[0].length by {
                        if j >= 1 {
                            assert(cands[j] == rest[j - 1]);
                        }
                    }
                }
            } else {
                let i = choose|i: int|
                    first_min_below(rest, c.length, i) && fold_policy(
                        FindJpegType::Smallest,
                        rest,
                        c,
                    ) == rest[i];
                assert(cands[i + 1] == rest[i]);
                assert(first_min_below(cands, best.length, i + 1)) by {
                    assert forall|j: int| 0 <= j < cands.len() implies (#[trigger] cands[j]).length
                        >= cands[i + 1].length by {
                        if j >= 1 {
                            assert(cands[j] == rest[j - 1]);
                        }
                    }
                    assert forall|j: int| 0 <= j < i + 1 implies (#[trigger] cands[j]).length
                        > cands[i + 1].length by {
                        if j >= 1 {
                            assert(cands[j] == rest[j - 1]);
                        }
                    }
                }
            }
        } else {
            assert(best2 == best);
            if exists|j: int| 0 <= j < cands.len() && cands[j].length < best.length {
                assert(exists|j: int| 0 <= j < rest.len() && rest[j].length < best.length) by {
                    let j = choose|j: int| 0 <= j < cands.len() && cands[j].length < best.length;
                    assert(rest[j - 1] == cands[j]);
                    assert(0 <= j - 1 < rest.len() && rest[j - 1].length < best.length);
                }
                let i = choose|i: int|
                    first_min_below(rest, best.length, i) && fold_policy(
                        FindJpegType::Smallest,
                        rest,
                        best,
                    ) == rest[i];
                assert(cands[i + 1] == rest[i]);
                assert(first_min_below(cands, best.length, i + 1)) by {
                    assert forall|j: int| 0 <= j < cands.len() implies (#[trigger] cands[j]).length
                        >= cands[i + 1].length by {
                        if j >= 1 {
                            assert(cands[j] == rest[j - 1]);
                        }
                    }
                    assert forall|j: int| 0 <= j < i + 1 implies (#[trigger] cands[j]).length
                        > cands[i + 1].length by {
                        if j >= 1 {
                            assert(cands[j] == rest[j - 1]);
                        }
                    }
                }
            }
        }
    }
}

/// `i` is the first index of minimal length in `cands`.
pub open spec fn first_min(cands: Seq<EmbeddedJpegInfo>, i: int) -> bool {
    &&& 0 <= i < cands.len()
    &&& forall|j: int| 0 <= j < cands.len() ==> cands[j].length >= cands[i].length
    &&& forall|j: int| 0 <= j < i ==> cands[j].length > cands[i].length
}

/// `i` is the first index of maximal length in `cands`.
pub open spec fn first_max(cands: Seq<EmbeddedJpegInfo>, i: int) -> bool {
    &&& 0 <= i < cands.len()
    &&& forall|j: int| 0 <= j < cands.len() ==> cands[j].length <= cands[i].length
    &&& forall|j: int| 0 <= j < i ==> cands[j].length < cands[i].length
}

/// Law: under the `Largest` policy a scan returns the first candidate of
/// maximal length across the whole chain — ties keep the first seen — passed
/// through the final bounds check.
pub proof fn lemma_largest_picks_first_maximum(t: Seq<u8>, fuel: nat, cands: Seq<EmbeddedJpegInfo>)
    requires
        t.len() >= 8,
        le_magic(t) || be_magic(t),
        chain_candidates(t, le_magic(t), u32_at(le_magic(t), t, 4), fuel) == Some(cands),
        cands.len() > 0,
        forall|j: int| 0 <= j < cands.len() ==> (#[trigger] cands[j]).length > 0,
    ensures
        exists|i: int| #[trigger] first_max(cands, i) && scan_tiff(t, FindJpegType::Largest, fuel)
            == finish_scan(t, cands[i]),
{
    let le = le_magic(t);
    let first = u32_at(le, t, 4);
    lemma_scan_is_fold(t, le, first, FindJpegType::Largest, no_jpeg(), fuel, cands);
    lemma_fold_largest(cands, no_jpeg());
    assert(cands[0].length > no_jpeg().length);
    let i = choose|i: int|
        first_max_above(cands, no_jpeg().length, i) && fold_policy(
            FindJpegType::Largest,
            cands,
            no_jpeg(),
        ) == cands[i];
    assert(first_max(cands, i));
}

/// Law: under the `Smallest` policy a scan returns the first candidate of
/// minimal length across the whole chain — ties keep the first seen — passed
/// through the final bounds check.
pub proof fn lemma_smallest_picks_first_minimum(t: Seq<u8>, fuel: nat, cands: Seq<EmbeddedJpegInfo>)
    requires
        t.len() >= 8,
        le_magic(t) || be_magic(t),
        chain_candidates(t, le_magic(t), u32_at(le_magic(t), t, 4), fuel) == Some(cands),
        cands.len() > 0,
        forall|j: int| 0 <= j < cands.len() ==> (#[trigger] cands[j]).length > 0,
    ensures
        exists|i: int| #[trigger] first_min(cands, i) && scan_tiff(t, FindJpegType::Smallest, fuel)
            == finish_scan(t, cands[i]),
{
    let le = le_magic(t);
    let first = u32_at(le, t, 4);
    lemma_scan_is_fold(t, le, first, FindJpegType::Smallest, no_jpeg(), fuel, cands);
    let c = cands[0];
    let rest = cands.drop_first();
    assert(fold_candidate(FindJpegType::Smallest, Some(c), no_jpeg()) == c);
    assert(fold_policy(FindJpegType::Smallest, cands, no_jpeg()) == fold_policy(
        FindJpegType::Smallest,
        rest,
        c,
    ));
    lemma_fold_smallest(rest, c);
    if forall|j: int| 0 <= j < rest.len() ==> (#[trigger] rest[j]).length >= c.length {
        assert(first_min(cands, 0)) by {
            assert forall|j: int| 0 <= j < cands.len() implies (#[trigger] cands[j]).length
                >= cands[0].length by {
                if j >= 1 {
                    assert(cands[j] == rest[j - 1]);
                }
            }
        }
        assert(fold_policy(FindJpegType::Smallest, rest, c) == c);
    } else {
        assert(exists|j: int| 0 <= j < rest.len() && (#[trigger] rest[j]).length < c.length);
        let i = choose|i: int|
            first_min_below(rest, c.length, i) && fold_policy(FindJpegType::Smallest, rest, c)
                == rest[i];
        assert(cands[i + 1] == rest[i]);
        assert(first_min(cands, i + 1)) by {
            assert forall|j: int| 0 <= j < cands.len() implies (#[trigger] cands[j]).length
                >= cands[i + 1].length by {
                if j >= 1 {
                    assert(cands[j] == rest[j - 1]);
                }
            }
            assert forall|j: int| 0 <= j < i + 1 implies (#[trigger] cands[j]).length
                > cands[i + 1].length by {
                if j >= 1 {
                    assert(cands[j] == rest[j - 1]);
                }
            }
        }
    }
}

/// Law: a TIFF header whose first IFD offset is zero yields "not found".
pub proof fn lemma_zero_first_offset_is_not_found(t: Seq<u8>, ft: FindJpegType, fuel: nat)
    requires
        t.len() >= 8,
        le_magic(t) || be_magic(t),
        u32_at(le_magic(t), t, 4) == 0,
    ensures
        scan_tiff(t, ft, fuel) == Err::<EmbeddedJpegInfo, ScanError>(ScanError::NoJpegFound),
{
}

/// Law: a first IFD placed where no entry count fits is a format error — the
/// scan never reads past the buffer.
pub proof fn lemma_ifd_offset_out_of_bounds_is_error(t: Seq<u8>, ft: FindJpegType, fuel: nat)
    requires
        t.len() >= 8,
        le_magic(t) || be_magic(t),
        u32_at(le_magic(t), t, 4) != 0,
        u32_at(le_magic(t), t, 4) + 2 > t.len(),
    ensures
        scan_tiff(t, ft, fuel) == Err::<EmbeddedJpegInfo, ScanError>(ScanError::InvalidIfdOffset),
{
}

/// Law: an entry table that overruns the buffer is a format error — the scan
/// never reads past the buffer.
pub proof fn lemma_entry_table_overrun_is_error(t: Seq<u8>, ft: FindJpegType, fuel: nat)
    requires
        t.len() >= 8,
        le_magic(t) || be_magic(t),
        u32_at(le_magic(t), t, 4) != 0,
        u32_at(le_magic(t), t, 4) + 2 <= t.len(),
        t.len() - (u32_at(le_magic(t), t, 4) + 2) < 12 * u16_at(
            le_magic(t),
            t,
            u32_at(le_magic(t), t, 4),
        ),
    ensures
        scan_tiff(t, ft, fuel) == Err::<EmbeddedJpegInfo, ScanError>(ScanError::InvalidEntryCount),
{
}

/// Law: a next-IFD link with no room after the first entry table is a format
/// error — the scan never reads past the buffer.
pub proof fn lemma_next_link_out_of_bounds_is_error(t: Seq<u8>, ft: FindJpegType, fuel: nat)
    requires
        t.len() >= 8,
        le_magic(t) || be_magic(t),
        u32_at(le_magic(t), t, 4) != 0,
        u32_at(le_magic(t), t, 4) + 2 <= t.len(),
        t.len() - (u32_at(le_magic(t), t, 4) + 2) >= 12 * u16_at(
            le_magic(t),
            t,
            u32_at(le_magic(t), t, 4),
        ),
        t.len() < u32_at(le_magic(t), t, 4) + 2 + 12 * u16_at(
            le_magic(t),
            t,
            u32_at(le_magic(t), t, 4),
        ) + 4,
    ensures
        scan_tiff(t, ft, fuel) == Err::<EmbeddedJpegInfo, ScanError>(
            ScanError::InvalidNextIfdOffset,
        ),
{
}

/// Law: a chain declaring exactly one candidate returns that candidate under
/// either policy: its offset and length are the declared region and its
/// orientation the declared value, absent when no orientation tag was seen.
pub proof fn lemma_single_candidate_is_returned(
    t: Seq<u8>,
    ft: FindJpegType,
    fuel: nat,
    c: EmbeddedJpegInfo,
)
    requires
        t.len() >= 8,
        le_magic(t) || be_magic(t),
        chain_candidates(t, le_magic(t), u32_at(le_magic(t), t, 4), fuel) == Some(seq![c]),
        c.length > 0,
    ensures
        scan_tiff(t, ft, fuel) == finish_scan(t, c),
{
    let le = le_magic(t);
    let first = u32_at(le, t, 4);
    lemma_scan_is_fold(t, le, first, ft, no_jpeg(), fuel, seq![c]);
    assert(fold_candidate(ft, Some(c), no_jpeg()) == c);
    assert(seq![c].len() == 1 && seq![c][0] == c);
    assert(seq![c].drop_first() =~= Seq::<EmbeddedJpegInfo>::empty());
    assert(fold_policy(ft, Seq::<EmbeddedJpegInfo>::empty(), c) == c);
    assert(fold_policy(ft, seq![c], no_jpeg()) == fold_policy(
        ft,
        seq![c].drop_first(),
        fold_candidate(ft, Some(seq![c][0]), no_jpeg()),
    ));
    assert(fold_policy(ft, seq![c], no_jpeg()) == c);
}

} // verus!
