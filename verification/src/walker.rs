//! Decisions of the directory walker and of the batch scheduler: which file
//! names are RAW candidates, what the mirrored output file is called, and
//! when a batch of per-file outcomes counts as a success.

use vstd::prelude::*;

verus! {

/// ASCII lowercase of one byte.
pub open spec fn lower_byte(b: u8) -> u8 {
    if 65 <= b && b <= 90 {
        (b + 32) as u8
    } else {
        b
    }
}

/// ASCII lowercase of a byte string.
pub open spec fn ascii_lower(s: Seq<u8>) -> Seq<u8> {
    s.map_values(|b: u8| lower_byte(b))
}

/// The three lowercase bytes of one extension of the default RAW allow-list.
pub open spec fn ext3_in_default_list(a: u8, b: u8, c: u8) -> bool {
    ||| (a == 97 && b == 114 && c == 119)  // arw
    ||| (a == 99 && b == 114 && c == 50)  // cr2
    ||| (a == 99 && b == 114 && c == 119)  // crw
    ||| (a == 100 && b == 110 && c == 103)  // dng
    ||| (a == 101 && b == 114 && c == 102)  // erf
    ||| (a == 107 && b == 100 && c == 99)  // kdc
    ||| (a == 109 && b == 101 && c == 102)  // mef
    ||| (a == 109 && b == 114 && c == 119)  // mrw
    ||| (a == 110 && b == 101 && c == 102)  // nef
    ||| (a == 110 && b == 114 && c == 119)  // nrw
    ||| (a == 111 && b == 114 && c == 102)  // orf
    ||| (a == 112 && b == 101 && c == 102)  // pef
    ||| (a == 114 && b == 97 && c == 102)  // raf
    ||| (a == 114 && b == 97 && c == 119)  // raw
    ||| (a == 114 && b == 119 && c == 50)  // rw2
    ||| (a == 114 && b == 119 && c == 108)  // rwl
    ||| (a == 115 && b == 114 && c == 50)  // sr2
    ||| (a == 115 && b == 114 && c == 102)  // srf
    ||| (a == 115 && b == 114 && c == 119)  // srw
    ||| (a == 120 && b == 51 && c == 102)  // x3f
}

/// A lowercased extension is in the default RAW allow-list.
pub open spec fn is_default_raw_ext(s: Seq<u8>) -> bool {
    s.len() == 3 && ext3_in_default_list(s[0], s[1], s[2])
}

/// A file extension is accepted when it is in the default allow-list up to
/// ASCII case, or equals the one extra extension the caller configured.
pub open spec fn accepted_extension(ext: Seq<u8>, extra: Option<Seq<u8>>) -> bool {
    is_default_raw_ext(ascii_lower(ext)) || (match extra {
        Some(x) => ext == x,
        None => false,
    })
}

fn lower_bytes(ext: &[u8]) -> (r: Vec<u8>)
    ensures
        r@ == ascii_lower(ext@),
{
    let mut out: Vec<u8> = Vec::new();
    let mut i: usize = 0;
    while i < ext.len()
        invariant
            i <= ext@.len(),
            out@ == ascii_lower(ext@.take(i as int)),
        decreases ext@.len() - i,
    {
        let b = ext[i];
        if 65 <= b && b <= 90 {
            out.push(b + 32);
        } else {
            out.push(b);
        }
        proof {
            assert(out@ =~= ascii_lower(ext@.take(i + 1)));
        }
        i = i + 1;
    }
    proof {
        assert(ext@.take(ext@.len() as int) =~= ext@);
    }
    out
}

fn bytes_equal(a: &[u8], b: &[u8]) -> (r: bool)
    ensures
        r == (a@ == b@),
{
    if a.len() != b.len() {
        return false;
    }
    let mut i: usize = 0;
    while i < a.len()
        invariant
            i <= a@.len(),
            a@.len() == b@.len(),
            forall|j: int| 0 <= j < i ==> a@[j] == b@[j],
        decreases a@.len() - i,
    {
        if a[i] != b[i] {
            return false;
        }
        i = i + 1;
    }
    proof {
        assert(a@ =~= b@);
    }
    true
}

/// Decide whether a file extension names a RAW candidate: a match of the
/// default allow-list, ASCII-case-insensitively, or of the caller's one
/// extra extension, exactly.
pub fn is_raw_extension(ext: &[u8], extra: Option<&[u8]>) -> (r: bool)
    ensures
        r == accepted_extension(ext@, match extra {
            Some(x) => Some(x@),
            None => None,
        }),
{
    let low = lower_bytes(ext);
    let in_list = if low.len() == 3 {
        let a = low[0];
        let b = low[1];
        let c = low[2];
        (a == 97 && b == 114 && c == 119) || (a == 99 && b == 114 && c == 50) || (a == 99 && b
            == 114 && c == 119) || (a == 100 && b == 110 && c == 103) || (a == 101 && b == 114 && c
            == 102) || (a == 107 && b == 100 && c == 99) || (a == 109 && b == 101 && c == 102) || (
        a == 109 && b == 114 && c == 119) || (a == 110 && b == 101 && c == 102) || (a == 110 && b
            == 114 && c == 119) || (a == 111 && b == 114 && c == 102) || (a == 112 && b == 101 && c
            == 102) || (a == 114 && b == 97 && c == 102) || (a == 114 && b == 97 && c == 119) || (a
            == 114 && b == 119 && c == 50) || (a == 114 && b == 119 && c == 108) || (a == 115 && b
            == 114 && c == 50) || (a == 115 && b == 114 && c == 102) || (a == 115 && b == 114 && c
            == 119) || (a == 120 && b == 51 && c == 102)
    } else {
        false
    };
    if in_list {
        return true;
    }
    match extra {
        Some(x) => bytes_equal(ext, x),
        None => false,
    }
}

/// The suffix every output file name ends with.
pub open spec fn jpg_suffix() -> Seq<u8> {
    seq![46u8, 106u8, 112u8, 103u8]  // ".jpg"
}

/// `k` is the position of the extension dot of the final path component: a
/// dot with no later dot and no later path separator.
pub open spec fn is_stem_end(s: Seq<u8>, k: int) -> bool {
    &&& 0 <= k < s.len()
    &&& s[k] == 46u8
    &&& forall|j: int| k < j < s.len() ==> s[j] != 46u8 && s[j] != 47u8
}

/// The mirrored output name of a relative path: the extension of its final
/// component replaced by `jpg`, or `.jpg` appended when it has none.
pub fn output_rel_name(rel: &[u8]) -> (r: Vec<u8>)
    ensures
        (exists|k: int| is_stem_end(rel@, k)) ==> exists|k: int| #[trigger] is_stem_end(rel@, k)
            && r@ == rel@.take(k) + jpg_suffix(),
        !(exists|k: int| is_stem_end(rel@, k)) ==> r@ == rel@ + jpg_suffix(),
{
    let mut found_dot = false;
    let mut found_sep = false;
    let mut i = rel.len();
    while i > 0 && !found_dot && !found_sep
        invariant
            i <= rel@.len(),
            forall|j: int| i <= j < rel@.len() ==> rel@[j] != 46u8 && rel@[j] != 47u8,
            found_dot ==> i >= 1 && rel@[i - 1] == 46u8,
            found_sep ==> i >= 1 && rel@[i - 1] == 47u8,
            !(found_dot && found_sep),
        decreases i, (if found_dot || found_sep { 0int } else { 1int }),
    {
        let b = rel[i - 1];
        if b == 46 {
            found_dot = true;
        } else if b == 47 {
            found_sep = true;
        } else {
            i = i - 1;
        }
    }
    proof {
        if found_dot {
            assert(is_stem_end(rel@, i - 1));
        } else if found_sep {
            assert forall|k: int| !is_stem_end(rel@, k) by {
                if 0 <= k < rel@.len() && rel@[k] == 46u8 {
                    assert(k <= i - 2);
                    assert(rel@[i - 1] == 47u8 && k < i - 1 < rel@.len());
                }
            }
        } else {
            assert forall|k: int| !is_stem_end(rel@, k) by {
                if 0 <= k < rel@.len() {
                    assert(rel@[k] != 46u8);
                }
            }
        }
    }
    let stem_len = if found_dot {
        i - 1
    } else {
        rel.len()
    };
    let mut out: Vec<u8> = Vec::new();
    let mut p: usize = 0;
    while p < stem_len
        invariant
            p <= stem_len <= rel@.len(),
            out@ == rel@.take(p as int),
        decreases stem_len - p,
    {
        out.push(rel[p]);
        proof {
            assert(out@ =~= rel@.take(p + 1));
        }
        p = p + 1;
    }
    out.push(46);
    out.push(106);
    out.push(112);
    out.push(103);
    proof {
        assert(out@ =~= rel@.take(stem_len as int) + jpg_suffix());
        if !found_dot {
            assert(rel@.take(rel@.len() as int) =~= rel@);
        }
    }
    out
}

/// How many outcomes of a batch failed.
pub open spec fn failure_count(s: Seq<bool>) -> nat
    decreases s.len(),
{
    if s.len() == 0 {
        0
    } else {
        failure_count(s.drop_last()) + if s.last() {
            0nat
        } else {
            1nat
        }
    }
}

/// A batch with no failed outcome is exactly one whose outcomes are all true.
pub proof fn lemma_no_failures_means_all_succeeded(s: Seq<bool>)
    ensures
        (failure_count(s) == 0) <==> (forall|i: int| 0 <= i < s.len() ==> s[i]),
    decreases s.len(),
{
    if s.len() > 0 {
        lemma_no_failures_means_all_succeeded(s.drop_last());
        assert(forall|i: int| 0 <= i < s.len() - 1 ==> s.drop_last()[i] == s[i]);
        if failure_count(s) == 0 {
            assert forall|i: int| 0 <= i < s.len() implies s[i] by {
                if i < s.len() - 1 {
                    assert(s.drop_last()[i]);
                }
            }
        }
    }
}

/// Count the failed outcomes of a batch: the whole run succeeds exactly when
/// this is zero, and every file was attempted regardless.
pub fn count_failures(outcomes: &Vec<bool>) -> (n: usize)
    ensures
        n == failure_count(outcomes@),
        (n == 0) <==> (forall|i: int| 0 <= i < outcomes@.len() ==> outcomes@[i]),
{
    let mut n: usize = 0;
    let mut i: usize = 0;
    while i < outcomes.len()
        invariant
            i <= outcomes@.len(),
            n <= i,
            n == failure_count(outcomes@.take(i as int)),
        decreases outcomes@.len() - i,
    {
        if !outcomes[i] {
            n = n + 1;
        }
        proof {
            assert(outcomes@.take(i + 1).drop_last() =~= outcomes@.take(i as int));
            assert(outcomes@.take(i + 1).last() == outcomes@[i as int]);
        }
        i = i + 1;
    }
    proof {
        assert(outcomes@.take(outcomes@.len() as int) =~= outcomes@);
        lemma_no_failures_means_all_succeeded(outcomes@);
    }
    n
}

/// Whether a whole batch succeeded: true exactly when every outcome is true.
pub fn batch_succeeded(outcomes: &Vec<bool>) -> (r: bool)
    ensures
        r == (forall|i: int| 0 <= i < outcomes@.len() ==> outcomes@[i]),
{
    count_failures(outcomes) == 0
}

} // verus!
