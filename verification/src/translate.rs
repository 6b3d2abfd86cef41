//! The position translator: shifting a genomic coordinate by a signed
//! number of transcribed bases along the exon union of a transcript,
//! skipping intron gaps entirely.
//!
//! The model: every position inside an exon (boundaries included) has a
//! transcript coordinate `tcoord`, the number of exonic bases between
//! `tx_start` and the position.  A forward shift lands on the leftmost
//! genomic position carrying the target coordinate, a backward shift on
//! the rightmost one; the two can differ only at an exon/intron boundary,
//! where the end of one exon and the start of the next share a coordinate.

use vstd::prelude::*;

use crate::record::BedRecord;

verus! {

/// Why a position shift failed.  Both conditions mark the record as
/// unusable: the whole run must abort rather than skip it.
#[derive(Clone, Copy, PartialEq, Eq, Structural, Debug)]
pub enum MoveError {
    /// The position lies in no exon of the record.
    PositionNotInExons { pos: u32 },
    /// The shift would leave the transcript's exon union.
    OutOfExons { pos: u32, dist: i32 },
}

/// `pos` lies in exon `i`, boundaries included.
pub open spec fn in_exon_spec(rec: BedRecord, pos: int, i: int) -> bool {
    rec.exon_starts@[i] <= pos <= rec.exon_ends@[i]
}

pub open spec fn pos_in_exons(rec: BedRecord, pos: int) -> bool {
    exists|i: int| 0 <= i < rec.exon_count_spec() && in_exon_spec(rec, pos, i)
}

pub open spec fn exon_span(rec: BedRecord, i: int) -> int {
    rec.exon_ends@[i] - rec.exon_starts@[i]
}

/// Number of exonic bases strictly before exon `i`.
pub open spec fn offset_at(rec: BedRecord, i: int) -> int
    decreases i,
{
    if i <= 0 {
        0
    } else {
        offset_at(rec, i - 1) + exon_span(rec, i - 1)
    }
}

/// Total exonic length of the record.
pub open spec fn exonic_len(rec: BedRecord) -> int {
    offset_at(rec, rec.exon_count_spec())
}

/// Index of the first exon at or after `i` that contains `pos`;
/// the exon count when there is none.
pub open spec fn exon_of_from(rec: BedRecord, pos: int, i: int) -> int
    decreases rec.exon_count_spec() - i,
{
    let n = rec.exon_count_spec();
    if i < 0 || i >= n {
        n
    } else if in_exon_spec(rec, pos, i) {
        i
    } else {
        exon_of_from(rec, pos, i + 1)
    }
}

pub open spec fn exon_of(rec: BedRecord, pos: int) -> int {
    exon_of_from(rec, pos, 0)
}

/// Transcript coordinate of a position lying in some exon: the number of
/// exonic bases in `[tx_start, pos)`.
pub open spec fn tcoord(rec: BedRecord, pos: int) -> int {
    let i = exon_of(rec, pos);
    offset_at(rec, i) + (pos - rec.exon_starts@[i])
}

/// Genomic position reached by a forward walk to transcript coordinate
/// `c`, scanning exons from `i` upward: the leftmost position with
/// coordinate `c`.
pub open spec fn fwd_from(rec: BedRecord, c: int, i: int) -> int
    decreases rec.exon_count_spec() - i,
{
    let n = rec.exon_count_spec();
    if i < 0 || i >= n {
        0
    } else if c <= offset_at(rec, i) + exon_span(rec, i) {
        rec.exon_starts@[i] + (c - offset_at(rec, i))
    } else {
        fwd_from(rec, c, i + 1)
    }
}

pub open spec fn fwd_pos(rec: BedRecord, c: int) -> int {
    fwd_from(rec, c, 0)
}

/// Genomic position reached by a backward walk to transcript coordinate
/// `c`, scanning exons from `i` downward: the rightmost position with
/// coordinate `c`.
pub open spec fn bwd_from(rec: BedRecord, c: int, i: int) -> int
    decreases i + 1,
{
    if i < 0 {
        0
    } else if offset_at(rec, i) <= c {
        rec.exon_starts@[i] + (c - offset_at(rec, i))
    } else {
        bwd_from(rec, c, i - 1)
    }
}

pub open spec fn bwd_pos(rec: BedRecord, c: int) -> int {
    bwd_from(rec, c, rec.exon_count_spec() - 1)
}

/// No other genomic position shares this position's transcript
/// coordinate.  Exactly the exon boundary positions beside a non-empty
/// intron are excluded: there the end of one exon and the start of the
/// next carry the same coordinate.
pub open spec fn unambiguous_pos(rec: BedRecord, pos: int) -> bool {
    forall|i: int| 0 <= i < rec.exon_count_spec() - 1 ==> (
        (pos == #[trigger] rec.exon_ends@[i] || pos == rec.exon_starts@[i + 1])
            ==> rec.exon_ends@[i] == rec.exon_starts@[i + 1]
    )
}

/// Exonic offsets grow by at least one base per exon.
pub proof fn lemma_offset_mono(rec: BedRecord, i: int, j: int)
    requires
        rec.wf(),
        0 <= i <= j <= rec.exon_count_spec(),
    ensures
        offset_at(rec, i) + (j - i) <= offset_at(rec, j),
    decreases j - i,
{
    if i < j {
        lemma_offset_mono(rec, i, j - 1);
        assert(rec.exon_starts@[j - 1] < rec.exon_ends@[j - 1]);
    }
}

/// Exons that come earlier in the table end before later ones start.
pub proof fn lemma_exon_chain(rec: BedRecord, a: int, b: int)
    requires
        rec.wf(),
        0 <= a < b < rec.exon_count_spec(),
    ensures
        rec.exon_ends@[a] <= rec.exon_starts@[b],
    decreases b - a,
{
    if a + 1 < b {
        lemma_exon_chain(rec, a, b - 1);
        assert(rec.exon_starts@[b - 1] < rec.exon_ends@[b - 1]);
        assert(rec.exon_ends@[b - 1] <= rec.exon_starts@[b]);
    }
}

/// Every exon lies inside the transcript span.
pub proof fn lemma_exon_bounds(rec: BedRecord, i: int)
    requires
        rec.wf(),
        0 <= i < rec.exon_count_spec(),
    ensures
        rec.tx_start <= rec.exon_starts@[i],
        rec.exon_ends@[i] <= rec.tx_end,
{
    let n = rec.exon_count_spec();
    if i > 0 {
        lemma_exon_chain(rec, 0, i);
    }
    if i < n - 1 {
        lemma_exon_chain(rec, i, n - 1);
    }
}

/// Exonic offsets never exceed the transcript span.
pub proof fn lemma_offset_bound(rec: BedRecord, i: int)
    requires
        rec.wf(),
        0 <= i <= rec.exon_count_spec(),
    ensures
        0 <= offset_at(rec, i),
        i > 0 ==> offset_at(rec, i) <= rec.exon_ends@[i - 1] - rec.exon_starts@[0],
        offset_at(rec, i) <= rec.tx_end - rec.tx_start,
    decreases i,
{
    if i > 0 {
        lemma_offset_bound(rec, i - 1);
        if i - 1 > 0 {
            assert(rec.exon_ends@[i - 2] <= rec.exon_starts@[i - 1]);
        }
        lemma_exon_bounds(rec, i - 1);
    }
}

/// Scanning for `pos` from `a` stops exactly at the first containing exon.
pub proof fn lemma_exon_of_from_skip(rec: BedRecord, pos: int, a: int, i: int)
    requires
        0 <= a <= i < rec.exon_count_spec(),
        forall|j: int| a <= j < i ==> !in_exon_spec(rec, pos, j),
        in_exon_spec(rec, pos, i),
    ensures
        exon_of_from(rec, pos, a) == i,
    decreases i - a,
{
    if a < i {
        lemma_exon_of_from_skip(rec, pos, a + 1, i);
    }
}

/// Scanning from `a` lands on a containing exon no later than `i`.
pub proof fn lemma_exon_of_from_le(rec: BedRecord, pos: int, a: int, i: int)
    requires
        0 <= a <= i < rec.exon_count_spec(),
        in_exon_spec(rec, pos, i),
    ensures
        a <= exon_of_from(rec, pos, a) <= i,
        in_exon_spec(rec, pos, exon_of_from(rec, pos, a)),
    decreases i - a,
{
    if !in_exon_spec(rec, pos, a) {
        lemma_exon_of_from_le(rec, pos, a + 1, i);
    }
}

/// The transcript coordinate of a position can be read off any exon that
/// contains it; containing exons can only meet at a shared boundary.
pub proof fn lemma_tcoord_in_exon(rec: BedRecord, pos: int, i: int)
    requires
        rec.wf(),
        0 <= i < rec.exon_count_spec(),
        in_exon_spec(rec, pos, i),
    ensures
        tcoord(rec, pos) == offset_at(rec, i) + (pos - rec.exon_starts@[i]),
        pos_in_exons(rec, pos),
{
    lemma_exon_of_from_le(rec, pos, 0, i);
    let k = exon_of(rec, pos);
    if k < i {
        lemma_exon_chain(rec, k, i);
        assert(pos == rec.exon_ends@[k] && pos == rec.exon_starts@[i]);
        if k + 1 < i {
            lemma_exon_chain(rec, k + 1, i);
            assert(rec.exon_starts@[k + 1] < rec.exon_ends@[k + 1]);
            assert(false);
        }
        assert(i == k + 1);
        assert(offset_at(rec, i) == offset_at(rec, k) + exon_span(rec, k));
    }
}

/// A forward scan skips exons whose span ends before the target.
pub proof fn lemma_fwd_from_skip(rec: BedRecord, c: int, a: int, k: int)
    requires
        0 <= a <= k < rec.exon_count_spec(),
        forall|m: int| a <= m < k ==> c > offset_at(rec, m) + #[trigger] exon_span(rec, m),
    ensures
        fwd_from(rec, c, a) == fwd_from(rec, c, k),
    decreases k - a,
{
    if a < k {
        lemma_fwd_from_skip(rec, c, a + 1, k);
    }
}

/// A backward scan skips exons that start after the target.
pub proof fn lemma_bwd_from_skip(rec: BedRecord, c: int, b: int, k: int)
    requires
        0 <= k <= b < rec.exon_count_spec(),
        forall|m: int| k < m <= b ==> #[trigger] offset_at(rec, m) > c,
    ensures
        bwd_from(rec, c, b) == bwd_from(rec, c, k),
    decreases b - k,
{
    if k < b {
        lemma_bwd_from_skip(rec, c, b - 1, k);
    }
}

/// The forward walk reaches a position carrying exactly the target
/// coordinate, inside the exon union and the transcript span.
pub proof fn lemma_fwd_from_props(rec: BedRecord, c: int, a: int)
    requires
        rec.wf(),
        0 <= a < rec.exon_count_spec(),
        offset_at(rec, a) <= c <= exonic_len(rec),
    ensures
        pos_in_exons(rec, fwd_from(rec, c, a)),
        tcoord(rec, fwd_from(rec, c, a)) == c,
        rec.tx_start <= fwd_from(rec, c, a) <= rec.tx_end,
    decreases rec.exon_count_spec() - a,
{
    let n = rec.exon_count_spec();
    if c <= offset_at(rec, a) + exon_span(rec, a) {
        let p = rec.exon_starts@[a] + (c - offset_at(rec, a));
        assert(in_exon_spec(rec, p, a));
        lemma_tcoord_in_exon(rec, p, a);
        lemma_exon_bounds(rec, a);
    } else {
        assert(offset_at(rec, a + 1) == offset_at(rec, a) + exon_span(rec, a));
        if a + 1 == n {
            assert(offset_at(rec, n) == exonic_len(rec));
            assert(false);
        }
        lemma_fwd_from_props(rec, c, a + 1);
    }
}

/// The backward walk reaches a position carrying exactly the target
/// coordinate, inside the exon union and the transcript span.
pub proof fn lemma_bwd_from_props(rec: BedRecord, c: int, b: int)
    requires
        rec.wf(),
        0 <= b < rec.exon_count_spec(),
        0 <= c <= offset_at(rec, b) + exon_span(rec, b),
    ensures
        pos_in_exons(rec, bwd_from(rec, c, b)),
        tcoord(rec, bwd_from(rec, c, b)) == c,
        rec.tx_start <= bwd_from(rec, c, b) <= rec.tx_end,
    decreases b + 1,
{
    if offset_at(rec, b) <= c {
        let p = rec.exon_starts@[b] + (c - offset_at(rec, b));
        assert(in_exon_spec(rec, p, b));
        lemma_tcoord_in_exon(rec, p, b);
        lemma_exon_bounds(rec, b);
    } else {
        lemma_offset_bound(rec, b);
        assert(b > 0);
        assert(offset_at(rec, b) == offset_at(rec, b - 1) + exon_span(rec, b - 1));
        lemma_bwd_from_props(rec, c, b - 1);
    }
}

/// Two positions with the same transcript coordinate are equal, or are
/// the two sides of one exon/intron boundary.
pub proof fn lemma_same_tcoord(rec: BedRecord, p1: int, i1: int, p2: int, i2: int)
    requires
        rec.wf(),
        0 <= i1 <= i2 < rec.exon_count_spec(),
        in_exon_spec(rec, p1, i1),
        in_exon_spec(rec, p2, i2),
        offset_at(rec, i1) + (p1 - rec.exon_starts@[i1])
            == offset_at(rec, i2) + (p2 - rec.exon_starts@[i2]),
    ensures
        p1 == p2 || (i2 == i1 + 1 && p1 == rec.exon_ends@[i1] && p2 == rec.exon_starts@[i2]),
{
    if i1 < i2 {
        lemma_offset_mono(rec, i1 + 1, i2);
        assert(offset_at(rec, i1 + 1) == offset_at(rec, i1) + exon_span(rec, i1));
    }
}

/// A position whose coordinate is shared by no other position is the
/// unique position with that coordinate.
pub proof fn lemma_unique_pos(rec: BedRecord, pos: int, p2: int)
    requires
        rec.wf(),
        pos_in_exons(rec, pos),
        pos_in_exons(rec, p2),
        unambiguous_pos(rec, pos),
        tcoord(rec, pos) == tcoord(rec, p2),
    ensures
        p2 == pos,
{
    let i1 = choose|i: int| 0 <= i < rec.exon_count_spec() && in_exon_spec(rec, pos, i);
    let i2 = choose|i: int| 0 <= i < rec.exon_count_spec() && in_exon_spec(rec, p2, i);
    lemma_tcoord_in_exon(rec, pos, i1);
    lemma_tcoord_in_exon(rec, p2, i2);
    if i1 <= i2 {
        lemma_same_tcoord(rec, pos, i1, p2, i2);
        if pos != p2 {
            assert(pos == rec.exon_ends@[i1] && p2 == rec.exon_starts@[i1 + 1]);
            assert(rec.exon_ends@[i1] == rec.exon_starts@[i1 + 1]);
        }
    } else {
        lemma_same_tcoord(rec, p2, i2, pos, i1);
        if pos != p2 {
            assert(p2 == rec.exon_ends@[i2] && pos == rec.exon_starts@[i2 + 1]);
            assert(rec.exon_ends@[i2] == rec.exon_starts@[i2 + 1]);
        }
    }
}

/// Moving a position by `dist` transcribed bases and then by `-dist`
/// returns to the original position, for any starting position whose
/// transcript coordinate no other genomic position shares and any
/// distance whose target stays within the exon union.
pub proof fn lemma_move_pos_inverse(rec: BedRecord, pos: u32, dist: int)
    requires
        rec.wf(),
        pos_in_exons(rec, pos as int),
        unambiguous_pos(rec, pos as int),
        0 <= tcoord(rec, pos as int) + dist <= exonic_len(rec),
    ensures
        dist > 0 ==> ({
            let p2 = fwd_pos(rec, tcoord(rec, pos as int) + dist);
            &&& pos_in_exons(rec, p2)
            &&& tcoord(rec, p2) == tcoord(rec, pos as int) + dist
            &&& bwd_pos(rec, tcoord(rec, p2) - dist) == pos as int
        }),
        dist < 0 ==> ({
            let p2 = bwd_pos(rec, tcoord(rec, pos as int) + dist);
            &&& pos_in_exons(rec, p2)
            &&& tcoord(rec, p2) == tcoord(rec, pos as int) + dist
            &&& fwd_pos(rec, tcoord(rec, p2) - dist) == pos as int
        }),
{
    let n = rec.exon_count_spec();
    let c0 = tcoord(rec, pos as int);
    let i0 = choose|i: int| 0 <= i < n && in_exon_spec(rec, pos as int, i);
    lemma_tcoord_in_exon(rec, pos as int, i0);
    lemma_offset_bound(rec, i0);
    assert(c0 >= 0);
    lemma_offset_mono(rec, i0 + 1, n);
    assert(offset_at(rec, i0 + 1) == offset_at(rec, i0) + exon_span(rec, i0));
    assert(c0 <= exonic_len(rec));
    if dist > 0 {
        lemma_fwd_from_props(rec, c0 + dist, 0);
        let p2 = fwd_pos(rec, c0 + dist);
        assert(offset_at(rec, n) == offset_at(rec, n - 1) + exon_span(rec, n - 1));
        lemma_bwd_from_props(rec, c0, n - 1);
        lemma_unique_pos(rec, pos as int, bwd_pos(rec, c0));
    }
    if dist < 0 {
        assert(offset_at(rec, n) == offset_at(rec, n - 1) + exon_span(rec, n - 1));
        lemma_bwd_from_props(rec, c0 + dist, n - 1);
        lemma_fwd_from_props(rec, c0, 0);
        lemma_unique_pos(rec, pos as int, fwd_pos(rec, c0));
    }
}

/// Check whether a coordinate lies within exon `exon`, boundaries
/// included.
pub fn in_exon(record: &BedRecord, pos: u32, exon: usize) -> (r: bool)
    requires
        record.wf(),
        exon < record.exon_count_spec(),
    ensures
        r == in_exon_spec(*record, pos as int, exon as int),
{
    record.exon_starts[exon] <= pos && pos <= record.exon_ends[exon]
}

/// Move a position within the exon union by a signed distance of
/// transcribed bases: forward for `dist > 0`, backward for `dist < 0`,
/// skipping introns entirely.
///
/// Fails when the position lies in no exon, or when fewer than `|dist|`
/// exonic bases remain in the requested direction; both are fatal
/// conditions for the whole run.
#[verifier::loop_isolation(false)]
#[verifier::rlimit(100)]
pub fn move_pos(record: &BedRecord, pos: u32, dist: i32) -> (r: Result<u32, MoveError>)
    requires
        record.wf(),
        record.tx_start <= pos <= record.tx_end,
    ensures
        match r {
            Ok(p) => {
                &&& pos_in_exons(*record, pos as int)
                &&& 0 <= tcoord(*record, pos as int) + dist <= exonic_len(*record)
                &&& tcoord(*record, p as int) == tcoord(*record, pos as int) + dist
                &&& (dist > 0 ==> p == fwd_pos(*record, tcoord(*record, pos as int) + dist))
                &&& (dist < 0 ==> p == bwd_pos(*record, tcoord(*record, pos as int) + dist))
                &&& (dist == 0 ==> p == pos)
                &&& pos_in_exons(*record, p as int)
                &&& record.tx_start <= p <= record.tx_end
            },
            Err(MoveError::PositionNotInExons { pos: ep }) => {
                &&& ep == pos
                &&& !pos_in_exons(*record, pos as int)
            },
            Err(MoveError::OutOfExons { pos: ep, dist: ed }) => {
                &&& ep == pos
                &&& ed == dist
                &&& pos_in_exons(*record, pos as int)
                &&& !(0 <= tcoord(*record, pos as int) + dist <= exonic_len(*record))
            },
        },
{
    let ghost grec = *record;
    let n = record.exon_starts.len();

    // Find the first exon containing `pos`, accumulating its offset.
    let mut i: usize = 0;
    let mut off: u64 = 0;
    while i < n && !(record.exon_starts[i] <= pos && pos <= record.exon_ends[i])
        invariant
            i <= n,
            off == offset_at(grec, i as int),
            forall|j: int| 0 <= j < i ==> !in_exon_spec(grec, pos as int, j),
        decreases n - i,
    {
        proof {
            lemma_offset_bound(grec, i as int + 1);
        }
        off = off + (record.exon_ends[i] - record.exon_starts[i]) as u64;
        i = i + 1;
    }
    if i == n {
        return Err(MoveError::PositionNotInExons { pos });
    }
    proof {
        assert(in_exon_spec(grec, pos as int, i as int));
        assert(pos_in_exons(grec, pos as int));
        lemma_exon_of_from_skip(grec, pos as int, 0, i as int);
        lemma_offset_bound(grec, i as int);
    }
    let tc: u64 = off + (pos - record.exon_starts[i]) as u64;
    proof {
        assert(tc == tcoord(grec, pos as int));
    }

    // Total exonic length.
    let mut j: usize = i;
    let mut total: u64 = off;
    while j < n
        invariant
            i <= j <= n,
            total == offset_at(grec, j as int),
        decreases n - j,
    {
        proof {
            lemma_offset_bound(grec, j as int + 1);
        }
        total = total + (record.exon_ends[j] - record.exon_starts[j]) as u64;
        j = j + 1;
    }
    proof {
        lemma_offset_mono(grec, i as int + 1, n as int);
        assert(offset_at(grec, i as int + 1)
            == offset_at(grec, i as int) + exon_span(grec, i as int));
        assert(tc <= total);
        lemma_offset_bound(grec, n as int);
    }

    let target_i: i64 = tc as i64 + dist as i64;
    if target_i < 0 || target_i > total as i64 {
        return Err(MoveError::OutOfExons { pos, dist });
    }
    if dist == 0 {
        return Ok(pos);
    }
    let target: u64 = target_i as u64;

    if dist > 0 {
        Ok(scan_fwd(record, target))
    } else {
        Ok(scan_bwd(record, target, total))
    }
}

/// Forward walk: the leftmost position carrying coordinate `target`,
/// found by scanning exons upward.
#[verifier::loop_isolation(false)]
#[verifier::rlimit(100)]
fn scan_fwd(record: &BedRecord, target: u64) -> (p: u32)
    requires
        record.wf(),
        0 <= target <= exonic_len(*record),
    ensures
        p == fwd_pos(*record, target as int),
        tcoord(*record, p as int) == target,
        pos_in_exons(*record, p as int),
        record.tx_start <= p <= record.tx_end,
{
    let ghost grec = *record;
    let n = record.exon_starts.len();
    let mut k: usize = 0;
    let mut o: u64 = 0;
    while k < n
        invariant
            k <= n,
            o == offset_at(grec, k as int),
            forall|m: int| 0 <= m < k ==> target > offset_at(grec, m) + #[trigger] exon_span(grec, m),
        decreases n - k,
    {
        let sp = record.exon_ends[k] - record.exon_starts[k];
        proof {
            assert(offset_at(grec, k as int + 1)
                == offset_at(grec, k as int) + exon_span(grec, k as int));
            lemma_offset_bound(grec, k as int + 1);
        }
        if target <= o + sp as u64 {
            proof {
                if k > 0 {
                    assert(offset_at(grec, k as int)
                        == offset_at(grec, k as int - 1) + exon_span(grec, k as int - 1));
                }
                assert(o <= target);
                lemma_fwd_from_skip(grec, target as int, 0, k as int);
                lemma_fwd_from_props(grec, target as int, k as int);
            }
            return record.exon_starts[k] + (target - o) as u32;
        }
        proof {
            assert(offset_at(grec, k as int + 1)
                == offset_at(grec, k as int) + exon_span(grec, k as int));
            if k + 1 == n {
                assert(false);
            }
            lemma_offset_bound(grec, k as int + 1);
        }
        o = o + sp as u64;
        k = k + 1;
    }
    // Never reached: the scan always finds the target exon.
    proof {
        assert(offset_at(grec, n as int)
            == offset_at(grec, n as int - 1) + exon_span(grec, n as int - 1));
        assert(false);
    }
    0
}

/// Backward walk: the rightmost position carrying coordinate `target`,
/// found by scanning exons downward.
#[verifier::loop_isolation(false)]
#[verifier::rlimit(100)]
fn scan_bwd(record: &BedRecord, target: u64, total: u64) -> (p: u32)
    requires
        record.wf(),
        total == exonic_len(*record),
        0 <= target <= exonic_len(*record),
    ensures
        p == bwd_pos(*record, target as int),
        tcoord(*record, p as int) == target,
        pos_in_exons(*record, p as int),
        record.tx_start <= p <= record.tx_end,
{
    let ghost grec = *record;
    let n = record.exon_starts.len();
    let mut k: usize = n - 1;
    proof {
        assert(offset_at(grec, n as int)
            == offset_at(grec, n as int - 1) + exon_span(grec, n as int - 1));
        lemma_offset_bound(grec, n as int - 1);
    }
    let mut o: u64 = total - (record.exon_ends[n - 1] - record.exon_starts[n - 1]) as u64;
    while o > target
        invariant
            k < n,
            o == offset_at(grec, k as int),
            forall|m: int| k < m < n ==> #[trigger] offset_at(grec, m) > target,
        decreases k,
    {
        proof {
            if k == 0 {
                assert(offset_at(grec, 0) == 0);
                assert(false);
            }
            assert(offset_at(grec, k as int)
                == offset_at(grec, k as int - 1) + exon_span(grec, k as int - 1));
            lemma_offset_bound(grec, k as int - 1);
        }
        k = k - 1;
        o = o - (record.exon_ends[k] - record.exon_starts[k]) as u64;
    }
    proof {
        if k as int + 1 < n as int {
            assert(offset_at(grec, k as int + 1) > target);
        }
        assert(offset_at(grec, k as int + 1)
            == offset_at(grec, k as int) + exon_span(grec, k as int));
        assert(target <= offset_at(grec, k as int) + exon_span(grec, k as int));
        lemma_bwd_from_skip(grec, target as int, n as int - 1, k as int);
        lemma_bwd_from_props(grec, target as int, k as int);
    }
    record.exon_starts[k] + (target - o) as u32
}

} // verus!
