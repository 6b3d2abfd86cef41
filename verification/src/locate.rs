//! The codon locator: finding the genomic interval(s) that form the
//! first and last in-frame codon of a transcript's coding span, honoring
//! the per-exon frame hints and the strand.

use vstd::prelude::*;

use crate::codon::Codon;
use crate::record::{BedRecord, Strand};
use crate::translate::{lemma_offset_bound, lemma_offset_mono};

verus! {

/// Start of the coding overlap of exon `i`.
pub open spec fn cds_exon_start(rec: BedRecord, i: int) -> int {
    if rec.exon_starts@[i] > rec.cds_start {
        rec.exon_starts@[i] as int
    } else {
        rec.cds_start as int
    }
}

/// End of the coding overlap of exon `i`.
pub open spec fn cds_exon_end(rec: BedRecord, i: int) -> int {
    if rec.exon_ends@[i] < rec.cds_end {
        rec.exon_ends@[i] as int
    } else {
        rec.cds_end as int
    }
}

/// Effective in-frame phase at the 5' end of the coding span: the raw
/// frame hint on the `+` strand, the hint advanced by the overlap length
/// on the `-` strand.
pub open spec fn first_codon_phase(rec: BedRecord) -> int {
    if rec.strand == Strand::Plus {
        rec.exon_frames@[0] as int
    } else {
        (rec.exon_frames@[0] + (cds_exon_end(rec, 0) - cds_exon_start(rec, 0))) % 3
    }
}

/// Effective in-frame phase at the 3' end: the mirror of
/// `first_codon_phase`.
pub open spec fn last_codon_phase(rec: BedRecord) -> int {
    let k = rec.exon_count_spec() - 1;
    if rec.strand == Strand::Minus {
        rec.exon_frames@[k] as int
    } else {
        (rec.exon_frames@[k] + (cds_exon_end(rec, k) - cds_exon_start(rec, k))) % 3
    }
}

/// The codon anchored at the 5' end of the coding span.  Empty when the
/// first exon establishes no coding frame or the coding span does not
/// start on a codon boundary there; incomplete when fewer than three
/// coding bases are reachable.
pub open spec fn spec_first_codon(rec: BedRecord) -> Codon {
    if rec.exon_frames@[0] < 0 {
        Codon::empty_spec()
    } else if first_codon_phase(rec) != 0 {
        Codon::empty_spec()
    } else {
        let cds_len = rec.cds_end - rec.cds_start;
        let head = if cds_len < 3 { cds_len as int } else { 3 };
        let base = Codon {
            start: rec.cds_start,
            end: (rec.cds_start + head) as u32,
            start2: 0,
            end2: 0,
            index: 0,
        };
        if head < 3 && rec.exon_count_spec() > 1 && cds_len >= 3 - head {
            Codon {
                start2: rec.cds_start,
                end2: (rec.cds_start + (3 - head)) as u32,
                ..base
            }
        } else {
            base
        }
    }
}

/// The codon anchored at the 3' end of the coding span, the mirror of
/// `spec_first_codon`.  Its continuation exon would lie past the end of
/// the exon table, so a short tail codon is always returned incomplete.
pub open spec fn spec_last_codon(rec: BedRecord) -> Codon {
    let k = rec.exon_count_spec() - 1;
    if rec.exon_frames@[k] < 0 {
        Codon::empty_spec()
    } else if last_codon_phase(rec) != 0 {
        Codon::empty_spec()
    } else {
        let tail_start = if rec.cds_end >= rec.cds_start + 3 {
            (rec.cds_end - 3) as int
        } else {
            rec.cds_start as int
        };
        Codon {
            start: tail_start as u32,
            end: rec.cds_end,
            start2: 0,
            end2: 0,
            index: k as i64,
        }
    }
}

/// Get the coordinates of the first codon of the coding span.
/// Returns an empty codon when no coding frame is established or the
/// span is out of frame at its 5' end.
pub fn find_first_codon(record: &BedRecord) -> (c: Codon)
    requires
        record.wf(),
    ensures
        c == spec_first_codon(*record),
        c.wf(),
        c.start <= record.cds_end <= record.tx_end,
        c.start2 <= record.cds_end,
{
    let codon = Codon::new();

    // Scanning the exon table from its 5' end stops at the very first
    // entry: either it carries a frame and hosts the codon search, or it
    // is non-coding and no frame is established at all.
    if record.exon_frames[0] < 0 {
        return codon;
    }

    let cds_exon_s = if record.exon_starts[0] > record.cds_start {
        record.exon_starts[0]
    } else {
        record.cds_start
    };
    let cds_exon_e = if record.exon_ends[0] < record.cds_end {
        record.exon_ends[0]
    } else {
        record.cds_end
    };
    proof {
        assert(record.overlaps_cds(0));
        assert(cds_exon_s < cds_exon_e);
    }

    let frame: i64 = match record.strand {
        Strand::Plus => record.exon_frames[0] as i64,
        Strand::Minus => (record.exon_frames[0] as i64 + (cds_exon_e - cds_exon_s) as i64) % 3,
    };
    if frame != 0 {
        return codon;
    }

    let cds_len = record.cds_end - record.cds_start;
    let head = if cds_len < 3 { cds_len } else { 3 };
    let mut out = Codon {
        start: record.cds_start,
        end: record.cds_start + head,
        start2: 0,
        end2: 0,
        index: 0,
    };

    if head < 3 {
        // The codon would continue in the next exon.
        if record.exon_starts.len() == 1 {
            return out;
        }
        let need = 3 - head;
        if cds_len < need {
            return out;
        }
        out.start2 = record.cds_start;
        out.end2 = record.cds_start + need;
    }
    out
}

/// Get the coordinates of the last codon of the coding span.
/// Returns an empty codon when no coding frame is established or the
/// span is out of frame at its 3' end.
pub fn find_last_codon(record: &BedRecord) -> (c: Codon)
    requires
        record.wf(),
    ensures
        c == spec_last_codon(*record),
        c.wf(),
        spec_codon_complete_last(*record) ==> c.end == record.cds_end,
        0 <= c.index < record.exon_count_spec() || c.index == -1,
{
    let codon = Codon::new();
    let n = record.exon_starts.len();

    // Scanning the exon table from its 3' end stops at the very last
    // entry, mirroring the first-codon scan.
    if record.exon_frames[n - 1] < 0 {
        return codon;
    }

    let cds_exon_s = if record.exon_starts[n - 1] > record.cds_start {
        record.exon_starts[n - 1]
    } else {
        record.cds_start
    };
    let cds_exon_e = if record.exon_ends[n - 1] < record.cds_end {
        record.exon_ends[n - 1]
    } else {
        record.cds_end
    };
    proof {
        assert(record.overlaps_cds(record.exon_count_spec() - 1));
        assert(cds_exon_s < cds_exon_e);
    }

    let frame: i64 = match record.strand {
        Strand::Minus => record.exon_frames[n - 1] as i64,
        Strand::Plus => (record.exon_frames[n - 1] as i64 + (cds_exon_e - cds_exon_s) as i64) % 3,
    };
    if frame != 0 {
        return codon;
    }

    proof {
        // The exon count fits the codon's index field: each exon holds
        // at least one base of the transcript span.
        lemma_offset_mono(*record, 0, record.exon_count_spec());
        lemma_offset_bound(*record, record.exon_count_spec());
    }
    let tail_start = if record.cds_end >= record.cds_start + 3 {
        record.cds_end - 3
    } else {
        record.cds_start
    };
    let out = Codon {
        start: tail_start,
        end: record.cds_end,
        start2: 0,
        end2: 0,
        index: (n - 1) as i64,
    };
    // A short tail codon cannot be continued: its continuation exon
    // would lie past the end of the exon table.
    out
}

/// The last codon is complete.
pub open spec fn spec_codon_complete_last(rec: BedRecord) -> bool {
    crate::codon::spec_codon_complete(spec_last_codon(rec))
}

/// The first codon is complete.
pub open spec fn spec_codon_complete_first(rec: BedRecord) -> bool {
    crate::codon::spec_codon_complete(spec_first_codon(rec))
}

/// A complete first codon starts exactly at the coding-span start, and a
/// complete last codon ends exactly at the coding-span end, with exon
/// indices inside the exon table.
pub proof fn lemma_complete_codon_anchors(rec: BedRecord)
    requires
        rec.wf(),
    ensures
        spec_codon_complete_first(rec) ==> {
            &&& spec_first_codon(rec).start == rec.cds_start
            &&& spec_first_codon(rec).index == 0
        },
        spec_codon_complete_last(rec) ==> {
            &&& spec_last_codon(rec).end == rec.cds_end
            &&& spec_last_codon(rec).index == rec.exon_count_spec() - 1
        },
{
    lemma_offset_mono(rec, 0, rec.exon_count_spec());
    lemma_offset_bound(rec, rec.exon_count_spec());
}

} // verus!
