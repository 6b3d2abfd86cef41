//! The record model: one parsed transcript (coordinates, strand, exon
//! table, per-exon frame hints) and the validation that establishes its
//! well-formedness invariant.

use vstd::prelude::*;

verus! {

/// Largest genomic coordinate the library accepts.  Keeping every
/// coordinate at or below this bound lets 1-based output coordinates and
/// the three-base codon offsets stay within `u32`.
pub const MAX_COORD: u32 = 0xFFFF_0000;

/// Strand of a transcript.
#[derive(Clone, Copy, PartialEq, Eq, Structural, Debug)]
pub enum Strand {
    Plus,
    Minus,
}

/// Why a would-be transcript record was rejected.
#[derive(Clone, Copy, PartialEq, Eq, Structural, Debug)]
pub enum RecordError {
    /// The strand character is neither `+` nor `-`.
    InvalidStrand,
    /// The transcript span is empty, reversed, or beyond `MAX_COORD`.
    InvalidTranscriptSpan,
    /// The coding span is reversed or not contained in the transcript span.
    InvalidCodingSpan,
    /// The exon table is empty, unsorted, overlapping, or out of bounds.
    InvalidExons,
    /// A frame hint is outside `-1..=2` or inconsistent with the coding span.
    InvalidFrames,
}

/// One transcript record, immutable once parsed.
///
/// Spans are half-open genomic intervals: `[tx_start, tx_end)` for the
/// transcript, `[cds_start, cds_end)` for the coding region, and
/// `[exon_starts[i], exon_ends[i])` for each exon.  `exon_frames[i]` is
/// `-1` for an exon with no coding contribution, otherwise the
/// reading-frame offset at the start of the exon's coding portion.
#[derive(Clone, Debug)]
pub struct BedRecord {
    pub chrom: String,
    pub name: String,
    pub strand: Strand,
    pub tx_start: u32,
    pub tx_end: u32,
    pub cds_start: u32,
    pub cds_end: u32,
    pub exon_starts: Vec<u32>,
    pub exon_ends: Vec<u32>,
    pub exon_frames: Vec<i32>,
}

impl BedRecord {
    pub open spec fn exon_count_spec(self) -> int {
        self.exon_starts@.len() as int
    }

    /// Exon `i` overlaps the (non-empty) coding span.
    pub open spec fn overlaps_cds(self, i: int) -> bool {
        &&& self.cds_start < self.cds_end
        &&& self.exon_starts@[i] < self.cds_end
        &&& self.cds_start < self.exon_ends@[i]
    }

    pub open spec fn spans_ok(self) -> bool {
        &&& self.tx_start < self.tx_end
        &&& self.tx_end <= MAX_COORD
    }

    pub open spec fn cds_ok(self) -> bool {
        &&& self.tx_start <= self.cds_start
        &&& self.cds_start <= self.cds_end
        &&& self.cds_end <= self.tx_end
    }

    pub open spec fn exons_ok(self) -> bool {
        let n = self.exon_count_spec();
        &&& self.exon_ends@.len() == n
        &&& n >= 1
        &&& forall|i: int| 0 <= i < n ==> self.exon_starts@[i] < self.exon_ends@[i]
        &&& forall|i: int| 0 <= i < n - 1 ==> self.exon_ends@[i] <= self.exon_starts@[i + 1]
        &&& self.tx_start <= self.exon_starts@[0]
        &&& self.exon_ends@[n - 1] <= self.tx_end
    }

    pub open spec fn frames_ok(self) -> bool {
        let n = self.exon_count_spec();
        &&& self.exon_frames@.len() == n
        &&& forall|i: int| 0 <= i < n ==> -1 <= #[trigger] self.exon_frames@[i] <= 2
        &&& forall|i: int| 0 <= i < n ==> ((self.exon_frames@[i] >= 0) <==> self.overlaps_cds(i))
    }

    /// The record invariant: every core operation requires it, and the
    /// validating constructor is the only way the library produces one.
    pub open spec fn wf(self) -> bool {
        &&& self.spans_ok()
        &&& self.cds_ok()
        &&& self.exons_ok()
        &&& self.frames_ok()
    }

    /// The record that `new` assembles from its arguments.
    pub open spec fn assembled(
        chrom: String,
        name: String,
        strand: Strand,
        tx_start: u32,
        tx_end: u32,
        cds_start: u32,
        cds_end: u32,
        exon_starts: Vec<u32>,
        exon_ends: Vec<u32>,
        exon_frames: Vec<i32>,
    ) -> BedRecord {
        BedRecord {
            chrom,
            name,
            strand,
            tx_start,
            tx_end,
            cds_start,
            cds_end,
            exon_starts,
            exon_ends,
            exon_frames,
        }
    }

    pub fn exon_count(&self) -> (n: usize)
        ensures
            n == self.exon_count_spec(),
    {
        self.exon_starts.len()
    }

    /// Validate plain field values and assemble a well-formed record.
    ///
    /// Returns `Ok` exactly when the assembled record satisfies `wf`;
    /// otherwise the error names the first violated group of conditions,
    /// checked in the order: transcript span, coding span, exons, frames.
    #[verifier::loop_isolation(false)]
    pub fn new(
        chrom: String,
        name: String,
        strand: Strand,
        tx_start: u32,
        tx_end: u32,
        cds_start: u32,
        cds_end: u32,
        exon_starts: Vec<u32>,
        exon_ends: Vec<u32>,
        exon_frames: Vec<i32>,
    ) -> (r: Result<BedRecord, RecordError>)
        ensures
            (r is Ok <==> Self::assembled(
                chrom, name, strand, tx_start, tx_end, cds_start, cds_end,
                exon_starts, exon_ends, exon_frames).wf()),
            (r is Ok ==> r->Ok_0 == Self::assembled(
                chrom, name, strand, tx_start, tx_end, cds_start, cds_end,
                exon_starts, exon_ends, exon_frames)),
            ({
                let rec = Self::assembled(
                    chrom, name, strand, tx_start, tx_end, cds_start, cds_end,
                    exon_starts, exon_ends, exon_frames);
                &&& (r == Err::<BedRecord, RecordError>(RecordError::InvalidTranscriptSpan)
                    <==> !rec.spans_ok())
                &&& (r == Err::<BedRecord, RecordError>(RecordError::InvalidCodingSpan)
                    <==> rec.spans_ok() && !rec.cds_ok())
                &&& (r == Err::<BedRecord, RecordError>(RecordError::InvalidExons)
                    <==> rec.spans_ok() && rec.cds_ok() && !rec.exons_ok())
                &&& (r == Err::<BedRecord, RecordError>(RecordError::InvalidFrames)
                    <==> rec.spans_ok() && rec.cds_ok() && rec.exons_ok() && !rec.frames_ok())
            }),
    {
        let ghost rec = Self::assembled(
            chrom, name, strand, tx_start, tx_end, cds_start, cds_end,
            exon_starts, exon_ends, exon_frames);

        if !(tx_start < tx_end && tx_end <= MAX_COORD) {
            return Err(RecordError::InvalidTranscriptSpan);
        }
        if !(tx_start <= cds_start && cds_start <= cds_end && cds_end <= tx_end) {
            return Err(RecordError::InvalidCodingSpan);
        }

        let n = exon_starts.len();
        if exon_ends.len() != n || n == 0 {
            return Err(RecordError::InvalidExons);
        }
        if !(tx_start <= exon_starts[0] && exon_ends[n - 1] <= tx_end) {
            return Err(RecordError::InvalidExons);
        }
        let mut i: usize = 0;
        while i < n
            invariant
                n == rec.exon_count_spec(),
                exon_starts@ == rec.exon_starts@,
                exon_ends@ == rec.exon_ends@,
                exon_ends@.len() == n,
                rec.spans_ok(),
                rec.cds_ok(),
                n >= 1,
                rec.tx_start <= rec.exon_starts@[0],
                rec.exon_ends@[n - 1] <= rec.tx_end,
                i <= n,
                forall|j: int| 0 <= j < i ==> rec.exon_starts@[j] < rec.exon_ends@[j],
                forall|j: int| 0 <= j < i && j < n - 1 ==>
                    rec.exon_ends@[j] <= rec.exon_starts@[j + 1],
            decreases n - i,
        {
            if !(exon_starts[i] < exon_ends[i]) {
                proof {
                    assert(rec.exon_starts@[i as int] >= rec.exon_ends@[i as int]);
                    assert(!rec.exons_ok());
                }
                return Err(RecordError::InvalidExons);
            }
            if i + 1 < n && !(exon_ends[i] <= exon_starts[i + 1]) {
                proof {
                    assert(rec.exon_ends@[i as int] > rec.exon_starts@[i as int + 1]);
                    assert(!rec.exons_ok());
                }
                return Err(RecordError::InvalidExons);
            }
            i = i + 1;
        }

        if exon_frames.len() != n {
            return Err(RecordError::InvalidFrames);
        }
        let mut k: usize = 0;
        while k < n
            invariant
                n == rec.exon_count_spec(),
                exon_starts@ == rec.exon_starts@,
                exon_ends@ == rec.exon_ends@,
                exon_frames@ == rec.exon_frames@,
                exon_ends@.len() == n,
                exon_frames@.len() == n,
                rec.spans_ok(),
                rec.cds_ok(),
                rec.exons_ok(),
                cds_start == rec.cds_start,
                cds_end == rec.cds_end,
                k <= n,
                forall|j: int| 0 <= j < k ==> -1 <= #[trigger] rec.exon_frames@[j] <= 2,
                forall|j: int| 0 <= j < k ==>
                    ((rec.exon_frames@[j] >= 0) <==> rec.overlaps_cds(j)),
            decreases n - k,
        {
            let f = exon_frames[k];
            if !(-1 <= f && f <= 2) {
                proof {
                    assert(!(-1 <= rec.exon_frames@[k as int] <= 2));
                    assert(!rec.frames_ok());
                }
                return Err(RecordError::InvalidFrames);
            }
            let overlap = cds_start < cds_end && exon_starts[k] < cds_end && cds_start < exon_ends[k];
            if (f >= 0) != overlap {
                proof {
                    assert(overlap == rec.overlaps_cds(k as int));
                    assert(!((rec.exon_frames@[k as int] >= 0) <==> rec.overlaps_cds(k as int)));
                    assert(!rec.frames_ok());
                }
                return Err(RecordError::InvalidFrames);
            }
            k = k + 1;
        }

        Ok(BedRecord {
            chrom,
            name,
            strand,
            tx_start,
            tx_end,
            cds_start,
            cds_end,
            exon_starts,
            exon_ends,
            exon_frames,
        })
    }
}

/// Parse a strand character: `+` and `-` are the only recognized values;
/// anything else is rejected as a fatal input error.
pub fn parse_strand(c: char) -> (r: Result<Strand, RecordError>)
    ensures
        c == '+' ==> r == Ok::<Strand, RecordError>(Strand::Plus),
        c == '-' ==> r == Ok::<Strand, RecordError>(Strand::Minus),
        c != '+' && c != '-' ==> r == Err::<Strand, RecordError>(RecordError::InvalidStrand),
{
    if c == '+' {
        Ok(Strand::Plus)
    } else if c == '-' {
        Ok(Strand::Minus)
    } else {
        Err(RecordError::InvalidStrand)
    }
}

} // verus!
