//! The record assembler: sequencing gene/transcript/exon/CDS/UTR/codon
//! emission for one transcript, with the strand-dependent start/stop
//! codon trimming rule, and the gene-level deduplication step.

use vstd::prelude::*;

use crate::codon::{codon_complete, spec_codon_complete};
use crate::lines::{
    build_gene_line, build_gff_line, spec_codon_lines, spec_exon_features, spec_gene_line,
    spec_gff_line, write_codon, write_features, FeatureType, GffLine,
};
use crate::locate::{
    find_first_codon, find_last_codon, lemma_complete_codon_anchors, spec_first_codon,
    spec_last_codon,
};
use crate::record::{BedRecord, Strand};
use crate::translate::{
    bwd_pos, exonic_len, fwd_pos, move_pos, pos_in_exons, tcoord, MoveError,
};

verus! {

/// The position translator can shift `pos` by `dist` bases.
pub open spec fn can_move(rec: BedRecord, pos: int, dist: int) -> bool {
    &&& pos_in_exons(rec, pos)
    &&& 0 <= tcoord(rec, pos) + dist <= exonic_len(rec)
}

/// The error `move_pos` reports when it cannot shift `pos` by `dist`.
pub open spec fn spec_move_err(rec: BedRecord, pos: u32, dist: i32) -> MoveError {
    if !pos_in_exons(rec, pos as int) {
        MoveError::PositionNotInExons { pos }
    } else {
        MoveError::OutOfExons { pos, dist }
    }
}

/// On the `+` strand a complete stop codon is excluded from the coding
/// span: its end moves back three transcribed bases.
pub open spec fn cds_end_adjust_needed(rec: BedRecord) -> bool {
    rec.strand == Strand::Plus && spec_codon_complete(spec_last_codon(rec))
}

/// On the `-` strand a complete (genomically first) stop codon is
/// excluded from the coding span: its start moves forward three bases.
pub open spec fn cds_start_adjust_needed(rec: BedRecord) -> bool {
    rec.strand == Strand::Minus && spec_codon_complete(spec_first_codon(rec))
}

pub open spec fn cds_end_adjust_ok(rec: BedRecord) -> bool {
    cds_end_adjust_needed(rec) ==> can_move(rec, rec.cds_end as int, -3)
}

pub open spec fn cds_start_adjust_ok(rec: BedRecord) -> bool {
    cds_start_adjust_needed(rec) ==> can_move(rec, rec.cds_start as int, 3)
}

/// The coding-span end used for feature partitioning.
pub open spec fn spec_cds_end_adj(rec: BedRecord) -> int {
    if cds_end_adjust_needed(rec) {
        bwd_pos(rec, tcoord(rec, rec.cds_end as int) - 3)
    } else {
        rec.cds_end as int
    }
}

/// The coding-span start used for feature partitioning.
pub open spec fn spec_cds_start_adj(rec: BedRecord) -> int {
    if cds_start_adjust_needed(rec) {
        fwd_pos(rec, tcoord(rec, rec.cds_start as int) + 3)
    } else {
        rec.cds_start as int
    }
}

/// The lines emitted for exon `i`: the exon feature itself, then its
/// UTR/CDS partition when the transcript is coding after adjustment to
/// the span `[cs, ce)`.
pub open spec fn spec_exon_block(rec: BedRecord, gene: String, i: int, cs: int, ce: int)
    -> Seq<GffLine>
{
    seq![spec_gff_line(rec, gene, FeatureType::Exon, rec.exon_starts@[i] as int,
        rec.exon_ends@[i] as int, -1, i)]
    + if cs < ce {
        spec_exon_features(rec, gene, i, rec.cds_start as int, cs, ce, rec.cds_end as int,
            rec.exon_frames@[i] as int)
    } else {
        Seq::<GffLine>::empty()
    }
}

/// The lines emitted for the first `k` exons, in table order.
pub open spec fn spec_exon_blocks(rec: BedRecord, gene: String, k: int, cs: int, ce: int)
    -> Seq<GffLine>
    decreases k,
{
    if k <= 0 {
        Seq::<GffLine>::empty()
    } else {
        spec_exon_blocks(rec, gene, k - 1, cs, ce) + spec_exon_block(rec, gene, k - 1, cs, ce)
    }
}

/// The codon lines of one transcript.  On the `+` strand the 5'-most
/// codon is the start codon and the 3'-most the stop codon; on the `-`
/// strand the roles invert.
pub open spec fn spec_strand_codon_lines(rec: BedRecord, gene: String) -> Seq<GffLine> {
    let first = spec_first_codon(rec);
    let last = spec_last_codon(rec);
    if rec.strand == Strand::Plus {
        (if spec_codon_complete(first) {
            spec_codon_lines(rec, gene, FeatureType::StartCodon, first)
        } else {
            Seq::<GffLine>::empty()
        }) + (if spec_codon_complete(last) {
            spec_codon_lines(rec, gene, FeatureType::StopCodon, last)
        } else {
            Seq::<GffLine>::empty()
        })
    } else {
        (if spec_codon_complete(last) {
            spec_codon_lines(rec, gene, FeatureType::StartCodon, last)
        } else {
            Seq::<GffLine>::empty()
        }) + (if spec_codon_complete(first) {
            spec_codon_lines(rec, gene, FeatureType::StopCodon, first)
        } else {
            Seq::<GffLine>::empty()
        })
    }
}

/// Everything `to_gtf` emits for one record: an optional gene summary
/// line, the transcript line, each exon's block, then the codon lines.
pub open spec fn spec_to_gtf_lines(rec: BedRecord, gene: String, gene_line: bool) -> Seq<GffLine> {
    (if gene_line {
        seq![spec_gene_line(rec, gene)]
    } else {
        Seq::<GffLine>::empty()
    })
    + seq![spec_gff_line(rec, gene, FeatureType::Transcript, rec.tx_start as int,
        rec.tx_end as int, -1, -1)]
    + spec_exon_blocks(rec, gene, rec.exon_count_spec(), spec_cds_start_adj(rec),
        spec_cds_end_adj(rec))
    + spec_strand_codon_lines(rec, gene)
}

/// Write the exon line of each exon, followed by its UTR/CDS partition
/// when the adjusted coding span `[cds_start_adj, cds_end_adj)` is
/// non-empty.
#[verifier::loop_isolation(false)]
#[verifier::rlimit(100)]
fn write_exon_blocks(
    record: &BedRecord,
    gene: &String,
    cds_start_adj: u32,
    cds_end_adj: u32,
    result: &mut Vec<GffLine>,
) -> (r: ())
    requires
        record.wf(),
        cds_start_adj <= crate::record::MAX_COORD,
        record.cds_end <= crate::record::MAX_COORD,
    ensures
        final(result)@ == old(result)@ + spec_exon_blocks(*record, *gene,
            record.exon_count_spec(), cds_start_adj as int, cds_end_adj as int),
{
    let ghost grec = *record;
    let ghost head = result@;
    proof {
        // The exon table is shorter than the transcript span, so exon
        // indices fit the ordinal argument below.
        crate::translate::lemma_offset_mono(grec, 0, grec.exon_count_spec());
        crate::translate::lemma_offset_bound(grec, grec.exon_count_spec());
    }
    let n = record.exon_starts.len();
    let mut i: usize = 0;
    while i < n
        invariant
            i <= n,
            result@ == head + spec_exon_blocks(grec, *gene, i as int, cds_start_adj as int,
                cds_end_adj as int),
        decreases n - i,
    {
        proof {
            crate::translate::lemma_exon_bounds(grec, i as int);
        }
        build_gff_line(record, gene, FeatureType::Exon, record.exon_starts[i],
            record.exon_ends[i], -1, i as i64, result);
        if cds_start_adj < cds_end_adj {
            write_features(i, record, gene, record.cds_start, cds_start_adj, cds_end_adj,
                record.cds_end, record.exon_frames[i] as i64, result);
        }
        proof {
            assert(result@ =~= head + spec_exon_blocks(grec, *gene, i as int + 1,
                cds_start_adj as int, cds_end_adj as int));
        }
        i = i + 1;
    }
}

/// Write the codon features, with the strand-dependent swap of start
/// and stop roles.
#[verifier::rlimit(100)]
fn write_strand_codons(
    record: &BedRecord,
    gene: &String,
    first: &crate::codon::Codon,
    last: &crate::codon::Codon,
    result: &mut Vec<GffLine>,
) -> (r: ())
    requires
        record.wf(),
        *first == spec_first_codon(*record),
        *last == spec_last_codon(*record),
        first.wf(),
        last.wf(),
    ensures
        final(result)@ == old(result)@ + spec_strand_codon_lines(*record, *gene),
{
    let ghost grec = *record;
    let ghost head = result@;
    proof {
        lemma_complete_codon_anchors(grec);
    }
    match record.strand {
        Strand::Plus => {
            if codon_complete(first) {
                write_codon(record, gene, FeatureType::StartCodon, first, result);
            }
            if codon_complete(last) {
                write_codon(record, gene, FeatureType::StopCodon, last, result);
            }
        },
        Strand::Minus => {
            if codon_complete(last) {
                write_codon(record, gene, FeatureType::StartCodon, last, result);
            }
            if codon_complete(first) {
                write_codon(record, gene, FeatureType::StopCodon, first, result);
            }
        },
    }
    proof {
        assert(result@ =~= head + spec_strand_codon_lines(grec, *gene));
    }
}

/// Convert one record to its annotation lines.
///
/// Succeeds exactly when the strand-dependent stop-codon adjustment of
/// the coding span is possible; a failed adjustment reports the
/// translator's error and emits nothing.
#[verifier::loop_isolation(false)]
#[verifier::rlimit(100)]
pub fn to_gtf(
    record: &BedRecord,
    gene: &String,
    gene_line: bool,
    result: &mut Vec<GffLine>,
) -> (r: Result<(), MoveError>)
    requires
        record.wf(),
    ensures
        r is Ok <==> cds_start_adjust_ok(*record) && cds_end_adjust_ok(*record),
        r is Ok ==> final(result)@ == old(result)@ + spec_to_gtf_lines(*record, *gene, gene_line),
        r is Err ==> final(result)@ == old(result)@,
        !cds_end_adjust_ok(*record) ==> r == Err::<(), MoveError>(
            spec_move_err(*record, record.cds_end, -3i32)),
        cds_end_adjust_ok(*record) && !cds_start_adjust_ok(*record) ==> r == Err::<(), MoveError>(
            spec_move_err(*record, record.cds_start, 3i32)),
{
    let ghost grec = *record;
    let ghost lines0 = result@;

    let first = find_first_codon(record);
    let last = find_last_codon(record);
    proof {
        lemma_complete_codon_anchors(grec);
    }

    let is_plus = match record.strand {
        Strand::Plus => true,
        Strand::Minus => false,
    };

    let cds_end_adj: u32 = if is_plus && codon_complete(&last) {
        match move_pos(record, last.end, -3) {
            Ok(p) => p,
            Err(e) => {
                return Err(e);
            },
        }
    } else {
        record.cds_end
    };

    let cds_start_adj: u32 = if !is_plus && codon_complete(&first) {
        match move_pos(record, first.start, 3) {
            Ok(p) => p,
            Err(e) => {
                return Err(e);
            },
        }
    } else {
        record.cds_start
    };
    proof {
        assert(cds_end_adj == spec_cds_end_adj(grec));
        assert(cds_start_adj == spec_cds_start_adj(grec));
    }

    if gene_line {
        build_gene_line(gene, record, result);
    }
    build_gff_line(record, gene, FeatureType::Transcript, record.tx_start, record.tx_end, -1, -1,
        result);

    write_exon_blocks(record, gene, cds_start_adj, cds_end_adj, result);
    write_strand_codons(record, gene, &first, &last, result);

    proof {
        assert(result@ =~= lines0 + spec_to_gtf_lines(grec, *gene, gene_line));
    }
    Ok(())
}

/// A fatal condition for the whole conversion run.
#[derive(Clone, Copy, PartialEq, Eq, Structural, Debug)]
pub enum RunError {
    /// The transcript's name has no gene mapping.
    UnmappedIsoform,
    /// The position translator could not adjust the coding span.
    Move(MoveError),
}

/// Convert one record through the gene-level deduplication step.
///
/// `gene` is the injected isoform-to-gene lookup's answer for the
/// record's name: `None` is fatal for the run and emits nothing.  The
/// gene summary line is emitted only for the first record of its gene.
pub fn convert_record(
    seen: &mut crate::dedup::GeneSet,
    record: &BedRecord,
    gene: Option<&String>,
    result: &mut Vec<GffLine>,
) -> (r: Result<(), RunError>)
    requires
        record.wf(),
    ensures
        gene is None ==> {
            &&& r == Err::<(), RunError>(RunError::UnmappedIsoform)
            &&& final(seen)@ == old(seen)@
            &&& final(result)@ == old(result)@
        },
        gene is Some ==> {
            let g = *gene->Some_0;
            let fresh = !old(seen)@.contains(g@);
            &&& final(seen)@ == old(seen)@.insert(g@)
            &&& (r is Ok <==> cds_start_adjust_ok(*record) && cds_end_adjust_ok(*record))
            &&& (r is Ok ==> final(result)@ == old(result)@ + spec_to_gtf_lines(*record, g, fresh))
            &&& (r is Err ==> final(result)@ == old(result)@)
            &&& (!cds_end_adjust_ok(*record) ==> r == Err::<(), RunError>(
                RunError::Move(spec_move_err(*record, record.cds_end, -3i32))))
            &&& (cds_end_adjust_ok(*record) && !cds_start_adjust_ok(*record)
                ==> r == Err::<(), RunError>(
                    RunError::Move(spec_move_err(*record, record.cds_start, 3i32))))
        },
{
    match gene {
        None => Err(RunError::UnmappedIsoform),
        Some(g) => {
            let fresh = seen.check_and_insert(g);
            match to_gtf(record, g, fresh, result) {
                Ok(u) => Ok(u),
                Err(e) => Err(RunError::Move(e)),
            }
        },
    }
}

} // verus!
