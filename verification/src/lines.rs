//! The feature partitioner and line builders: one exon's UTR/CDS
//! sub-intervals, codon lines, and the structured output record each
//! feature becomes.

use vstd::prelude::*;

use crate::codon::Codon;
use crate::record::{BedRecord, Strand, MAX_COORD};

verus! {

/// The typed features an annotation line can carry.
#[derive(Clone, Copy, PartialEq, Eq, Structural, Debug)]
pub enum FeatureType {
    Gene,
    Transcript,
    Exon,
    Cds,
    FivePrimeUtr,
    ThreePrimeUtr,
    StartCodon,
    StopCodon,
}

/// Output phase column: frame `0` prints as `0`, frame `1` as `2`, any
/// other non-negative frame as `1`, and a negative frame as `.`.
#[derive(Clone, Copy, PartialEq, Eq, Structural, Debug)]
pub enum Phase {
    Zero,
    One,
    Two,
    Dot,
}

/// Attribute column of a line: which identifiers it links, and the exon
/// ordinal where the feature carries one.  UTR lines carry no ordinal.
#[derive(Clone, PartialEq, Eq, Debug)]
pub enum Attr {
    Gene { gene: String },
    Transcript { name: String, gene: String },
    Numbered { name: String, gene: String, exon_number: usize },
    Unnumbered { name: String, gene: String },
}

/// One output record: a typed feature with 1-based inclusive
/// coordinates, ready to be rendered as a tab-separated line.
#[derive(Clone, PartialEq, Eq, Debug)]
pub struct GffLine {
    pub chrom: String,
    pub feature: FeatureType,
    pub start: u32,
    pub end: u32,
    pub strand: Strand,
    pub phase: Phase,
    pub attr: Attr,
}

pub open spec fn phase_of(frame: int) -> Phase {
    if frame < 0 {
        Phase::Dot
    } else if frame == 0 {
        Phase::Zero
    } else if frame == 1 {
        Phase::Two
    } else {
        Phase::One
    }
}

/// Exon ordinal counted 5' to 3': ascending on the `+` strand,
/// `exon_count - exon` on the `-` strand.
pub open spec fn spec_exon_number(rec: BedRecord, exon: int) -> int {
    if rec.strand == Strand::Plus {
        exon + 1
    } else {
        rec.exon_count_spec() - exon
    }
}

pub open spec fn spec_attr(rec: BedRecord, gene: String, feature: FeatureType, exon: int) -> Attr {
    if feature == FeatureType::Transcript {
        Attr::Transcript { name: rec.name, gene }
    } else if exon >= 0 {
        Attr::Numbered { name: rec.name, gene, exon_number: spec_exon_number(rec, exon) as usize }
    } else {
        Attr::Unnumbered { name: rec.name, gene }
    }
}

/// The line `build_gff_line` appends for the given feature and span.
pub open spec fn spec_gff_line(
    rec: BedRecord,
    gene: String,
    feature: FeatureType,
    start0: int,
    end: int,
    frame: int,
    exon: int,
) -> GffLine {
    GffLine {
        chrom: rec.chrom,
        feature,
        start: (start0 + 1) as u32,
        end: end as u32,
        strand: rec.strand,
        phase: phase_of(frame),
        attr: spec_attr(rec, gene, feature, exon),
    }
}

/// The `gene` summary line for the record's transcript span.
pub open spec fn spec_gene_line(rec: BedRecord, gene: String) -> GffLine {
    GffLine {
        chrom: rec.chrom,
        feature: FeatureType::Gene,
        start: (rec.tx_start + 1) as u32,
        end: rec.tx_end,
        strand: rec.strand,
        phase: Phase::Dot,
        attr: Attr::Gene { gene },
    }
}

/// Append one annotation line for a feature of the record, converting
/// the half-open genomic span to 1-based inclusive coordinates and the
/// frame hint to an output phase.
pub fn build_gff_line(
    record: &BedRecord,
    gene: &String,
    feature: FeatureType,
    exon_start: u32,
    exon_end: u32,
    frame: i64,
    exon: i64,
    result: &mut Vec<GffLine>,
) -> (r: ())
    requires
        record.wf(),
        feature != FeatureType::Gene,
        -1 <= exon < record.exon_count_spec(),
        exon_start <= MAX_COORD + 3,
    ensures
        final(result)@ == old(result)@.push(
            spec_gff_line(*record, *gene, feature, exon_start as int, exon_end as int,
                frame as int, exon as int)),
{
    proof {
        // The exon table is shorter than the transcript span, so exon
        // ordinals fit every machine integer in use here.
        crate::translate::lemma_offset_mono(*record, 0, record.exon_count_spec());
        crate::translate::lemma_offset_bound(*record, record.exon_count_spec());
    }
    let phase = if frame < 0 {
        Phase::Dot
    } else if frame == 0 {
        Phase::Zero
    } else if frame == 1 {
        Phase::Two
    } else {
        Phase::One
    };

    let attr = if feature == FeatureType::Transcript {
        Attr::Transcript { name: record.name.clone(), gene: gene.clone() }
    } else if exon >= 0 {
        let exon_number: usize = match record.strand {
            Strand::Plus => (exon + 1) as usize,
            Strand::Minus => record.exon_starts.len() - (exon as usize),
        };
        Attr::Numbered { name: record.name.clone(), gene: gene.clone(), exon_number }
    } else {
        Attr::Unnumbered { name: record.name.clone(), gene: gene.clone() }
    };

    result.push(GffLine {
        chrom: record.chrom.clone(),
        feature,
        start: exon_start + 1,
        end: exon_end,
        strand: record.strand,
        phase,
        attr,
    });
}

/// Append the `gene` summary line for a group of transcripts.
pub fn build_gene_line(gene: &String, record: &BedRecord, result: &mut Vec<GffLine>) -> (r: ())
    requires
        record.wf(),
    ensures
        final(result)@ == old(result)@.push(spec_gene_line(*record, *gene)),
{
    result.push(GffLine {
        chrom: record.chrom.clone(),
        feature: FeatureType::Gene,
        start: record.tx_start + 1,
        end: record.tx_end,
        strand: record.strand,
        phase: Phase::Dot,
        attr: Attr::Gene { gene: gene.clone() },
    });
}

/// UTR type on the 5'-most side of the exon table: five-prime on the `+`
/// strand, three-prime on the `-` strand.
pub open spec fn utr_head_type(rec: BedRecord) -> FeatureType {
    if rec.strand == Strand::Plus {
        FeatureType::FivePrimeUtr
    } else {
        FeatureType::ThreePrimeUtr
    }
}

/// UTR type on the 3'-most side of the exon table: the opposite of
/// `utr_head_type`.
pub open spec fn utr_tail_type(rec: BedRecord) -> FeatureType {
    if rec.strand == Strand::Plus {
        FeatureType::ThreePrimeUtr
    } else {
        FeatureType::FivePrimeUtr
    }
}

/// The lines `write_features` appends for exon `i`: a leading UTR
/// segment where the exon starts before `first_utr_end`, a CDS segment
/// where the exon overlaps the record's coding span (clipped to the
/// adjusted `[cds_start, cds_end)`), and a trailing UTR segment where
/// the exon ends after `last_utr_start`.
pub open spec fn spec_exon_features(
    rec: BedRecord,
    gene: String,
    i: int,
    first_utr_end: int,
    cds_start: int,
    cds_end: int,
    last_utr_start: int,
    frame: int,
) -> Seq<GffLine> {
    let es = rec.exon_starts@[i] as int;
    let ee = rec.exon_ends@[i] as int;
    let head = if es < first_utr_end {
        seq![spec_gff_line(rec, gene, utr_head_type(rec), es,
            if ee < first_utr_end { ee } else { first_utr_end }, frame, -1)]
    } else {
        Seq::<GffLine>::empty()
    };
    let mid = if rec.cds_start < ee && es < rec.cds_end {
        seq![spec_gff_line(rec, gene, FeatureType::Cds,
            if es > cds_start { es } else { cds_start },
            if ee < cds_end { ee } else { cds_end }, frame, i)]
    } else {
        Seq::<GffLine>::empty()
    };
    let tail = if ee > last_utr_start {
        seq![spec_gff_line(rec, gene, utr_tail_type(rec),
            if es > last_utr_start { es } else { last_utr_start }, ee, frame, -1)]
    } else {
        Seq::<GffLine>::empty()
    };
    head + mid + tail
}

/// Write the features of exon `i`: its UTR and CDS sub-intervals as
/// implied by the (possibly codon-adjusted) coding span.
pub fn write_features(
    i: usize,
    record: &BedRecord,
    gene: &String,
    first_utr_end: u32,
    cds_start: u32,
    cds_end: u32,
    last_utr_start: u32,
    frame: i64,
    result: &mut Vec<GffLine>,
) -> (r: ())
    requires
        record.wf(),
        i < record.exon_count_spec(),
        cds_start <= MAX_COORD,
        last_utr_start <= MAX_COORD,
    ensures
        final(result)@ == old(result)@ + spec_exon_features(*record, *gene, i as int,
            first_utr_end as int, cds_start as int, cds_end as int,
            last_utr_start as int, frame as int),
{
    let ghost lines0 = result@;
    proof {
        crate::translate::lemma_exon_bounds(*record, i as int);
        crate::translate::lemma_offset_mono(*record, 0, record.exon_count_spec());
        crate::translate::lemma_offset_bound(*record, record.exon_count_spec());
    }
    let exon_start = record.exon_starts[i];
    let exon_end = record.exon_ends[i];

    if exon_start < first_utr_end {
        let end = if exon_end < first_utr_end { exon_end } else { first_utr_end };
        let utr_type = match record.strand {
            Strand::Plus => FeatureType::FivePrimeUtr,
            Strand::Minus => FeatureType::ThreePrimeUtr,
        };
        build_gff_line(record, gene, utr_type, exon_start, end, frame, -1, result);
    }

    if record.cds_start < exon_end && exon_start < record.cds_end {
        let s = if exon_start > cds_start { exon_start } else { cds_start };
        let e = if exon_end < cds_end { exon_end } else { cds_end };
        build_gff_line(record, gene, FeatureType::Cds, s, e, frame, i as i64, result);
    }

    if exon_end > last_utr_start {
        let s = if exon_start > last_utr_start { exon_start } else { last_utr_start };
        let utr_type = match record.strand {
            Strand::Plus => FeatureType::ThreePrimeUtr,
            Strand::Minus => FeatureType::FivePrimeUtr,
        };
        build_gff_line(record, gene, utr_type, s, exon_end, frame, -1, result);
    }

    proof {
        assert(result@ =~= lines0 + spec_exon_features(*record, *gene, i as int,
            first_utr_end as int, cds_start as int, cds_end as int,
            last_utr_start as int, frame as int));
    }
}

/// The lines `write_codon` appends: the codon's primary sub-span, and a
/// second line for the secondary sub-span when the codon is split across
/// an exon boundary.  Both lines share the feature type and the exon
/// ordinal, and carry frame `0`.
pub open spec fn spec_codon_lines(
    rec: BedRecord,
    gene: String,
    feature: FeatureType,
    codon: Codon,
) -> Seq<GffLine> {
    let head = seq![spec_gff_line(rec, gene, feature, codon.start as int, codon.end as int, 0,
        codon.index as int)];
    if codon.start2 < codon.end2 {
        head + seq![spec_gff_line(rec, gene, feature, codon.start2 as int, codon.end2 as int, 0,
            codon.index as int)]
    } else {
        head
    }
}

/// Write the start or stop codon feature, as one line, or two lines
/// sharing one ordinal when the codon is split by an intron.
pub fn write_codon(
    record: &BedRecord,
    gene: &String,
    feature: FeatureType,
    codon: &Codon,
    result: &mut Vec<GffLine>,
) -> (r: ())
    requires
        record.wf(),
        feature == FeatureType::StartCodon || feature == FeatureType::StopCodon,
        0 <= codon.index < record.exon_count_spec(),
        codon.start <= MAX_COORD + 3,
        codon.start2 <= MAX_COORD + 3,
    ensures
        final(result)@ == old(result)@ + spec_codon_lines(*record, *gene, feature, *codon),
{
    let ghost lines0 = result@;
    build_gff_line(record, gene, feature, codon.start, codon.end, 0, codon.index, result);
    if codon.start2 < codon.end2 {
        build_gff_line(record, gene, feature, codon.start2, codon.end2, 0, codon.index, result);
    }
    proof {
        assert(result@ =~= lines0 + spec_codon_lines(*record, *gene, feature, *codon));
    }
}

} // verus!
