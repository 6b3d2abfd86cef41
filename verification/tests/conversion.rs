use bed2gff::assemble::{convert_record, to_gtf, RunError};
use bed2gff::codon::Codon;
use bed2gff::dedup::GeneSet;
use bed2gff::lines::{
    build_gene_line, build_gff_line, write_codon, write_features, Attr, FeatureType, GffLine,
    Phase,
};
use bed2gff::record::{BedRecord, Strand};

fn rec(
    strand: Strand,
    tx_start: u32,
    tx_end: u32,
    cds_start: u32,
    cds_end: u32,
    exon_starts: Vec<u32>,
    exon_ends: Vec<u32>,
    exon_frames: Vec<i32>,
) -> BedRecord {
    BedRecord::new(
        "chr1".to_string(),
        "tx1".to_string(),
        strand,
        tx_start,
        tx_end,
        cds_start,
        cds_end,
        exon_starts,
        exon_ends,
        exon_frames,
    )
    .unwrap()
}

fn feats(lines: &[GffLine]) -> Vec<FeatureType> {
    lines.iter().map(|l| l.feature).collect()
}

fn ordinal(line: &GffLine) -> Option<usize> {
    match &line.attr {
        Attr::Numbered { exon_number, .. } => Some(*exon_number),
        _ => None,
    }
}

#[test]
fn phase_encoding() {
    let r = rec(Strand::Plus, 10, 20, 10, 10, vec![10], vec![20], vec![-1]);
    let g = "G".to_string();
    let mut v: Vec<GffLine> = Vec::new();
    build_gff_line(&r, &g, FeatureType::Exon, 10, 20, 0, 0, &mut v);
    build_gff_line(&r, &g, FeatureType::Exon, 10, 20, 1, 0, &mut v);
    build_gff_line(&r, &g, FeatureType::Exon, 10, 20, 2, 0, &mut v);
    build_gff_line(&r, &g, FeatureType::Exon, 10, 20, -1, 0, &mut v);
    assert_eq!(v[0].phase, Phase::Zero);
    assert_eq!(v[1].phase, Phase::Two);
    assert_eq!(v[2].phase, Phase::One);
    assert_eq!(v[3].phase, Phase::Dot);
    // 1-based inclusive output coordinates.
    assert_eq!((v[0].start, v[0].end), (11, 20));
}

#[test]
fn exon_numbers_follow_strand() {
    let plus = rec(
        Strand::Plus,
        10,
        60,
        10,
        10,
        vec![10, 30, 50],
        vec![20, 40, 60],
        vec![-1, -1, -1],
    );
    let minus = BedRecord::new(
        "chr1".to_string(),
        "tx1".to_string(),
        Strand::Minus,
        10,
        60,
        10,
        10,
        vec![10, 30, 50],
        vec![20, 40, 60],
        vec![-1, -1, -1],
    )
    .unwrap();
    let g = "G".to_string();
    let mut v: Vec<GffLine> = Vec::new();
    build_gff_line(&plus, &g, FeatureType::Exon, 30, 40, -1, 1, &mut v);
    build_gff_line(&minus, &g, FeatureType::Exon, 30, 40, -1, 1, &mut v);
    assert_eq!(ordinal(&v[0]), Some(2));
    assert_eq!(ordinal(&v[1]), Some(2)); // exon_count - index = 3 - 1
    build_gff_line(&minus, &g, FeatureType::Exon, 10, 20, -1, 0, &mut v);
    assert_eq!(ordinal(&v[2]), Some(3));
}

#[test]
fn gene_line_fields() {
    let r = rec(Strand::Plus, 10, 20, 10, 10, vec![10], vec![20], vec![-1]);
    let g = "G".to_string();
    let mut v: Vec<GffLine> = Vec::new();
    build_gene_line(&g, &r, &mut v);
    assert_eq!(v.len(), 1);
    assert_eq!(v[0].feature, FeatureType::Gene);
    assert_eq!((v[0].start, v[0].end), (11, 20));
    assert_eq!(v[0].phase, Phase::Dot);
    assert_eq!(v[0].attr, Attr::Gene { gene: "G".to_string() });
}

#[test]
fn features_of_one_exon() {
    // One exon straddling both coding boundaries: UTR, CDS, UTR.
    let r = rec(Strand::Plus, 10, 90, 30, 60, vec![10], vec![90], vec![0]);
    let g = "G".to_string();
    let mut v: Vec<GffLine> = Vec::new();
    write_features(0, &r, &g, 30, 30, 60, 60, 0, &mut v);
    assert_eq!(
        feats(&v),
        vec![FeatureType::FivePrimeUtr, FeatureType::Cds, FeatureType::ThreePrimeUtr]
    );
    assert_eq!((v[0].start, v[0].end), (11, 30));
    assert_eq!((v[1].start, v[1].end), (31, 60));
    assert_eq!((v[2].start, v[2].end), (61, 90));
    // UTR lines carry no exon ordinal.
    assert_eq!(ordinal(&v[0]), None);
    assert_eq!(ordinal(&v[1]), Some(1));
}

#[test]
fn utr_types_swap_on_minus_strand() {
    let r = rec(Strand::Minus, 10, 90, 30, 60, vec![10], vec![90], vec![0]);
    let g = "G".to_string();
    let mut v: Vec<GffLine> = Vec::new();
    write_features(0, &r, &g, 30, 30, 60, 60, 0, &mut v);
    assert_eq!(
        feats(&v),
        vec![FeatureType::ThreePrimeUtr, FeatureType::Cds, FeatureType::FivePrimeUtr]
    );
}

#[test]
fn split_codon_emits_two_lines() {
    let r = rec(Strand::Plus, 10, 90, 30, 60, vec![10], vec![90], vec![0]);
    let g = "G".to_string();
    let codon = Codon { start: 30, end: 32, start2: 40, end2: 41, index: 0 };
    let mut v: Vec<GffLine> = Vec::new();
    write_codon(&r, &g, FeatureType::StartCodon, &codon, &mut v);
    assert_eq!(v.len(), 2);
    assert_eq!(v[0].feature, FeatureType::StartCodon);
    assert_eq!(v[1].feature, FeatureType::StartCodon);
    assert_eq!((v[0].start, v[0].end), (31, 32));
    assert_eq!((v[1].start, v[1].end), (41, 41));
    // The second sub-interval shares the first's ordinal, and neither
    // carries the secondary span as a phase.
    assert_eq!(ordinal(&v[0]), ordinal(&v[1]));
    assert_eq!(v[1].phase, Phase::Zero);
}

#[test]
fn fully_coding_plus_transcript() {
    // Single-exon, fully coding, length 9, plus strand.
    let r = rec(Strand::Plus, 100, 109, 100, 109, vec![100], vec![109], vec![0]);
    let g = "G".to_string();
    let mut v: Vec<GffLine> = Vec::new();
    to_gtf(&r, &g, false, &mut v).unwrap();
    assert_eq!(
        feats(&v),
        vec![
            FeatureType::Transcript,
            FeatureType::Exon,
            FeatureType::Cds,
            FeatureType::StartCodon,
            FeatureType::StopCodon,
        ]
    );
    assert_eq!((v[0].start, v[0].end), (101, 109));
    assert_eq!((v[1].start, v[1].end), (101, 109));
    // The stop codon is excluded from the CDS span.
    assert_eq!((v[2].start, v[2].end), (101, 106));
    assert_eq!(v[2].phase, Phase::Zero);
    assert_eq!((v[3].start, v[3].end), (101, 103));
    assert_eq!((v[4].start, v[4].end), (107, 109));
}

#[test]
fn fully_coding_minus_transcript_swaps_codons() {
    // Identical geometry on the minus strand: codon roles swap, with
    // the start codon at the high-coordinate end.
    let r = rec(Strand::Minus, 100, 109, 100, 109, vec![100], vec![109], vec![0]);
    let g = "G".to_string();
    let mut v: Vec<GffLine> = Vec::new();
    to_gtf(&r, &g, false, &mut v).unwrap();
    assert_eq!(
        feats(&v),
        vec![
            FeatureType::Transcript,
            FeatureType::Exon,
            FeatureType::Cds,
            FeatureType::StartCodon,
            FeatureType::StopCodon,
        ]
    );
    // The (genomically first) stop codon is excluded from the CDS span.
    assert_eq!((v[2].start, v[2].end), (104, 109));
    assert_eq!((v[3].start, v[3].end), (107, 109));
    assert_eq!((v[4].start, v[4].end), (101, 103));
}

#[test]
fn non_coding_transcript_has_no_cds_or_codons() {
    let r = rec(
        Strand::Plus,
        100,
        140,
        100,
        100,
        vec![100, 130],
        vec![120, 140],
        vec![-1, -1],
    );
    let g = "G".to_string();
    let mut v: Vec<GffLine> = Vec::new();
    to_gtf(&r, &g, false, &mut v).unwrap();
    assert_eq!(feats(&v), vec![FeatureType::Transcript, FeatureType::Exon, FeatureType::Exon]);
}

#[test]
fn transcript_precedes_children_and_ordinals_descend_on_minus() {
    let r = BedRecord::new(
        "chr1".to_string(),
        "tx1".to_string(),
        Strand::Minus,
        10,
        60,
        10,
        10,
        vec![10, 30, 50],
        vec![20, 40, 60],
        vec![-1, -1, -1],
    )
    .unwrap();
    let g = "G".to_string();
    let mut v: Vec<GffLine> = Vec::new();
    to_gtf(&r, &g, true, &mut v).unwrap();
    assert_eq!(v[0].feature, FeatureType::Gene);
    assert_eq!(v[1].feature, FeatureType::Transcript);
    let nums: Vec<usize> = v
        .iter()
        .filter(|l| l.feature == FeatureType::Exon)
        .map(|l| ordinal(l).unwrap())
        .collect();
    // Genomic order ascending, 5'-to-3' ordinals descending on minus.
    assert_eq!(nums, vec![3, 2, 1]);
}

#[test]
fn gene_line_emitted_once_per_gene() {
    let r1 = rec(Strand::Plus, 100, 109, 100, 109, vec![100], vec![109], vec![0]);
    let r2 = BedRecord::new(
        "chr1".to_string(),
        "tx2".to_string(),
        Strand::Plus,
        200,
        209,
        200,
        200,
        vec![200],
        vec![209],
        vec![-1],
    )
    .unwrap();
    let g = "G".to_string();
    let mut seen = GeneSet::new();
    let mut out1: Vec<GffLine> = Vec::new();
    let mut out2: Vec<GffLine> = Vec::new();
    convert_record(&mut seen, &r1, Some(&g), &mut out1).unwrap();
    convert_record(&mut seen, &r2, Some(&g), &mut out2).unwrap();
    let genes1 = out1.iter().filter(|l| l.feature == FeatureType::Gene).count();
    let genes2 = out2.iter().filter(|l| l.feature == FeatureType::Gene).count();
    assert_eq!(genes1, 1);
    assert_eq!(genes2, 0);
    // The one gene line belongs to the transcript processed first.
    assert_eq!(out1[0].feature, FeatureType::Gene);
    assert_eq!((out1[0].start, out1[0].end), (101, 109));
}

#[test]
fn unmapped_isoform_is_fatal_and_emits_nothing() {
    let r = rec(Strand::Plus, 100, 109, 100, 109, vec![100], vec![109], vec![0]);
    let mut seen = GeneSet::new();
    let mut out: Vec<GffLine> = Vec::new();
    let res = convert_record(&mut seen, &r, None, &mut out);
    assert_eq!(res, Err(RunError::UnmappedIsoform));
    assert!(out.is_empty());
}

#[test]
fn coding_span_end_outside_exons_is_fatal() {
    // A complete stop codon whose end lies past the last exon: the
    // coding-span adjustment fails, aborting the record's conversion
    // with nothing emitted.
    let r = BedRecord::new(
        "chr1".to_string(),
        "tx1".to_string(),
        Strand::Plus,
        10,
        45,
        12,
        43,
        vec![10, 30],
        vec![20, 40],
        vec![0, 2],
    )
    .unwrap();
    let mut seen = GeneSet::new();
    let g = "G".to_string();
    let mut out: Vec<GffLine> = Vec::new();
    let res = convert_record(&mut seen, &r, Some(&g), &mut out);
    assert_eq!(
        res,
        Err(RunError::Move(
            bed2gff::translate::MoveError::PositionNotInExons { pos: 43 }
        ))
    );
    assert!(out.is_empty());
}

#[test]
fn gene_dedup_set_tracks_distinct_genes() {
    let mut seen = GeneSet::new();
    let a = "A".to_string();
    let b = "B".to_string();
    assert!(!seen.contains(&a));
    assert!(seen.check_and_insert(&a));
    assert!(seen.contains(&a));
    assert!(!seen.check_and_insert(&a));
    assert!(seen.check_and_insert(&b));
    assert!(seen.contains(&b));
}
