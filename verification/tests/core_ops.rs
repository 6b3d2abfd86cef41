use bed2gff::codon::{codon_complete, Codon};
use bed2gff::locate::{find_first_codon, find_last_codon};
use bed2gff::record::{parse_strand, BedRecord, RecordError, Strand};
use bed2gff::translate::{in_exon, move_pos, MoveError};

fn rec(
    strand: Strand,
    tx_start: u32,
    tx_end: u32,
    cds_start: u32,
    cds_end: u32,
    exon_starts: Vec<u32>,
    exon_ends: Vec<u32>,
    exon_frames: Vec<i32>,
) -> BedRecord {
    BedRecord::new(
        "chr1".to_string(),
        "tx1".to_string(),
        strand,
        tx_start,
        tx_end,
        cds_start,
        cds_end,
        exon_starts,
        exon_ends,
        exon_frames,
    )
    .unwrap()
}

#[test]
fn parse_strand_values() {
    assert_eq!(parse_strand('+'), Ok(Strand::Plus));
    assert_eq!(parse_strand('-'), Ok(Strand::Minus));
    assert_eq!(parse_strand('.'), Err(RecordError::InvalidStrand));
}

#[test]
fn record_validation_errors() {
    let bad_span = BedRecord::new(
        "chr1".to_string(),
        "t".to_string(),
        Strand::Plus,
        20,
        10,
        20,
        20,
        vec![20],
        vec![10],
        vec![-1],
    );
    assert_eq!(bad_span.unwrap_err(), RecordError::InvalidTranscriptSpan);

    let bad_cds = BedRecord::new(
        "chr1".to_string(),
        "t".to_string(),
        Strand::Plus,
        10,
        20,
        5,
        20,
        vec![10],
        vec![20],
        vec![0],
    );
    assert_eq!(bad_cds.unwrap_err(), RecordError::InvalidCodingSpan);

    let bad_exons = BedRecord::new(
        "chr1".to_string(),
        "t".to_string(),
        Strand::Plus,
        10,
        40,
        10,
        10,
        vec![30, 10],
        vec![40, 20],
        vec![-1, -1],
    );
    assert_eq!(bad_exons.unwrap_err(), RecordError::InvalidExons);

    let bad_frames = BedRecord::new(
        "chr1".to_string(),
        "t".to_string(),
        Strand::Plus,
        10,
        40,
        10,
        40,
        vec![10],
        vec![40],
        vec![5],
    );
    assert_eq!(bad_frames.unwrap_err(), RecordError::InvalidFrames);

    // A frame hint on an exon that does not overlap the coding span is
    // inconsistent.
    let inconsistent = BedRecord::new(
        "chr1".to_string(),
        "t".to_string(),
        Strand::Plus,
        10,
        40,
        10,
        10,
        vec![10],
        vec![40],
        vec![0],
    );
    assert_eq!(inconsistent.unwrap_err(), RecordError::InvalidFrames);
}

#[test]
fn in_exon_is_boundary_inclusive() {
    let r = rec(Strand::Plus, 10, 40, 10, 10, vec![10, 30], vec![20, 40], vec![-1, -1]);
    assert!(in_exon(&r, 10, 0));
    assert!(in_exon(&r, 20, 0));
    assert!(!in_exon(&r, 21, 0));
    assert!(in_exon(&r, 30, 1));
}

#[test]
fn move_pos_within_exon() {
    let r = rec(Strand::Plus, 10, 20, 10, 10, vec![10], vec![20], vec![-1]);
    assert_eq!(move_pos(&r, 12, 3), Ok(15));
    assert_eq!(move_pos(&r, 15, -3), Ok(12));
    assert_eq!(move_pos(&r, 12, 0), Ok(12));
}

#[test]
fn move_pos_skips_introns() {
    let r = rec(Strand::Plus, 10, 40, 10, 10, vec![10, 30], vec![20, 40], vec![-1, -1]);
    // Forward across the gap: 4 transcribed bases from 18 land at 32.
    assert_eq!(move_pos(&r, 18, 4), Ok(32));
    // And backward again: the inverse pair.
    assert_eq!(move_pos(&r, 32, -4), Ok(18));
}

#[test]
fn move_pos_position_outside_exons() {
    let r = rec(Strand::Plus, 10, 40, 10, 10, vec![10, 30], vec![20, 40], vec![-1, -1]);
    assert_eq!(
        move_pos(&r, 25, 1),
        Err(MoveError::PositionNotInExons { pos: 25 })
    );
}

#[test]
fn move_pos_distance_unsatisfiable() {
    let r = rec(Strand::Plus, 10, 40, 10, 10, vec![10, 30], vec![20, 40], vec![-1, -1]);
    assert_eq!(
        move_pos(&r, 12, 100),
        Err(MoveError::OutOfExons { pos: 12, dist: 100 })
    );
    assert_eq!(
        move_pos(&r, 12, -5),
        Err(MoveError::OutOfExons { pos: 12, dist: -5 })
    );
}

#[test]
fn codon_complete_by_span_sum() {
    // All three bases in one exon.
    let whole = Codon { start: 10, end: 13, start2: 0, end2: 0, index: 0 };
    assert!(codon_complete(&whole));
    // Two bases, then one past the intron.
    let split_2_1 = Codon { start: 10, end: 12, start2: 30, end2: 31, index: 0 };
    assert!(codon_complete(&split_2_1));
    // One base, then two.
    let split_1_2 = Codon { start: 10, end: 11, start2: 30, end2: 32, index: 0 };
    assert!(codon_complete(&split_1_2));
    // Nothing, then all three.
    let split_0_3 = Codon { start: 10, end: 10, start2: 30, end2: 33, index: 0 };
    assert!(codon_complete(&split_0_3));
    // Short of a base.
    let short = Codon { start: 10, end: 12, start2: 0, end2: 0, index: 0 };
    assert!(!codon_complete(&short));
    let empty = Codon::new();
    assert!(!codon_complete(&empty));
}

#[test]
fn first_codon_plus_strand() {
    let r = rec(Strand::Plus, 100, 109, 100, 109, vec![100], vec![109], vec![0]);
    let c = find_first_codon(&r);
    assert_eq!(c.start, 100);
    assert_eq!(c.end, 103);
    assert_eq!(c.index, 0);
    assert!(codon_complete(&c));
}

#[test]
fn last_codon_plus_strand() {
    let r = rec(Strand::Plus, 100, 109, 100, 109, vec![100], vec![109], vec![0]);
    let c = find_last_codon(&r);
    assert_eq!(c.start, 106);
    assert_eq!(c.end, 109);
    assert_eq!(c.index, 0);
    assert!(codon_complete(&c));
}

#[test]
fn first_codon_out_of_frame_is_empty() {
    let r = rec(Strand::Plus, 100, 109, 100, 109, vec![100], vec![109], vec![1]);
    let c = find_first_codon(&r);
    assert_eq!(c.index, -1);
    assert!(!codon_complete(&c));
}

#[test]
fn first_codon_minus_strand_uses_overlap_phase() {
    // Nine coding bases: frame 0 plus overlap 9 is still in frame.
    let r = rec(Strand::Minus, 100, 109, 100, 109, vec![100], vec![109], vec![0]);
    let c = find_first_codon(&r);
    assert!(codon_complete(&c));
    // An overlap of ten is out of frame on the minus strand.
    let r2 = rec(Strand::Minus, 100, 110, 100, 110, vec![100], vec![110], vec![0]);
    let c2 = find_first_codon(&r2);
    assert!(!codon_complete(&c2));
}

#[test]
fn first_codon_non_coding_is_empty() {
    let r = rec(Strand::Plus, 100, 140, 100, 100, vec![100, 130], vec![120, 140], vec![-1, -1]);
    let c = find_first_codon(&r);
    assert_eq!(c.index, -1);
    assert!(!codon_complete(&c));
    let d = find_last_codon(&r);
    assert_eq!(d.index, -1);
    assert!(!codon_complete(&d));
}

#[test]
fn first_codon_split_over_short_coding_span() {
    // Two coding bases in the first exon: the codon is completed with
    // one more base recorded in the secondary sub-span.
    let r = rec(
        Strand::Plus,
        100,
        120,
        100,
        102,
        vec![100, 110],
        vec![102, 120],
        vec![0, -1],
    );
    let c = find_first_codon(&r);
    assert_eq!((c.start, c.end), (100, 102));
    assert_eq!((c.start2, c.end2), (100, 101));
    assert!(codon_complete(&c));
}

#[test]
fn last_codon_short_tail_is_incomplete() {
    // Two coding bases at the end of the last exon cannot be continued:
    // there is no further exon.
    let r = rec(
        Strand::Minus,
        100,
        120,
        118,
        120,
        vec![100, 110],
        vec![102, 120],
        vec![-1, 0],
    );
    let c = find_last_codon(&r);
    assert_eq!((c.start, c.end), (118, 120));
    assert_eq!((c.start2, c.end2), (0, 0));
    assert!(!codon_complete(&c));
}
