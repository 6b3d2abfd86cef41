//! Laws of the assembled output that relate several operations: how
//! often the gene summary line appears, and how a transcript's lines
//! are ordered.

use vstd::prelude::*;

use crate::assemble::{
    spec_cds_end_adj, spec_cds_start_adj, spec_exon_block, spec_exon_blocks,
    spec_strand_codon_lines, spec_to_gtf_lines,
};
use crate::lines::{spec_exon_features, spec_exon_number, Attr, FeatureType, GffLine};
use crate::record::{BedRecord, Strand};

verus! {

/// Number of gene summary lines in a sequence.
pub open spec fn gene_line_count(lines: Seq<GffLine>) -> int
    decreases lines.len(),
{
    if lines.len() == 0 {
        0
    } else {
        gene_line_count(lines.drop_last())
            + if lines.last().feature == FeatureType::Gene { 1int } else { 0int }
    }
}

proof fn lemma_count_concat(a: Seq<GffLine>, b: Seq<GffLine>)
    ensures
        gene_line_count(a + b) == gene_line_count(a) + gene_line_count(b),
    decreases b.len(),
{
    if b.len() == 0 {
        assert(a + b =~= a);
    } else {
        lemma_count_concat(a, b.drop_last());
        assert((a + b).drop_last() =~= a + b.drop_last());
    }
}

proof fn lemma_count_singleton(x: GffLine)
    ensures
        gene_line_count(seq![x]) == if x.feature == FeatureType::Gene { 1int } else { 0int },
{
    assert(seq![x].drop_last() =~= Seq::<GffLine>::empty());
    assert(gene_line_count(Seq::<GffLine>::empty()) == 0);
    assert(seq![x].last() == x);
}

proof fn lemma_count_zero(s: Seq<GffLine>)
    requires
        forall|j: int| 0 <= j < s.len() ==> (#[trigger] s[j]).feature != FeatureType::Gene,
    ensures
        gene_line_count(s) == 0,
    decreases s.len(),
{
    if s.len() > 0 {
        lemma_count_zero(s.drop_last());
    }
}

proof fn lemma_blocks_no_gene(rec: BedRecord, gene: String, k: int, cs: int, ce: int)
    ensures
        forall|j: int| 0 <= j < spec_exon_blocks(rec, gene, k, cs, ce).len()
            ==> (#[trigger] spec_exon_blocks(rec, gene, k, cs, ce)[j]).feature
                != FeatureType::Gene,
    decreases k,
{
    if k > 0 {
        lemma_blocks_no_gene(rec, gene, k - 1, cs, ce);
        let blocks = spec_exon_blocks(rec, gene, k, cs, ce);
        let prev = spec_exon_blocks(rec, gene, k - 1, cs, ce);
        let blk = spec_exon_block(rec, gene, k - 1, cs, ce);
        assert forall|j: int| 0 <= j < blocks.len()
            implies (#[trigger] blocks[j]).feature != FeatureType::Gene by {
            if j < prev.len() {
                assert(blocks[j] == prev[j]);
            } else {
                assert(blocks[j] == blk[j - prev.len()]);
            }
        };
    }
}

proof fn lemma_codons_no_gene(rec: BedRecord, gene: String)
    ensures
        forall|j: int| 0 <= j < spec_strand_codon_lines(rec, gene).len()
            ==> (#[trigger] spec_strand_codon_lines(rec, gene)[j]).feature != FeatureType::Gene,
{
}

/// The gene summary line is emitted once with the flag set, and never
/// without it.
pub proof fn lemma_to_gtf_gene_count(rec: BedRecord, gene: String, gene_line: bool)
    ensures
        gene_line_count(spec_to_gtf_lines(rec, gene, gene_line))
            == if gene_line { 1int } else { 0int },
{
    let head = if gene_line {
        seq![crate::lines::spec_gene_line(rec, gene)]
    } else {
        Seq::<GffLine>::empty()
    };
    let tline = seq![crate::lines::spec_gff_line(rec, gene, FeatureType::Transcript,
        rec.tx_start as int, rec.tx_end as int, -1, -1)];
    let blocks = spec_exon_blocks(rec, gene, rec.exon_count_spec(), spec_cds_start_adj(rec),
        spec_cds_end_adj(rec));
    let codons = spec_strand_codon_lines(rec, gene);
    lemma_count_concat(head + tline + blocks, codons);
    lemma_count_concat(head + tline, blocks);
    lemma_count_concat(head, tline);
    lemma_blocks_no_gene(rec, gene, rec.exon_count_spec(), spec_cds_start_adj(rec),
        spec_cds_end_adj(rec));
    lemma_count_zero(blocks);
    lemma_codons_no_gene(rec, gene);
    lemma_count_zero(codons);
    lemma_count_singleton(crate::lines::spec_gff_line(rec, gene, FeatureType::Transcript,
        rec.tx_start as int, rec.tx_end as int, -1, -1));
    if gene_line {
        lemma_count_singleton(crate::lines::spec_gene_line(rec, gene));
        assert(gene_line_count(head) == 1);
    } else {
        assert(gene_line_count(head) == 0);
    }
}

/// Two transcripts of the same gene emit exactly one gene summary line
/// between them: the first one through the deduplication step carries
/// it, the second does not, whatever the records' geometry.
pub proof fn lemma_gene_line_once(rec1: BedRecord, rec2: BedRecord, gene: String,
    seen0: Set<Seq<char>>)
    requires
        !seen0.contains(gene@),
    ensures
        ({
            let fresh1 = !seen0.contains(gene@);
            let seen1 = seen0.insert(gene@);
            let fresh2 = !seen1.contains(gene@);
            gene_line_count(spec_to_gtf_lines(rec1, gene, fresh1)) == 1
                && gene_line_count(spec_to_gtf_lines(rec2, gene, fresh2)) == 0
        }),
{
    lemma_to_gtf_gene_count(rec1, gene, true);
    lemma_to_gtf_gene_count(rec2, gene, false);
}

/// The features an annotation line may carry below its transcript line.
pub open spec fn is_child_feature(f: FeatureType) -> bool {
    ||| f == FeatureType::Exon
    ||| f == FeatureType::Cds
    ||| f == FeatureType::FivePrimeUtr
    ||| f == FeatureType::ThreePrimeUtr
    ||| f == FeatureType::StartCodon
    ||| f == FeatureType::StopCodon
}

/// A transcript's line precedes all of its children: the output starts
/// with the optional gene summary line, then the transcript line, and
/// every later line is an exon, CDS, UTR or codon feature.
pub proof fn lemma_transcript_before_children(rec: BedRecord, gene: String, gene_line: bool)
    ensures
        ({
            let lines = spec_to_gtf_lines(rec, gene, gene_line);
            let t: int = if gene_line { 1int } else { 0int };
            &&& t < lines.len()
            &&& lines[t].feature == FeatureType::Transcript
            &&& forall|j: int| 0 <= j < t ==> (#[trigger] lines[j]).feature == FeatureType::Gene
            &&& forall|j: int| t < j < lines.len()
                ==> is_child_feature((#[trigger] lines[j]).feature)
        }),
{
    let head = if gene_line {
        seq![crate::lines::spec_gene_line(rec, gene)]
    } else {
        Seq::<GffLine>::empty()
    };
    let tline = seq![crate::lines::spec_gff_line(rec, gene, FeatureType::Transcript,
        rec.tx_start as int, rec.tx_end as int, -1, -1)];
    let blocks = spec_exon_blocks(rec, gene, rec.exon_count_spec(), spec_cds_start_adj(rec),
        spec_cds_end_adj(rec));
    let codons = spec_strand_codon_lines(rec, gene);
    let lines = spec_to_gtf_lines(rec, gene, gene_line);
    let t: int = if gene_line { 1int } else { 0int };
    lemma_blocks_children(rec, gene, rec.exon_count_spec(), spec_cds_start_adj(rec),
        spec_cds_end_adj(rec));
    assert(lines =~= head + tline + blocks + codons);
    assert forall|j: int| t < j < lines.len()
        implies is_child_feature((#[trigger] lines[j]).feature) by {
        if j - t - 1 < blocks.len() {
            assert(lines[j] == blocks[j - t - 1]);
        } else {
            assert(lines[j] == codons[j - t - 1 - blocks.len()]);
        }
    };
}

proof fn lemma_blocks_children(rec: BedRecord, gene: String, k: int, cs: int, ce: int)
    ensures
        forall|j: int| 0 <= j < spec_exon_blocks(rec, gene, k, cs, ce).len()
            ==> is_child_feature((#[trigger] spec_exon_blocks(rec, gene, k, cs, ce)[j]).feature),
    decreases k,
{
    if k > 0 {
        lemma_blocks_children(rec, gene, k - 1, cs, ce);
        let blocks = spec_exon_blocks(rec, gene, k, cs, ce);
        let prev = spec_exon_blocks(rec, gene, k - 1, cs, ce);
        let blk = spec_exon_block(rec, gene, k - 1, cs, ce);
        assert forall|j: int| 0 <= j < blocks.len()
            implies is_child_feature((#[trigger] blocks[j]).feature) by {
            if j < prev.len() {
                assert(blocks[j] == prev[j]);
            } else {
                assert(blocks[j] == blk[j - prev.len()]);
            }
        };
    }
}

/// The exon ordinal an annotation line carries; `0` where it has none.
pub open spec fn ordinal_of(line: GffLine) -> int {
    match line.attr {
        Attr::Numbered { exon_number, .. } => exon_number as int,
        _ => 0,
    }
}

/// The ordinals of the exon-typed lines of a sequence, in output order.
pub open spec fn exon_ordinals(lines: Seq<GffLine>) -> Seq<int>
    decreases lines.len(),
{
    if lines.len() == 0 {
        Seq::<int>::empty()
    } else {
        exon_ordinals(lines.drop_last())
            + if lines.last().feature == FeatureType::Exon {
                seq![ordinal_of(lines.last())]
            } else {
                Seq::<int>::empty()
            }
    }
}

proof fn lemma_ordinals_concat(a: Seq<GffLine>, b: Seq<GffLine>)
    ensures
        exon_ordinals(a + b) == exon_ordinals(a) + exon_ordinals(b),
    decreases b.len(),
{
    if b.len() == 0 {
        assert(a + b =~= a);
        assert(exon_ordinals(a) + exon_ordinals(b) =~= exon_ordinals(a));
    } else {
        lemma_ordinals_concat(a, b.drop_last());
        assert((a + b).drop_last() =~= a + b.drop_last());
        if (a + b).last().feature == FeatureType::Exon {
            assert(exon_ordinals(a + b) =~= exon_ordinals(a) + exon_ordinals(b));
        } else {
            assert(exon_ordinals(a + b) =~= exon_ordinals(a) + exon_ordinals(b));
        }
    }
}

proof fn lemma_ordinals_singleton(x: GffLine)
    ensures
        exon_ordinals(seq![x]) == if x.feature == FeatureType::Exon {
            seq![ordinal_of(x)]
        } else {
            Seq::<int>::empty()
        },
{
    assert(seq![x].drop_last() =~= Seq::<GffLine>::empty());
    assert(exon_ordinals(Seq::<GffLine>::empty()) == Seq::<int>::empty());
    assert(seq![x].last() == x);
    if x.feature == FeatureType::Exon {
        assert(exon_ordinals(seq![x]) =~= seq![ordinal_of(x)]);
    } else {
        assert(exon_ordinals(seq![x]) =~= Seq::<int>::empty());
    }
}

proof fn lemma_ordinals_none(s: Seq<GffLine>)
    requires
        forall|j: int| 0 <= j < s.len() ==> (#[trigger] s[j]).feature != FeatureType::Exon,
    ensures
        exon_ordinals(s) == Seq::<int>::empty(),
    decreases s.len(),
{
    if s.len() > 0 {
        lemma_ordinals_none(s.drop_last());
        assert(exon_ordinals(s) =~= Seq::<int>::empty());
    }
}

proof fn lemma_ordinals_blocks(rec: BedRecord, gene: String, k: int, cs: int, ce: int)
    requires
        rec.wf(),
        k <= rec.exon_count_spec(),
    ensures
        exon_ordinals(spec_exon_blocks(rec, gene, k, cs, ce))
            == Seq::new(if k <= 0 { 0nat } else { k as nat }, |i: int| spec_exon_number(rec, i)),
    decreases k,
{
    crate::translate::lemma_offset_mono(rec, 0, rec.exon_count_spec());
    crate::translate::lemma_offset_bound(rec, rec.exon_count_spec());
    if k <= 0 {
        assert(exon_ordinals(spec_exon_blocks(rec, gene, k, cs, ce))
            =~= Seq::new(0nat, |i: int| spec_exon_number(rec, i)));
    } else {
        lemma_ordinals_blocks(rec, gene, k - 1, cs, ce);
        let prev = spec_exon_blocks(rec, gene, k - 1, cs, ce);
        let blk = spec_exon_block(rec, gene, k - 1, cs, ce);
        lemma_ordinals_concat(prev, blk);
        let exon_line = seq![crate::lines::spec_gff_line(rec, gene, FeatureType::Exon,
            rec.exon_starts@[k - 1] as int, rec.exon_ends@[k - 1] as int, -1, k - 1)];
        let rest = if cs < ce {
            spec_exon_features(rec, gene, k - 1, rec.cds_start as int, cs, ce,
                rec.cds_end as int, rec.exon_frames@[k - 1] as int)
        } else {
            Seq::<GffLine>::empty()
        };
        lemma_ordinals_concat(exon_line, rest);
        lemma_ordinals_none(rest);
        lemma_ordinals_singleton(exon_line[0]);
        assert(exon_line =~= seq![exon_line[0]]);
        assert(ordinal_of(exon_line[0]) == spec_exon_number(rec, k - 1));
        assert(exon_ordinals(exon_line) =~= seq![spec_exon_number(rec, k - 1)]);
        assert(exon_ordinals(spec_exon_blocks(rec, gene, k, cs, ce))
            =~= Seq::new(k as nat, |i: int| spec_exon_number(rec, i)));
    }
}

/// Exon ordinals in a transcript's output strictly increase in 5'-to-3'
/// transcript order on either strand: in output (genomic) order they
/// are `1..=exon_count` ascending on the `+` strand and descending on
/// the `-` strand, where 5'-to-3' order is reversed.
pub proof fn lemma_exon_ordinals_ordered(rec: BedRecord, gene: String, gene_line: bool)
    requires
        rec.wf(),
    ensures
        ({
            let nums = exon_ordinals(spec_to_gtf_lines(rec, gene, gene_line));
            let n = rec.exon_count_spec();
            &&& nums.len() == n
            &&& forall|i: int| 0 <= i < n ==> nums[i] == spec_exon_number(rec, i)
            &&& (rec.strand == Strand::Plus
                ==> forall|a: int, b: int| 0 <= a < b < n ==> nums[a] < nums[b])
            &&& (rec.strand == Strand::Minus
                ==> forall|a: int, b: int| 0 <= a < b < n ==> nums[a] > nums[b])
        }),
{
    let head = if gene_line {
        seq![crate::lines::spec_gene_line(rec, gene)]
    } else {
        Seq::<GffLine>::empty()
    };
    let tline = seq![crate::lines::spec_gff_line(rec, gene, FeatureType::Transcript,
        rec.tx_start as int, rec.tx_end as int, -1, -1)];
    let blocks = spec_exon_blocks(rec, gene, rec.exon_count_spec(), spec_cds_start_adj(rec),
        spec_cds_end_adj(rec));
    let codons = spec_strand_codon_lines(rec, gene);
    lemma_ordinals_concat(head + tline + blocks, codons);
    lemma_ordinals_concat(head + tline, blocks);
    lemma_ordinals_concat(head, tline);
    lemma_ordinals_none(head);
    lemma_ordinals_none(tline);
    lemma_codons_no_exon(rec, gene);
    lemma_ordinals_none(codons);
    lemma_ordinals_blocks(rec, gene, rec.exon_count_spec(), spec_cds_start_adj(rec),
        spec_cds_end_adj(rec));
    assert(exon_ordinals(spec_to_gtf_lines(rec, gene, gene_line)) =~= exon_ordinals(blocks));
}

proof fn lemma_codons_no_exon(rec: BedRecord, gene: String)
    ensures
        forall|j: int| 0 <= j < spec_strand_codon_lines(rec, gene).len()
            ==> (#[trigger] spec_strand_codon_lines(rec, gene)[j]).feature != FeatureType::Exon,
{
}

} // verus!
