//! Conversion of BED-style gene-model records into typed GFF annotation
//! features: genes, transcripts, exons, coding regions, untranslated
//! regions and start/stop codons, with strand-aware coordinates and phase.

pub mod assemble;
pub mod codon;
pub mod dedup;
pub mod laws;
pub mod lines;
pub mod locate;
pub mod record;
pub mod translate;
