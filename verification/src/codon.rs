//! The codon value type: a (possibly split) three-base coding interval,
//! built fresh by the codon locator and consumed by the record assembler.

use vstd::prelude::*;

verus! {

/// A codon candidate.  The primary sub-span is `[start, end)`; the
/// secondary sub-span `[start2, end2)` is non-empty only when the three
/// coding bases are interrupted by an intron.  `index` is the exon
/// ordinal hosting the first codon base, `-1` while undefined.
#[derive(Clone, Copy, PartialEq, Eq, Structural, Debug)]
pub struct Codon {
    pub start: u32,
    pub end: u32,
    pub start2: u32,
    pub end2: u32,
    pub index: i64,
}

impl Codon {
    /// Total number of bases covered by both sub-spans.
    pub open spec fn span_total(self) -> int {
        (self.end - self.start) + (self.end2 - self.start2)
    }

    pub open spec fn wf(self) -> bool {
        &&& self.start <= self.end
        &&& self.end - self.start <= 3
        &&& self.start2 <= self.end2
        &&& self.end2 - self.start2 <= 3
        &&& self.index >= -1
    }

    pub open spec fn empty_spec() -> Codon {
        Codon { start: 0, end: 0, start2: 0, end2: 0, index: -1i64 }
    }

    /// The empty codon: no coding frame established here.
    pub fn new() -> (c: Codon)
        ensures
            c == Codon::empty_spec(),
            c.wf(),
    {
        Codon { start: 0, end: 0, start2: 0, end2: 0, index: -1i64 }
    }
}

/// A codon is complete exactly when its sub-spans cover three bases.
pub open spec fn spec_codon_complete(codon: Codon) -> bool {
    codon.span_total() == 3
}

/// Check whether all three bases of a codon are defined.
///
/// Holds if and only if the lengths of the two sub-spans sum to exactly
/// three, whatever the split between them (3+0, 2+1, 1+2 or 0+3).
pub fn codon_complete(codon: &Codon) -> (r: bool)
    requires
        codon.wf(),
    ensures
        r <==> spec_codon_complete(*codon),
{
    (codon.end - codon.start) + (codon.end2 - codon.start2) == 3
}

} // verus!
