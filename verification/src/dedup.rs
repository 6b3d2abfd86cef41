//! The gene-level deduplicator: the set of gene identifiers whose
//! summary line has already been emitted.  It grows monotonically over
//! one conversion run and is mutated exactly once per record.

use vstd::prelude::*;

verus! {

/// Set of gene identifiers already seen in this run.
pub struct GeneSet {
    genes: Vec<String>,
}

impl View for GeneSet {
    type V = Set<Seq<char>>;

    closed spec fn view(&self) -> Set<Seq<char>> {
        Set::new(|g: Seq<char>| exists|i: int| 0 <= i < self.genes@.len() && self.genes@[i]@ == g)
    }
}

impl GeneSet {
    /// A fresh run starts with no gene seen.
    pub fn new() -> (s: GeneSet)
        ensures
            s@ == Set::<Seq<char>>::empty(),
    {
        let s = GeneSet { genes: Vec::new() };
        proof {
            assert(s@ =~= Set::<Seq<char>>::empty());
        }
        s
    }

    pub fn contains(&self, gene: &String) -> (r: bool)
        ensures
            r == self@.contains(gene@),
    {
        let n = self.genes.len();
        let mut i: usize = 0;
        while i < n
            invariant
                i <= n,
                n == self.genes@.len(),
                forall|j: int| 0 <= j < i ==> #[trigger] self.genes@[j]@ != gene@,
            decreases n - i,
        {
            if self.genes[i] == *gene {
                return true;
            }
            i = i + 1;
        }
        false
    }

    /// Record a gene identifier; reports whether it was new.  This is
    /// the lookup-then-insert step performed once per record.
    pub fn check_and_insert(&mut self, gene: &String) -> (fresh: bool)
        ensures
            fresh == !old(self)@.contains(gene@),
            final(self)@ == old(self)@.insert(gene@),
    {
        if self.contains(gene) {
            proof {
                assert(self@ =~= old(self)@.insert(gene@));
            }
            false
        } else {
            let ghost before = self.genes@;
            self.genes.push(gene.clone());
            proof {
                assert forall|g: Seq<char>| #[trigger] self@.contains(g)
                    implies old(self)@.insert(gene@).contains(g) by {
                    let i = choose|i: int| 0 <= i < self.genes@.len() && self.genes@[i]@ == g;
                    if i < before.len() {
                        assert(before[i]@ == g);
                    }
                };
                assert forall|g: Seq<char>| #[trigger] old(self)@.insert(gene@).contains(g)
                    implies self@.contains(g) by {
                    if old(self)@.contains(g) {
                        let i = choose|i: int| 0 <= i < before.len() && before[i]@ == g;
                        assert(self.genes@[i]@ == g);
                    } else {
                        assert(self.genes@[before.len() as int]@ == g);
                    }
                };
                assert(self@ =~= old(self)@.insert(gene@));
            }
            true
        }
    }
}

} // verus!
