//! A plain string of DNA bases with a base count.

use vstd::prelude::*;

use crate::dna::DNA;
use crate::nucleotides::Nucleotide;
use crate::strands::{all_valid, count_of, first_invalid, parsed, Strand};

verus! {

/// A string of DNA bases.
#[derive(Debug, PartialEq, Eq)]
pub struct DNAString {
    nucleotides: Strand<DNA>,
}

impl View for DNAString {
    type V = Seq<DNA>;

    closed spec fn view(&self) -> Seq<DNA> {
        self.nucleotides@
    }
}

impl DNAString {
    pub fn new(nucleotides: Vec<DNA>) -> (r: DNAString)
        ensures
            r@ == nucleotides@,
    {
        DNAString { nucleotides: Strand::new(nucleotides) }
    }

    /// Reads bases from text; the first character that is no base comes
    /// back as the error.
    pub fn from_str(s: &str) -> (r: Result<DNAString, char>)
        ensures
            match r {
                Ok(d) => all_valid::<DNA>(s@) && d@ == parsed::<DNA>(s@),
                Err(c) => exists|i: int| first_invalid::<DNA>(s@, i) && c == s@[i],
            },
    {
        match Strand::parse(s) {
            Ok(nucleotides) => Ok(DNAString { nucleotides }),
            Err(c) => Err(c),
        }
    }

    /// The count of each base, in the order A, C, G, T.
    pub fn count_nucleotides(&self) -> (r: Vec<(DNA, u32)>)
        requires
            self@.len() <= u32::MAX,
        ensures
            r@.len() == 4,
            forall|k: int|
                0 <= k < 4 ==> (#[trigger] r@[k]).0.rank() == k && r@[k].1 == count_of(
                    self@,
                    r@[k].0,
                ),
    {
        self.nucleotides.count_nucleotides()
    }
}

} // verus!
