//! Chains of DNA and RNA bases: a DNA chain reads from trimmed text, grows
//! by appending, and transcribes into an RNA chain.

use vstd::prelude::*;

use crate::dna::DNA;
use crate::nucleotides::Nucleotide;
use crate::rna::RNA;
use crate::strands::{all_valid, displayed, first_invalid, parsed, reverse_complement, transcription, Strand};
use crate::text::{trim, trim_of};

verus! {

/// A chain of DNA bases.
#[derive(Debug, PartialEq, Eq)]
pub struct DNAChain {
    nucleotides: Strand<DNA>,
}

/// A chain of RNA bases.
#[derive(Debug, PartialEq, Eq)]
pub struct RNAChain {
    nucleotides: Strand<RNA>,
}

impl View for DNAChain {
    type V = Seq<DNA>;

    closed spec fn view(&self) -> Seq<DNA> {
        self.nucleotides@
    }
}

impl View for RNAChain {
    type V = Seq<RNA>;

    closed spec fn view(&self) -> Seq<RNA> {
        self.nucleotides@
    }
}

impl DNAChain {
    /// A chain of the given bases.
    pub fn new(dna: Vec<DNA>) -> (r: DNAChain)
        ensures
            r@ == dna@,
    {
        DNAChain { nucleotides: Strand::new(dna) }
    }

    /// Reads a chain from text, ignoring leading and trailing whitespace.
    /// The first other character that is no base comes back as the error.
    pub fn parse_str(s: &str) -> (r: Result<DNAChain, char>)
        ensures
            match r {
                Ok(chain) => all_valid::<DNA>(trim_of(s@)) && chain@ == parsed::<DNA>(trim_of(s@)),
                Err(c) => exists|i: int| first_invalid::<DNA>(trim_of(s@), i) && c == trim_of(s@)[i],
            },
    {
        match Strand::parse(trim(s)) {
            Ok(nucleotides) => Ok(DNAChain { nucleotides }),
            Err(c) => Err(c),
        }
    }

    /// The chain read backwards, each base replaced by its pair.
    pub fn reverse_compliment(&self) -> (r: DNAChain)
        ensures
            r@ == reverse_complement(self@),
    {
        DNAChain { nucleotides: self.nucleotides.reverse_compliment() }
    }

    /// Moves the bases of `other` onto the end of this chain.
    pub fn append(&mut self, other: DNAChain)
        ensures
            final(self)@ == old(self)@ + other@,
    {
        self.nucleotides.extend(&other.nucleotides);
    }

    /// The number of G and C bases: the numerator of the GC content.
    pub fn gc_count(&self) -> (r: usize)
        ensures
            r == crate::strands::count_of(self@, DNA::G) + crate::strands::count_of(self@, DNA::C),
    {
        self.nucleotides.gc_count()
    }

    pub fn len(&self) -> (r: usize)
        ensures
            r == self@.len(),
    {
        self.nucleotides.len()
    }

    /// The text form: one letter per base.
    pub fn to_string(&self) -> (r: String)
        ensures
            r@ == displayed(self@),
    {
        self.nucleotides.to_string()
    }
}

impl RNAChain {
    /// A chain of the given bases.
    pub fn new(rna: Vec<RNA>) -> (r: RNAChain)
        ensures
            r@ == rna@,
    {
        RNAChain { nucleotides: Strand::new(rna) }
    }

    /// Transcribes a DNA chain, base by base.
    pub fn from_dna(dna: DNAChain) -> (r: RNAChain)
        ensures
            r@ == transcription::<DNA, RNA>(dna@),
    {
        RNAChain { nucleotides: dna.nucleotides.transcribe() }
    }

    /// The text form: one letter per base.
    pub fn to_string(&self) -> (r: String)
        ensures
            r@ == displayed(self@),
    {
        self.nucleotides.to_string()
    }
}

} // verus!
