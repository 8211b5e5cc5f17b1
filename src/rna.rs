//! The four RNA bases, their transcription from DNA, and the codon lists of
//! each amino acid.

use vstd::prelude::*;

use crate::dna::DNA;
use crate::nucleotides::{Complementable, Nucleotide, Transcribable};
use crate::protein::{codon_amino, AminoAcid};

verus! {

#[derive(Clone, Copy, Debug, PartialEq, Eq, Structural, PartialOrd, Ord, Hash)]
pub enum RNA {
    A,
    C,
    G,
    U,
}

/// Three consecutive RNA bases.
pub type Codon = (RNA, RNA, RNA);

impl Nucleotide for RNA {
    open spec fn rank(self) -> nat {
        match self {
            RNA::A => 0,
            RNA::C => 1,
            RNA::G => 2,
            RNA::U => 3,
        }
    }

    open spec fn alphabet_size() -> nat {
        4
    }

    open spec fn symbol_char(self) -> char {
        match self {
            RNA::A => 'A',
            RNA::C => 'C',
            RNA::G => 'G',
            RNA::U => 'U',
        }
    }

    open spec fn from_char_spec(c: char) -> Option<RNA> {
        if c == 'A' {
            Some(RNA::A)
        } else if c == 'C' {
            Some(RNA::C)
        } else if c == 'G' {
            Some(RNA::G)
        } else if c == 'U' {
            Some(RNA::U)
        } else {
            None
        }
    }

    proof fn lemma_rank_bounded(a: RNA) {
    }

    proof fn lemma_rank_injective(a: RNA, b: RNA) {
    }

    proof fn lemma_char_round_trip(a: RNA) {
    }

    proof fn lemma_parsed_char(c: char) {
    }

    fn try_from_char(c: char) -> (r: Result<RNA, char>) {
        match c {
            'A' => Ok(RNA::A),
            'C' => Ok(RNA::C),
            'G' => Ok(RNA::G),
            'U' => Ok(RNA::U),
            _ => Err(c),
        }
    }

    fn to_char(&self) -> (c: char) {
        match self {
            RNA::A => 'A',
            RNA::C => 'C',
            RNA::G => 'G',
            RNA::U => 'U',
        }
    }

    fn index(&self) -> (r: usize) {
        match self {
            RNA::A => 0,
            RNA::C => 1,
            RNA::G => 2,
            RNA::U => 3,
        }
    }

    fn alphabet() -> (r: Vec<RNA>) {
        vec![RNA::A, RNA::C, RNA::G, RNA::U]
    }
}

impl Complementable for RNA {
    open spec fn complement_spec(self) -> RNA {
        match self {
            RNA::A => RNA::U,
            RNA::U => RNA::A,
            RNA::C => RNA::G,
            RNA::G => RNA::C,
        }
    }

    proof fn lemma_complement_involutive(a: RNA) {
    }

    fn compliment(&self) -> (r: RNA) {
        match self {
            RNA::A => RNA::U,
            RNA::U => RNA::A,
            RNA::C => RNA::G,
            RNA::G => RNA::C,
        }
    }
}

impl Transcribable<DNA> for RNA {
    open spec fn transcribed(from: DNA) -> RNA {
        match from {
            DNA::A => RNA::A,
            DNA::C => RNA::C,
            DNA::G => RNA::G,
            DNA::T => RNA::U,
        }
    }

    fn transcribe_from(from: &DNA) -> (r: RNA) {
        match from {
            DNA::A => RNA::A,
            DNA::C => RNA::C,
            DNA::G => RNA::G,
            DNA::T => RNA::U,
        }
    }
}

/// The codons of an amino acid, in the order the enumerator walks them.
pub open spec fn codons_of(a: AminoAcid) -> Seq<Codon> {
    match a {
        AminoAcid::A => seq![(RNA::G, RNA::C, RNA::A), (RNA::G, RNA::C, RNA::C), (RNA::G, RNA::C, RNA::G), (RNA::G, RNA::C, RNA::U)],
        AminoAcid::C => seq![(RNA::U, RNA::G, RNA::U), (RNA::U, RNA::G, RNA::C)],
        AminoAcid::D => seq![(RNA::G, RNA::A, RNA::U), (RNA::G, RNA::A, RNA::C)],
        AminoAcid::E => seq![(RNA::G, RNA::A, RNA::A), (RNA::G, RNA::A, RNA::G)],
        AminoAcid::F => seq![(RNA::U, RNA::U, RNA::U), (RNA::U, RNA::U, RNA::C)],
        AminoAcid::G => seq![(RNA::G, RNA::G, RNA::A), (RNA::G, RNA::G, RNA::C), (RNA::G, RNA::G, RNA::G), (RNA::G, RNA::G, RNA::U)],
        AminoAcid::H => seq![(RNA::C, RNA::A, RNA::U), (RNA::C, RNA::A, RNA::C)],
        AminoAcid::I => seq![(RNA::A, RNA::U, RNA::U), (RNA::A, RNA::U, RNA::C), (RNA::A, RNA::U, RNA::A)],
        AminoAcid::K => seq![(RNA::A, RNA::A, RNA::A), (RNA::A, RNA::A, RNA::G)],
        AminoAcid::L => seq![(RNA::U, RNA::U, RNA::A), (RNA::U, RNA::U, RNA::G), (RNA::C, RNA::U, RNA::A), (RNA::C, RNA::U, RNA::C), (RNA::C, RNA::U, RNA::G), (RNA::C, RNA::U, RNA::U)],
        AminoAcid::M => seq![(RNA::A, RNA::U, RNA::G)],
        AminoAcid::N => seq![(RNA::A, RNA::A, RNA::U), (RNA::A, RNA::A, RNA::C)],
        AminoAcid::P => seq![(RNA::C, RNA::C, RNA::A), (RNA::C, RNA::C, RNA::C), (RNA::C, RNA::C, RNA::G), (RNA::C, RNA::C, RNA::U)],
        AminoAcid::Q => seq![(RNA::C, RNA::A, RNA::A), (RNA::C, RNA::A, RNA::G)],
        AminoAcid::R => seq![(RNA::C, RNA::G, RNA::A), (RNA::C, RNA::G, RNA::C), (RNA::C, RNA::G, RNA::G), (RNA::C, RNA::G, RNA::U), (RNA::A, RNA::G, RNA::A), (RNA::A, RNA::G, RNA::G)],
        AminoAcid::S => seq![(RNA::U, RNA::C, RNA::A), (RNA::U, RNA::C, RNA::C), (RNA::U, RNA::C, RNA::G), (RNA::U, RNA::C, RNA::U), (RNA::A, RNA::G, RNA::U), (RNA::A, RNA::G, RNA::C)],
        AminoAcid::T => seq![(RNA::A, RNA::C, RNA::A), (RNA::A, RNA::C, RNA::C), (RNA::A, RNA::C, RNA::G), (RNA::A, RNA::C, RNA::U)],
        AminoAcid::V => seq![(RNA::G, RNA::U, RNA::A), (RNA::G, RNA::U, RNA::C), (RNA::G, RNA::U, RNA::G), (RNA::G, RNA::U, RNA::U)],
        AminoAcid::W => seq![(RNA::U, RNA::G, RNA::G)],
        AminoAcid::Y => seq![(RNA::U, RNA::A, RNA::U), (RNA::U, RNA::A, RNA::C)],
        AminoAcid::Stop => seq![(RNA::U, RNA::A, RNA::A), (RNA::U, RNA::A, RNA::G), (RNA::U, RNA::G, RNA::A)],
    }
}

/// Every codon listed for an amino acid codes for it, and each is listed
/// once.
pub proof fn lemma_codons_of_sound(a: AminoAcid)
    ensures
        codons_of(a).len() > 0,
        codons_of(a).no_duplicates(),
        forall|i: int| 0 <= i < codons_of(a).len() ==> codon_amino(#[trigger] codons_of(a)[i]) == a,
{
}

/// Every codon is listed under the amino acid it codes for.
pub proof fn lemma_codons_of_complete(c: Codon)
    ensures
        codons_of(codon_amino(c)).contains(c),
{
    match c {
        (RNA::A, RNA::A, RNA::A) => assert(codons_of(AminoAcid::K)[0] == c),
        (RNA::A, RNA::A, RNA::C) => assert(codons_of(AminoAcid::N)[1] == c),
        (RNA::A, RNA::A, RNA::G) => assert(codons_of(AminoAcid::K)[1] == c),
        (RNA::A, RNA::A, RNA::U) => assert(codons_of(AminoAcid::N)[0] == c),
        (RNA::A, RNA::C, RNA::A) => assert(codons_of(AminoAcid::T)[0] == c),
        (RNA::A, RNA::C, RNA::C) => assert(codons_of(AminoAcid::T)[1] == c),
        (RNA::A, RNA::C, RNA::G) => assert(codons_of(AminoAcid::T)[2] == c),
        (RNA::A, RNA::C, RNA::U) => assert(codons_of(AminoAcid::T)[3] == c),
        (RNA::A, RNA::G, RNA::A) => assert(codons_of(AminoAcid::R)[4] == c),
        (RNA::A, RNA::G, RNA::C) => assert(codons_of(AminoAcid::S)[5] == c),
        (RNA::A, RNA::G, RNA::G) => assert(codons_of(AminoAcid::R)[5] == c),
        (RNA::A, RNA::G, RNA::U) => assert(codons_of(AminoAcid::S)[4] == c),
        (RNA::A, RNA::U, RNA::A) => assert(codons_of(AminoAcid::I)[2] == c),
        (RNA::A, RNA::U, RNA::C) => assert(codons_of(AminoAcid::I)[1] == c),
        (RNA::A, RNA::U, RNA::G) => assert(codons_of(AminoAcid::M)[0] == c),
        (RNA::A, RNA::U, RNA::U) => assert(codons_of(AminoAcid::I)[0] == c),
        (RNA::C, RNA::A, RNA::A) => assert(codons_of(AminoAcid::Q)[0] == c),
        (RNA::C, RNA::A, RNA::C) => assert(codons_of(AminoAcid::H)[1] == c),
        (RNA::C, RNA::A, RNA::G) => assert(codons_of(AminoAcid::Q)[1] == c),
        (RNA::C, RNA::A, RNA::U) => assert(codons_of(AminoAcid::H)[0] == c),
        (RNA::C, RNA::C, RNA::A) => assert(codons_of(AminoAcid::P)[0] == c),
        (RNA::C, RNA::C, RNA::C) => assert(codons_of(AminoAcid::P)[1] == c),
        (RNA::C, RNA::C, RNA::G) => assert(codons_of(AminoAcid::P)[2] == c),
        (RNA::C, RNA::C, RNA::U) => assert(codons_of(AminoAcid::P)[3] == c),
        (RNA::C, RNA::G, RNA::A) => assert(codons_of(AminoAcid::R)[0] == c),
        (RNA::C, RNA::G, RNA::C) => assert(codons_of(AminoAcid::R)[1] == c),
        (RNA::C, RNA::G, RNA::G) => assert(codons_of(AminoAcid::R)[2] == c),
        (RNA::C, RNA::G, RNA::U) => assert(codons_of(AminoAcid::R)[3] == c),
        (RNA::C, RNA::U, RNA::A) => assert(codons_of(AminoAcid::L)[2] == c),
        (RNA::C, RNA::U, RNA::C) => assert(codons_of(AminoAcid::L)[3] == c),
        (RNA::C, RNA::U, RNA::G) => assert(codons_of(AminoAcid::L)[4] == c),
        (RNA::C, RNA::U, RNA::U) => assert(codons_of(AminoAcid::L)[5] == c),
        (RNA::G, RNA::A, RNA::A) => assert(codons_of(AminoAcid::E)[0] == c),
        (RNA::G, RNA::A, RNA::C) => assert(codons_of(AminoAcid::D)[1] == c),
        (RNA::G, RNA::A, RNA::G) => assert(codons_of(AminoAcid::E)[1] == c),
        (RNA::G, RNA::A, RNA::U) => assert(codons_of(AminoAcid::D)[0] == c),
        (RNA::G, RNA::C, RNA::A) => assert(codons_of(AminoAcid::A)[0] == c),
        (RNA::G, RNA::C, RNA::C) => assert(codons_of(AminoAcid::A)[1] == c),
        (RNA::G, RNA::C, RNA::G) => assert(codons_of(AminoAcid::A)[2] == c),
        (RNA::G, RNA::C, RNA::U) => assert(codons_of(AminoAcid::A)[3] == c),
        (RNA::G, RNA::G, RNA::A) => assert(codons_of(AminoAcid::G)[0] == c),
        (RNA::G, RNA::G, RNA::C) => assert(codons_of(AminoAcid::G)[1] == c),
        (RNA::G, RNA::G, RNA::G) => assert(codons_of(AminoAcid::G)[2] == c),
        (RNA::G, RNA::G, RNA::U) => assert(codons_of(AminoAcid::G)[3] == c),
        (RNA::G, RNA::U, RNA::A) => assert(codons_of(AminoAcid::V)[0] == c),
        (RNA::G, RNA::U, RNA::C) => assert(codons_of(AminoAcid::V)[1] == c),
        (RNA::G, RNA::U, RNA::G) => assert(codons_of(AminoAcid::V)[2] == c),
        (RNA::G, RNA::U, RNA::U) => assert(codons_of(AminoAcid::V)[3] == c),
        (RNA::U, RNA::A, RNA::A) => assert(codons_of(AminoAcid::Stop)[0] == c),
        (RNA::U, RNA::A, RNA::C) => assert(codons_of(AminoAcid::Y)[1] == c),
        (RNA::U, RNA::A, RNA::G) => assert(codons_of(AminoAcid::Stop)[1] == c),
        (RNA::U, RNA::A, RNA::U) => assert(codons_of(AminoAcid::Y)[0] == c),
        (RNA::U, RNA::C, RNA::A) => assert(codons_of(AminoAcid::S)[0] == c),
        (RNA::U, RNA::C, RNA::C) => assert(codons_of(AminoAcid::S)[1] == c),
        (RNA::U, RNA::C, RNA::G) => assert(codons_of(AminoAcid::S)[2] == c),
        (RNA::U, RNA::C, RNA::U) => assert(codons_of(AminoAcid::S)[3] == c),
        (RNA::U, RNA::G, RNA::A) => assert(codons_of(AminoAcid::Stop)[2] == c),
        (RNA::U, RNA::G, RNA::C) => assert(codons_of(AminoAcid::C)[1] == c),
        (RNA::U, RNA::G, RNA::G) => assert(codons_of(AminoAcid::W)[0] == c),
        (RNA::U, RNA::G, RNA::U) => assert(codons_of(AminoAcid::C)[0] == c),
        (RNA::U, RNA::U, RNA::A) => assert(codons_of(AminoAcid::L)[0] == c),
        (RNA::U, RNA::U, RNA::C) => assert(codons_of(AminoAcid::F)[1] == c),
        (RNA::U, RNA::U, RNA::G) => assert(codons_of(AminoAcid::L)[1] == c),
        (RNA::U, RNA::U, RNA::U) => assert(codons_of(AminoAcid::F)[0] == c),
    }
}

impl RNA {
    /// Returns all codons that code for the amino acid.
    pub fn reverse_translations(protein: &AminoAcid) -> (r: Vec<Codon>)
        ensures
            r@ == codons_of(*protein),
    {
        match protein {
            AminoAcid::A => vec![(RNA::G, RNA::C, RNA::A), (RNA::G, RNA::C, RNA::C), (RNA::G, RNA::C, RNA::G), (RNA::G, RNA::C, RNA::U)],
            AminoAcid::C => vec![(RNA::U, RNA::G, RNA::U), (RNA::U, RNA::G, RNA::C)],
            AminoAcid::D => vec![(RNA::G, RNA::A, RNA::U), (RNA::G, RNA::A, RNA::C)],
            AminoAcid::E => vec![(RNA::G, RNA::A, RNA::A), (RNA::G, RNA::A, RNA::G)],
            AminoAcid::F => vec![(RNA::U, RNA::U, RNA::U), (RNA::U, RNA::U, RNA::C)],
            AminoAcid::G => vec![(RNA::G, RNA::G, RNA::A), (RNA::G, RNA::G, RNA::C), (RNA::G, RNA::G, RNA::G), (RNA::G, RNA::G, RNA::U)],
            AminoAcid::H => vec![(RNA::C, RNA::A, RNA::U), (RNA::C, RNA::A, RNA::C)],
            AminoAcid::I => vec![(RNA::A, RNA::U, RNA::U), (RNA::A, RNA::U, RNA::C), (RNA::A, RNA::U, RNA::A)],
            AminoAcid::K => vec![(RNA::A, RNA::A, RNA::A), (RNA::A, RNA::A, RNA::G)],
            AminoAcid::L => vec![(RNA::U, RNA::U, RNA::A), (RNA::U, RNA::U, RNA::G), (RNA::C, RNA::U, RNA::A), (RNA::C, RNA::U, RNA::C), (RNA::C, RNA::U, RNA::G), (RNA::C, RNA::U, RNA::U)],
            AminoAcid::M => vec![(RNA::A, RNA::U, RNA::G)],
            AminoAcid::N => vec![(RNA::A, RNA::A, RNA::U), (RNA::A, RNA::A, RNA::C)],
            AminoAcid::P => vec![(RNA::C, RNA::C, RNA::A), (RNA::C, RNA::C, RNA::C), (RNA::C, RNA::C, RNA::G), (RNA::C, RNA::C, RNA::U)],
            AminoAcid::Q => vec![(RNA::C, RNA::A, RNA::A), (RNA::C, RNA::A, RNA::G)],
            AminoAcid::R => vec![(RNA::C, RNA::G, RNA::A), (RNA::C, RNA::G, RNA::C), (RNA::C, RNA::G, RNA::G), (RNA::C, RNA::G, RNA::U), (RNA::A, RNA::G, RNA::A), (RNA::A, RNA::G, RNA::G)],
            AminoAcid::S => vec![(RNA::U, RNA::C, RNA::A), (RNA::U, RNA::C, RNA::C), (RNA::U, RNA::C, RNA::G), (RNA::U, RNA::C, RNA::U), (RNA::A, RNA::G, RNA::U), (RNA::A, RNA::G, RNA::C)],
            AminoAcid::T => vec![(RNA::A, RNA::C, RNA::A), (RNA::A, RNA::C, RNA::C), (RNA::A, RNA::C, RNA::G), (RNA::A, RNA::C, RNA::U)],
            AminoAcid::V => vec![(RNA::G, RNA::U, RNA::A), (RNA::G, RNA::U, RNA::C), (RNA::G, RNA::U, RNA::G), (RNA::G, RNA::U, RNA::U)],
            AminoAcid::W => vec![(RNA::U, RNA::G, RNA::G)],
            AminoAcid::Y => vec![(RNA::U, RNA::A, RNA::U), (RNA::U, RNA::A, RNA::C)],
            AminoAcid::Stop => vec![(RNA::U, RNA::A, RNA::A), (RNA::U, RNA::A, RNA::G), (RNA::U, RNA::G, RNA::A)],
        }
    }
}

} // verus!
