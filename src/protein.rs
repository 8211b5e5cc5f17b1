//! The twenty amino acids and the stop signal, and the codon table.

use vstd::prelude::*;

use crate::nucleotides::Nucleotide;
use crate::rna::{Codon, RNA};

verus! {

#[derive(Clone, Copy, Debug, PartialEq, Eq, Structural, PartialOrd, Ord, Hash)]
pub enum AminoAcid {
    A,
    C,
    D,
    E,
    F,
    G,
    H,
    I,
    K,
    L,
    M,
    N,
    P,
    Q,
    R,
    S,
    T,
    V,
    W,
    Y,
    Stop,
}

impl Nucleotide for AminoAcid {
    open spec fn rank(self) -> nat {
        match self {
            AminoAcid::A => 0,
            AminoAcid::C => 1,
            AminoAcid::D => 2,
            AminoAcid::E => 3,
            AminoAcid::F => 4,
            AminoAcid::G => 5,
            AminoAcid::H => 6,
            AminoAcid::I => 7,
            AminoAcid::K => 8,
            AminoAcid::L => 9,
            AminoAcid::M => 10,
            AminoAcid::N => 11,
            AminoAcid::P => 12,
            AminoAcid::Q => 13,
            AminoAcid::R => 14,
            AminoAcid::S => 15,
            AminoAcid::T => 16,
            AminoAcid::V => 17,
            AminoAcid::W => 18,
            AminoAcid::Y => 19,
            AminoAcid::Stop => 20,
        }
    }

    open spec fn alphabet_size() -> nat {
        21
    }

    /// The stop signal displays as `*`.
    open spec fn symbol_char(self) -> char {
        match self {
            AminoAcid::A => 'A',
            AminoAcid::C => 'C',
            AminoAcid::D => 'D',
            AminoAcid::E => 'E',
            AminoAcid::F => 'F',
            AminoAcid::G => 'G',
            AminoAcid::H => 'H',
            AminoAcid::I => 'I',
            AminoAcid::K => 'K',
            AminoAcid::L => 'L',
            AminoAcid::M => 'M',
            AminoAcid::N => 'N',
            AminoAcid::P => 'P',
            AminoAcid::Q => 'Q',
            AminoAcid::R => 'R',
            AminoAcid::S => 'S',
            AminoAcid::T => 'T',
            AminoAcid::V => 'V',
            AminoAcid::W => 'W',
            AminoAcid::Y => 'Y',
            AminoAcid::Stop => '*',
        }
    }

    open spec fn from_char_spec(c: char) -> Option<AminoAcid> {
        if c == 'A' {
            Some(AminoAcid::A)
        } else if c == 'C' {
            Some(AminoAcid::C)
        } else if c == 'D' {
            Some(AminoAcid::D)
        } else if c == 'E' {
            Some(AminoAcid::E)
        } else if c == 'F' {
            Some(AminoAcid::F)
        } else if c == 'G' {
            Some(AminoAcid::G)
        } else if c == 'H' {
            Some(AminoAcid::H)
        } else if c == 'I' {
            Some(AminoAcid::I)
        } else if c == 'K' {
            Some(AminoAcid::K)
        } else if c == 'L' {
            Some(AminoAcid::L)
        } else if c == 'M' {
            Some(AminoAcid::M)
        } else if c == 'N' {
            Some(AminoAcid::N)
        } else if c == 'P' {
            Some(AminoAcid::P)
        } else if c == 'Q' {
            Some(AminoAcid::Q)
        } else if c == 'R' {
            Some(AminoAcid::R)
        } else if c == 'S' {
            Some(AminoAcid::S)
        } else if c == 'T' {
            Some(AminoAcid::T)
        } else if c == 'V' {
            Some(AminoAcid::V)
        } else if c == 'W' {
            Some(AminoAcid::W)
        } else if c == 'Y' {
            Some(AminoAcid::Y)
        } else if c == '*' {
            Some(AminoAcid::Stop)
        } else {
            None
        }
    }

    proof fn lemma_rank_bounded(a: AminoAcid) {
    }

    proof fn lemma_rank_injective(a: AminoAcid, b: AminoAcid) {
    }

    proof fn lemma_char_round_trip(a: AminoAcid) {
    }

    proof fn lemma_parsed_char(c: char) {
    }

    fn try_from_char(c: char) -> (r: Result<AminoAcid, char>) {
        match c {
            'A' => Ok(AminoAcid::A),
            'C' => Ok(AminoAcid::C),
            'D' => Ok(AminoAcid::D),
            'E' => Ok(AminoAcid::E),
            'F' => Ok(AminoAcid::F),
            'G' => Ok(AminoAcid::G),
            'H' => Ok(AminoAcid::H),
            'I' => Ok(AminoAcid::I),
            'K' => Ok(AminoAcid::K),
            'L' => Ok(AminoAcid::L),
            'M' => Ok(AminoAcid::M),
            'N' => Ok(AminoAcid::N),
            'P' => Ok(AminoAcid::P),
            'Q' => Ok(AminoAcid::Q),
            'R' => Ok(AminoAcid::R),
            'S' => Ok(AminoAcid::S),
            'T' => Ok(AminoAcid::T),
            'V' => Ok(AminoAcid::V),
            'W' => Ok(AminoAcid::W),
            'Y' => Ok(AminoAcid::Y),
            '*' => Ok(AminoAcid::Stop),
            _ => Err(c),
        }
    }

    fn to_char(&self) -> (c: char) {
        match self {
            AminoAcid::A => 'A',
            AminoAcid::C => 'C',
            AminoAcid::D => 'D',
            AminoAcid::E => 'E',
            AminoAcid::F => 'F',
            AminoAcid::G => 'G',
            AminoAcid::H => 'H',
            AminoAcid::I => 'I',
            AminoAcid::K => 'K',
            AminoAcid::L => 'L',
            AminoAcid::M => 'M',
            AminoAcid::N => 'N',
            AminoAcid::P => 'P',
            AminoAcid::Q => 'Q',
            AminoAcid::R => 'R',
            AminoAcid::S => 'S',
            AminoAcid::T => 'T',
            AminoAcid::V => 'V',
            AminoAcid::W => 'W',
            AminoAcid::Y => 'Y',
            AminoAcid::Stop => '*',
        }
    }

    fn index(&self) -> (r: usize) {
        match self {
            AminoAcid::A => 0,
            AminoAcid::C => 1,
            AminoAcid::D => 2,
            AminoAcid::E => 3,
            AminoAcid::F => 4,
            AminoAcid::G => 5,
            AminoAcid::H => 6,
            AminoAcid::I => 7,
            AminoAcid::K => 8,
            AminoAcid::L => 9,
            AminoAcid::M => 10,
            AminoAcid::N => 11,
            AminoAcid::P => 12,
            AminoAcid::Q => 13,
            AminoAcid::R => 14,
            AminoAcid::S => 15,
            AminoAcid::T => 16,
            AminoAcid::V => 17,
            AminoAcid::W => 18,
            AminoAcid::Y => 19,
            AminoAcid::Stop => 20,
        }
    }

    fn alphabet() -> (r: Vec<AminoAcid>) {
        vec![
            AminoAcid::A,
            AminoAcid::C,
            AminoAcid::D,
            AminoAcid::E,
            AminoAcid::F,
            AminoAcid::G,
            AminoAcid::H,
            AminoAcid::I,
            AminoAcid::K,
            AminoAcid::L,
            AminoAcid::M,
            AminoAcid::N,
            AminoAcid::P,
            AminoAcid::Q,
            AminoAcid::R,
            AminoAcid::S,
            AminoAcid::T,
            AminoAcid::V,
            AminoAcid::W,
            AminoAcid::Y,
            AminoAcid::Stop,
        ]
    }
}

/// The standard codon table: the amino acid (or stop) that a codon codes for.
pub open spec fn codon_amino(c: Codon) -> AminoAcid {
    match c {
        (RNA::G, RNA::C, _) => AminoAcid::A,
        (RNA::U, RNA::G, RNA::U) | (RNA::U, RNA::G, RNA::C) => AminoAcid::C,
        (RNA::G, RNA::A, RNA::U) | (RNA::G, RNA::A, RNA::C) => AminoAcid::D,
        (RNA::G, RNA::A, RNA::A) | (RNA::G, RNA::A, RNA::G) => AminoAcid::E,
        (RNA::U, RNA::U, RNA::U) | (RNA::U, RNA::U, RNA::C) => AminoAcid::F,
        (RNA::G, RNA::G, _) => AminoAcid::G,
        (RNA::C, RNA::A, RNA::U) | (RNA::C, RNA::A, RNA::C) => AminoAcid::H,
        (RNA::A, RNA::U, RNA::U) | (RNA::A, RNA::U, RNA::C) | (RNA::A, RNA::U, RNA::A) => AminoAcid::I,
        (RNA::A, RNA::A, RNA::A) | (RNA::A, RNA::A, RNA::G) => AminoAcid::K,
        (RNA::U, RNA::U, RNA::A) | (RNA::U, RNA::U, RNA::G) | (RNA::C, RNA::U, _) => AminoAcid::L,
        (RNA::A, RNA::U, RNA::G) => AminoAcid::M,
        (RNA::A, RNA::A, RNA::U) | (RNA::A, RNA::A, RNA::C) => AminoAcid::N,
        (RNA::C, RNA::C, _) => AminoAcid::P,
        (RNA::C, RNA::A, RNA::A) | (RNA::C, RNA::A, RNA::G) => AminoAcid::Q,
        (RNA::C, RNA::G, _) | (RNA::A, RNA::G, RNA::A) | (RNA::A, RNA::G, RNA::G) => AminoAcid::R,
        (RNA::U, RNA::C, _) | (RNA::A, RNA::G, RNA::U) | (RNA::A, RNA::G, RNA::C) => AminoAcid::S,
        (RNA::A, RNA::C, _) => AminoAcid::T,
        (RNA::G, RNA::U, _) => AminoAcid::V,
        (RNA::U, RNA::G, RNA::G) => AminoAcid::W,
        (RNA::U, RNA::A, RNA::U) | (RNA::U, RNA::A, RNA::C) => AminoAcid::Y,
        (RNA::U, RNA::A, RNA::A) | (RNA::U, RNA::A, RNA::G) | (RNA::U, RNA::G, RNA::A) => AminoAcid::Stop,
    }
}

impl AminoAcid {
    /// Looks a codon up in the codon table.
    pub fn from_codon(codon: Codon) -> (r: AminoAcid)
        ensures
            r == codon_amino(codon),
    {
        match codon {
            (RNA::G, RNA::C, _) => AminoAcid::A,
            (RNA::U, RNA::G, RNA::U) | (RNA::U, RNA::G, RNA::C) => AminoAcid::C,
            (RNA::G, RNA::A, RNA::U) | (RNA::G, RNA::A, RNA::C) => AminoAcid::D,
            (RNA::G, RNA::A, RNA::A) | (RNA::G, RNA::A, RNA::G) => AminoAcid::E,
            (RNA::U, RNA::U, RNA::U) | (RNA::U, RNA::U, RNA::C) => AminoAcid::F,
            (RNA::G, RNA::G, _) => AminoAcid::G,
            (RNA::C, RNA::A, RNA::U) | (RNA::C, RNA::A, RNA::C) => AminoAcid::H,
            (RNA::A, RNA::U, RNA::U) | (RNA::A, RNA::U, RNA::C) | (RNA::A, RNA::U, RNA::A) => AminoAcid::I,
            (RNA::A, RNA::A, RNA::A) | (RNA::A, RNA::A, RNA::G) => AminoAcid::K,
            (RNA::U, RNA::U, RNA::A) | (RNA::U, RNA::U, RNA::G) | (RNA::C, RNA::U, _) => AminoAcid::L,
            (RNA::A, RNA::U, RNA::G) => AminoAcid::M,
            (RNA::A, RNA::A, RNA::U) | (RNA::A, RNA::A, RNA::C) => AminoAcid::N,
            (RNA::C, RNA::C, _) => AminoAcid::P,
            (RNA::C, RNA::A, RNA::A) | (RNA::C, RNA::A, RNA::G) => AminoAcid::Q,
            (RNA::C, RNA::G, _) | (RNA::A, RNA::G, RNA::A) | (RNA::A, RNA::G, RNA::G) => AminoAcid::R,
            (RNA::U, RNA::C, _) | (RNA::A, RNA::G, RNA::U) | (RNA::A, RNA::G, RNA::C) => AminoAcid::S,
            (RNA::A, RNA::C, _) => AminoAcid::T,
            (RNA::G, RNA::U, _) => AminoAcid::V,
            (RNA::U, RNA::G, RNA::G) => AminoAcid::W,
            (RNA::U, RNA::A, RNA::U) | (RNA::U, RNA::A, RNA::C) => AminoAcid::Y,
            (RNA::U, RNA::A, RNA::A) | (RNA::U, RNA::A, RNA::G) | (RNA::U, RNA::G, RNA::A) => AminoAcid::Stop,
        }
    }
}

} // verus!
