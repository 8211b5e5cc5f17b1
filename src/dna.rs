//! The four DNA bases.

use vstd::prelude::*;

use crate::nucleotides::{Complementable, Nucleotide};

verus! {

#[derive(Clone, Copy, Debug, PartialEq, Eq, Structural, PartialOrd, Ord, Hash)]
pub enum DNA {
    A,
    C,
    G,
    T,
}

impl Nucleotide for DNA {
    open spec fn rank(self) -> nat {
        match self {
            DNA::A => 0,
            DNA::C => 1,
            DNA::G => 2,
            DNA::T => 3,
        }
    }

    open spec fn alphabet_size() -> nat {
        4
    }

    open spec fn symbol_char(self) -> char {
        match self {
            DNA::A => 'A',
            DNA::C => 'C',
            DNA::G => 'G',
            DNA::T => 'T',
        }
    }

    open spec fn from_char_spec(c: char) -> Option<DNA> {
        if c == 'A' {
            Some(DNA::A)
        } else if c == 'C' {
            Some(DNA::C)
        } else if c == 'G' {
            Some(DNA::G)
        } else if c == 'T' {
            Some(DNA::T)
        } else {
            None
        }
    }

    proof fn lemma_rank_bounded(a: DNA) {
    }

    proof fn lemma_rank_injective(a: DNA, b: DNA) {
    }

    proof fn lemma_char_round_trip(a: DNA) {
    }

    proof fn lemma_parsed_char(c: char) {
    }

    fn try_from_char(c: char) -> (r: Result<DNA, char>) {
        match c {
            'A' => Ok(DNA::A),
            'C' => Ok(DNA::C),
            'G' => Ok(DNA::G),
            'T' => Ok(DNA::T),
            _ => Err(c),
        }
    }

    fn to_char(&self) -> (c: char) {
        match self {
            DNA::A => 'A',
            DNA::C => 'C',
            DNA::G => 'G',
            DNA::T => 'T',
        }
    }

    fn index(&self) -> (r: usize) {
        match self {
            DNA::A => 0,
            DNA::C => 1,
            DNA::G => 2,
            DNA::T => 3,
        }
    }

    fn alphabet() -> (r: Vec<DNA>) {
        vec![DNA::A, DNA::C, DNA::G, DNA::T]
    }
}

impl Complementable for DNA {
    open spec fn complement_spec(self) -> DNA {
        match self {
            DNA::A => DNA::T,
            DNA::T => DNA::A,
            DNA::C => DNA::G,
            DNA::G => DNA::C,
        }
    }

    proof fn lemma_complement_involutive(a: DNA) {
    }

    fn compliment(&self) -> (r: DNA) {
        match self {
            DNA::A => DNA::T,
            DNA::T => DNA::A,
            DNA::C => DNA::G,
            DNA::G => DNA::C,
        }
    }
}

} // verus!
