//! The inputs of the command-line programs, as plain values.

use vstd::prelude::*;

use crate::nucleotides::Nucleotide;
use crate::strands::{all_valid, first_invalid, parsed, Strand};

verus! {

/// A single strand given as text.
pub struct StrandOnlyArgs {
    pub strand: String,
}

/// Two strands given as text.
pub struct TwoStrandsArgs {
    pub strand_1: String,
    pub strand_2: String,
}

/// The name of an input file.
pub struct FileArgs {
    pub filename: String,
}

impl TwoStrandsArgs {
    /// Reads both strands; the first character that is no symbol of the
    /// alphabet, in the first strand and then in the second, is the error.
    pub fn parse_strands<T: Nucleotide>(&self) -> (r: Result<(Strand<T>, Strand<T>), char>)
        ensures
            match r {
                Ok((a, b)) => {
                    &&& all_valid::<T>(self.strand_1@)
                    &&& all_valid::<T>(self.strand_2@)
                    &&& a@ == parsed::<T>(self.strand_1@)
                    &&& b@ == parsed::<T>(self.strand_2@)
                },
                Err(c) => {
                    ||| exists|i: int| first_invalid::<T>(self.strand_1@, i) && c == self.strand_1@[i]
                    ||| all_valid::<T>(self.strand_1@) && exists|i: int|
                        first_invalid::<T>(self.strand_2@, i) && c == self.strand_2@[i]
                },
            },
    {
        let strand_1 = match Strand::<T>::parse(self.strand_1.as_str()) {
            Ok(s) => s,
            Err(c) => {
                return Err(c);
            },
        };
        let strand_2 = match Strand::<T>::parse(self.strand_2.as_str()) {
            Ok(s) => s,
            Err(c) => {
                return Err(c);
            },
        };
        Ok((strand_1, strand_2))
    }
}

} // verus!
