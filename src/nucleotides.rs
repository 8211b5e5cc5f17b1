//! The symbol model: what every alphabet offers, and the capabilities that
//! only some alphabets have.

use vstd::prelude::*;

pub use crate::dna::DNA;
pub use crate::protein::AminoAcid;
pub use crate::rna::RNA;

verus! {

/// A member of a closed alphabet, with a one-character text form.
///
/// Amino acids count as "nucleotides" here for convenience: every alphabet of
/// the library shares this interface.
pub trait Nucleotide: Sized + Copy {
    /// Position of the symbol in its alphabet's enumeration order.
    spec fn rank(self) -> nat;

    /// Number of members of the alphabet.
    spec fn alphabet_size() -> nat;

    /// The character that displays the symbol.
    spec fn symbol_char(self) -> char;

    /// The member that a character stands for, if it stands for one.
    spec fn from_char_spec(c: char) -> Option<Self>;

    proof fn lemma_rank_bounded(a: Self)
        ensures
            a.rank() < Self::alphabet_size(),
    ;

    proof fn lemma_rank_injective(a: Self, b: Self)
        ensures
            a.rank() == b.rank() ==> a == b,
    ;

    proof fn lemma_char_round_trip(a: Self)
        ensures
            Self::from_char_spec(a.symbol_char()) == Some(a),
    ;

    proof fn lemma_parsed_char(c: char)
        ensures
            Self::from_char_spec(c) is Some ==> Self::from_char_spec(c)->0.symbol_char() == c,
    ;

    /// Reads a symbol from its character; the character comes back when it
    /// is no member of the alphabet.
    fn try_from_char(c: char) -> (r: Result<Self, char>)
        ensures
            match r {
                Ok(a) => Self::from_char_spec(c) == Some(a),
                Err(e) => e == c && Self::from_char_spec(c) is None,
            },
    ;

    fn to_char(&self) -> (c: char)
        ensures
            c == self.symbol_char(),
    ;

    fn index(&self) -> (r: usize)
        ensures
            r == self.rank(),
    ;

    /// Every member of the alphabet, in enumeration order.
    fn alphabet() -> (r: Vec<Self>)
        ensures
            r@.len() == Self::alphabet_size(),
            forall|i: int| 0 <= i < r@.len() ==> (#[trigger] r@[i]).rank() == i,
    ;
}

/// Alphabets whose members pair up: the pairing is its own inverse.
pub trait Complementable: Nucleotide {
    spec fn complement_spec(self) -> Self;

    proof fn lemma_complement_involutive(a: Self)
        ensures
            a.complement_spec().complement_spec() == a,
    ;

    /// Returns the paired member.
    fn compliment(&self) -> (r: Self)
        ensures
            r == self.complement_spec(),
    ;
}

/// Alphabets that can be transcribed, member by member, from alphabet `T`.
pub trait Transcribable<T: Nucleotide>: Nucleotide {
    spec fn transcribed(from: T) -> Self;

    fn transcribe_from(from: &T) -> (r: Self)
        ensures
            r == Self::transcribed(*from),
    ;
}

/// Two symbols are equal exactly when their ranks are.
pub fn same_symbol<T: Nucleotide>(a: &T, b: &T) -> (r: bool)
    ensures
        r == (*a == *b),
{
    proof {
        T::lemma_rank_injective(*a, *b);
    }
    a.index() == b.index()
}

} // verus!
