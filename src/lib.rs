//! Biological sequence types over fixed alphabets and the algorithms that
//! work on them: complement, transcription, translation, comparison,
//! profiles and reverse translation.

pub mod args;
pub mod dna;
pub mod dna_chain;
pub mod dna_string;
pub mod fasta;
pub mod matrix;
pub mod motif;
pub mod nucleotides;
pub mod phenotype;
pub mod protein;
pub mod rabbits;
pub mod record;
pub mod reverse_translation;
pub mod rna;
pub mod strands;
pub mod text;
pub mod translation;

pub use dna::DNA;
pub use protein::AminoAcid;
pub use rna::RNA;
pub use strands::Strand;
