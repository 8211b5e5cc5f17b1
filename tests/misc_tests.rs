use rusty_rosalind::args::TwoStrandsArgs;
use rusty_rosalind::dna::DNA;
use rusty_rosalind::dna_chain::{DNAChain, RNAChain};
use rusty_rosalind::phenotype::Phenotype::{
    Heterozygous, HomozygousDominant, HomozygousRecessive,
};
use rusty_rosalind::phenotype::{expected_dominant_quarters, mendel_dominant_ratio, PhenotypeCombinator};
use rusty_rosalind::rabbits::Rabbits;
use rusty_rosalind::rna::RNA;

#[test]
fn test_rabbits_with_offspring() {
    let mut rabbits = Rabbits::new_with_offsping(3);
    assert_eq!(rabbits.nth(4), Some(19));
}

#[test]
fn test_rabbits_with_max_age() {
    let mut rabbits = Rabbits::new_with_max_age(3);
    assert_eq!(rabbits.nth(5), Some(4));
}

#[test]
fn rabbits_follow_fibonacci() {
    let mut rabbits = Rabbits::new(None, None);
    let seen: Vec<Option<u128>> = (0..8).map(|_| rabbits.next()).collect();
    let expected: Vec<Option<u128>> = [1, 1, 2, 3, 5, 8, 13, 21].iter().map(|v| Some(*v)).collect();
    assert_eq!(seen, expected);
}

#[test]
fn rabbits_stop_when_numbers_no_longer_fit() {
    let mut rabbits = Rabbits::new_with_offsping(255);
    assert_eq!(rabbits.nth(200), None);
}

#[test]
fn phenotype_probabilities_in_quarters() {
    assert_eq!(PhenotypeCombinator::new(HomozygousDominant, HomozygousRecessive).dominant_quarters(), 4);
    assert_eq!(PhenotypeCombinator::new(Heterozygous, Heterozygous).dominant_quarters(), 3);
    assert_eq!(PhenotypeCombinator::new(HomozygousRecessive, Heterozygous).dominant_quarters(), 2);
    assert_eq!(PhenotypeCombinator::new(HomozygousRecessive, HomozygousRecessive).dominant_quarters(), 0);
    assert_eq!(PhenotypeCombinator::new(Heterozygous, Heterozygous).recessive_quarters(), 1);
}

#[test]
fn parse_strands_reads_both() {
    let args = TwoStrandsArgs {
        strand_1: "GAGC".to_string(),
        strand_2: "CATC".to_string(),
    };
    let (a, b) = args.parse_strands::<DNA>().unwrap();
    assert_eq!(a.distance(&b), 2);
    let bad = TwoStrandsArgs {
        strand_1: "GAGC".to_string(),
        strand_2: "CAXC".to_string(),
    };
    assert_eq!(bad.parse_strands::<DNA>().err(), Some('X'));
}

#[test]
fn dna_chain_parses_trimmed_text() {
    let parsed_chain = DNAChain::parse_str("ACTG").unwrap();
    assert_eq!(parsed_chain, DNAChain::new(vec![DNA::A, DNA::C, DNA::T, DNA::G]));
    assert_eq!(DNAChain::parse_str("  ACTG\n").unwrap().to_string(), "ACTG");
    assert_eq!(DNAChain::parse_str("X"), Err('X'));
}

#[test]
fn dna_chain_reverse_compliment_and_append() {
    let rev = DNAChain::new(vec![DNA::C, DNA::A, DNA::G, DNA::T]).reverse_compliment();
    assert_eq!(rev, DNAChain::new(vec![DNA::A, DNA::C, DNA::T, DNA::G]));
    let mut chain1 = DNAChain::new(vec![DNA::A, DNA::C, DNA::T, DNA::G]);
    chain1.append(DNAChain::new(vec![DNA::A, DNA::C, DNA::T, DNA::G]));
    assert_eq!(chain1.to_string(), "ACTGACTG");
    assert_eq!(chain1.gc_count(), 4);
    assert_eq!(chain1.len(), 8);
}

#[test]
fn rna_chain_transcribes_dna() {
    let rna = RNAChain::from_dna(DNAChain::parse_str("GATTACA").unwrap());
    assert_eq!(rna.to_string(), "GAUUACA");
    assert_eq!(rna, RNAChain::new(vec![RNA::G, RNA::A, RNA::U, RNA::U, RNA::A, RNA::C, RNA::A]));
}

#[test]
fn expected_dominant_offspring() {
    let groups = vec![
        (PhenotypeCombinator::new(HomozygousDominant, HomozygousDominant), 1),
        (PhenotypeCombinator::new(HomozygousDominant, Heterozygous), 0),
        (PhenotypeCombinator::new(HomozygousDominant, HomozygousRecessive), 0),
        (PhenotypeCombinator::new(Heterozygous, Heterozygous), 1),
        (PhenotypeCombinator::new(Heterozygous, HomozygousRecessive), 0),
        (PhenotypeCombinator::new(HomozygousRecessive, HomozygousRecessive), 1),
    ];
    assert_eq!(expected_dominant_quarters(&groups, 2), 14);
}

#[test]
fn mendel_first_law() {
    assert_eq!(mendel_dominant_ratio(2, 2, 2), (94, 120));
    assert_eq!(mendel_dominant_ratio(0, 0, 2), (0, 8));
    assert_eq!(mendel_dominant_ratio(2, 0, 0), (8, 8));
}
