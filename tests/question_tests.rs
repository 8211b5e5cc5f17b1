use rusty_rosalind::dna::DNA;
use rusty_rosalind::dna_string::DNAString;
use rusty_rosalind::rna::RNA;
use rusty_rosalind::strands::Strand;

#[test]
fn question_tests_test_dna_question() {
    let parsed = "ATGCTTCAGAAAGGTCTTACG".parse::<Strand<DNA>>().unwrap();
    let results = parsed.count_nucleotides();
    assert_eq!(results, vec![(DNA::A, 6), (DNA::C, 4), (DNA::G, 5), (DNA::T, 6)]);
}

#[test]
fn test_rna_question() {
    let dna_strand = "GATGGAACTTGACTACGTAAATT".parse::<Strand<DNA>>().unwrap();
    let expected = "GAUGGAACUUGACUACGUAAAUU".parse::<Strand<RNA>>().unwrap();
    let rna_strand: Strand<RNA> = dna_strand.transcribe();
    assert_eq!(rna_strand, expected);
}

#[test]
fn test_dna_question_test_dna_question() {
    let results = DNAString::from_str("ATGCTTCAGAAAGGTCTTACG")
        .unwrap()
        .count_nucleotides();
    assert_eq!(results, vec![(DNA::A, 6), (DNA::C, 4), (DNA::G, 5), (DNA::T, 6)]);
}

#[test]
fn dna_string_test_count_nucleotides() {
    let dna_string = DNAString::new(vec![
        DNA::A,
        DNA::C,
        DNA::C,
        DNA::G,
        DNA::G,
        DNA::G,
        DNA::T,
        DNA::T,
        DNA::T,
        DNA::T,
    ]);
    let results = dna_string.count_nucleotides();
    assert_eq!(results[0], (DNA::A, 1));
    assert_eq!(results[1], (DNA::C, 2));
    assert_eq!(results[2], (DNA::G, 3));
    assert_eq!(results[3], (DNA::T, 4));
}

#[test]
fn dna_string_rejects_unknown_bases() {
    assert_eq!(DNAString::from_str("ACGN"), Err('N'));
}
