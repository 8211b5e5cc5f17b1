use rusty_rosalind::dna::DNA;
use rusty_rosalind::nucleotides::{same_symbol, Complementable, Nucleotide};
use rusty_rosalind::protein::AminoAcid;
use rusty_rosalind::rna::RNA;
use rusty_rosalind::strands::Strand;

fn dna(s: &str) -> Strand<DNA> {
    Strand::parse(s).unwrap()
}

#[test]
fn test_compliment_a() {
    assert_eq!(DNA::A.compliment(), DNA::T);
    assert_eq!(DNA::A.compliment().compliment(), DNA::A);
}

#[test]
fn test_compliment_c() {
    assert_eq!(DNA::C.compliment(), DNA::G);
    assert_eq!(DNA::C.compliment().compliment(), DNA::C);
}

#[test]
fn rna_complements_pair_up() {
    assert_eq!(RNA::A.compliment(), RNA::U);
    assert_eq!(RNA::U.compliment(), RNA::A);
    assert_eq!(RNA::G.compliment(), RNA::C);
}

fn count_test_strand() -> Strand<DNA> {
    Strand::new(vec![
        DNA::A,
        DNA::C,
        DNA::C,
        DNA::G,
        DNA::G,
        DNA::G,
        DNA::T,
        DNA::T,
        DNA::T,
        DNA::T,
    ])
}

#[test]
fn strands_test_count_nucleotides() {
    let results = count_test_strand().count_nucleotides();
    assert_eq!(results[0], (DNA::A, 1));
    assert_eq!(results[1], (DNA::C, 2));
    assert_eq!(results[2], (DNA::G, 3));
    assert_eq!(results[3], (DNA::T, 4));
}

#[test]
fn mod_test_count_nucleotides() {
    let results = count_test_strand().count_nucleotides();
    assert_eq!(results[0], (DNA::A, 1));
    assert_eq!(results[1], (DNA::C, 2));
    assert_eq!(results[2], (DNA::G, 3));
    assert_eq!(results[3], (DNA::T, 4));
}

#[test]
fn count_nucleotides_reports_absent_symbols_as_zero() {
    let results = dna("AAT").count_nucleotides();
    assert_eq!(results, vec![(DNA::A, 2), (DNA::C, 0), (DNA::G, 0), (DNA::T, 1)]);
    let empty: Strand<DNA> = Strand::new(vec![]);
    assert_eq!(
        empty.count_nucleotides(),
        vec![(DNA::A, 0), (DNA::C, 0), (DNA::G, 0), (DNA::T, 0)]
    );
}

#[test]
fn strands_test_reverse_compliment() {
    let dna_string = dna("AAAACCCGGT");
    let expected = dna("ACCGGGTTTT");
    assert_eq!(dna_string.reverse_compliment(), expected);
}

#[test]
fn mod_test_reverse_compliment() {
    let dna_string = dna("AAAACCCGGT");
    let expected = dna("ACCGGGTTTT");
    assert_eq!(dna_string.reverse_compliment(), expected);
}

#[test]
fn reverse_compliment_twice_gives_the_strand_back() {
    let s = dna("GATTACAGGC");
    assert_eq!(s.reverse_compliment().reverse_compliment(), s);
    let empty: Strand<DNA> = Strand::new(vec![]);
    assert_eq!(empty.reverse_compliment(), empty);
}

#[test]
fn parse_then_display_round_trips() {
    for text in ["", "A", "ACGTTGCA", "GATATATGCATATACTT"] {
        assert_eq!(dna(text).to_string(), text);
    }
    let protein: Strand<AminoAcid> = Strand::parse("MAW*").unwrap();
    assert_eq!(protein.to_string(), "MAW*");
    assert_eq!(protein.get(3), AminoAcid::Stop);
}

#[test]
fn parse_reports_the_first_unrecognized_character() {
    assert_eq!(Strand::<DNA>::parse("ACXGZ"), Err('X'));
    assert_eq!(Strand::<DNA>::parse("ACGU"), Err('U'));
    assert_eq!(Strand::<RNA>::parse("ACGT"), Err('T'));
    assert_eq!(DNA::try_from_char('q'), Err('q'));
    assert_eq!(AminoAcid::try_from_char('*'), Ok(AminoAcid::Stop));
}

#[test]
fn test_substrs() {
    let strand_1 = dna("GATATATGCATATACTT");
    let strand_2 = dna("ATAT");
    assert_eq!(strand_2.substrings(&strand_1), vec![1, 3, 9]);
}

#[test]
fn substrings_include_an_occurrence_at_the_very_end() {
    assert_eq!(dna("AT").substrings(&dna("GAT")), vec![1]);
    assert_eq!(dna("GAT").substrings(&dna("GAT")), vec![0]);
    assert_eq!(dna("GATT").substrings(&dna("GAT")), Vec::<usize>::new());
    assert_eq!(dna("AA").substrings(&dna("AAAA")), vec![0, 1, 2]);
}

#[test]
fn is_substr_starting_at_str_1_longer() {
    let strand_1 = dna("GATATATGCATATACTT");
    let strand_2 = dna("ATAT");
    assert!(!strand_1.is_substr_starting_from(&strand_2, 0));
}

#[test]
fn is_substr_starting_at_wrong_index() {
    let strand_1 = dna("ATAT");
    let strand_2 = dna("GATATATGCATATACTT");
    assert!(!strand_1.is_substr_starting_from(&strand_2, 0));
}

#[test]
fn is_substr_starting_at_right_index() {
    let strand_1 = dna("ATAT");
    let strand_2 = dna("GATATATGCATATACTT");
    assert!(strand_1.is_substr_starting_from(&strand_2, 1));
    assert!(!strand_1.is_substr_starting_from(&strand_2, usize::MAX));
}

#[test]
fn test_distance() {
    let strand_1 = dna("GAGCCTACTAACGGGAT");
    let strand_2 = dna("CATCGTAATGACGGCCT");
    assert_eq!(strand_1.distance(&strand_2), 7);
}

#[test]
fn distance_is_symmetric_and_zero_to_itself() {
    let a = dna("GAGCCTACTAACGGGAT");
    let b = dna("CATCGTAATGACGGCCT");
    assert_eq!(a.distance(&b), b.distance(&a));
    assert_eq!(a.distance(&a), 0);
    assert_eq!(dna("").distance(&dna("")), 0);
}

#[test]
fn overlaps() {
    assert!(dna("AAATAAA").overlaps_with_length(&dna("AAATTTT"), 3));
}

#[test]
fn no_overlap() {
    assert!(!dna("AAATAAA").overlaps_with_length(&dna("AAATTTT"), 4));
}

#[test]
fn length_zero() {
    assert!(!dna("AAATAAA").overlaps_with_length(&dna("AAATTTT"), 0));
}

#[test]
fn length_too_long() {
    assert!(!dna("AAATAAA").overlaps_with_length(&dna("AAATTTT"), 10));
}

#[test]
fn concat_push_and_extend() {
    let mut s = dna("AC").concat(&dna("GT"));
    assert_eq!(s, dna("ACGT"));
    s.push(DNA::A);
    assert_eq!(s.len(), 5);
    s.extend(&dna("CC"));
    assert_eq!(s.to_string(), "ACGTACC");
}

#[test]
fn gc_count_counts_g_and_c() {
    assert_eq!(dna("AGCTTC").gc_count(), 3);
    assert_eq!(dna("").gc_count(), 0);
    let s = dna("CCACCCTCGTGGTATGGCTAGGCATTCAGGAACCGGAGAACGCTTCAGACCAGCCCGGACTGGGAACCTGCGGGCAGTAGGTGGAAT");
    assert_eq!(s.gc_count(), 53);
    assert_eq!(s.len(), 87);
}

#[test]
fn symbol_helpers() {
    assert!(same_symbol(&DNA::G, &DNA::G));
    assert!(!same_symbol(&DNA::G, &DNA::C));
    assert_eq!(AminoAcid::alphabet().len(), 21);
    assert_eq!(AminoAcid::Stop.index(), 20);
    assert_eq!(RNA::U.to_char(), 'U');
}
