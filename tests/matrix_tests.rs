use rusty_rosalind::dna::DNA;
use rusty_rosalind::fasta::Fasta;
use rusty_rosalind::matrix::Matrix;
use rusty_rosalind::strands::Strand;

fn record(name: &str, strand: &str) -> Fasta<DNA> {
    Fasta {
        name: name.to_string(),
        strand: Strand::parse(strand).unwrap(),
    }
}

fn get_test_records() -> Vec<Fasta<DNA>> {
    vec![
        record("Rosalind_1", "ATCCAGCT"),
        record("Rosalind_2", "GGGCAACT"),
        record("Rosalind_3", "ATGGATCT"),
        record("Rosalind_4", "AAGCAACC"),
        record("Rosalind_5", "TTGGAACT"),
        record("Rosalind_6", "ATGCCATT"),
        record("Rosalind_7", "ATGGCACT"),
    ]
}

#[test]
fn test_profile() {
    let actual = Matrix::new(get_test_records()).profile();
    assert_eq!(actual.len(), 8);
    assert_eq!(actual.row(&DNA::A), vec![5, 1, 0, 0, 5, 5, 0, 0]);
    assert_eq!(actual.row(&DNA::C), vec![0, 0, 1, 4, 2, 0, 6, 1]);
    assert_eq!(actual.row(&DNA::G), vec![1, 1, 6, 3, 0, 1, 0, 0]);
    assert_eq!(actual.row(&DNA::T), vec![1, 5, 0, 0, 0, 1, 1, 6]);
}

#[test]
fn test_consensus() {
    let expected: Strand<DNA> = Strand::parse("ATGCAACT").unwrap();
    let actual = Matrix::new(get_test_records()).consensus();
    assert_eq!(expected, actual);
}

#[test]
fn profile_columns_add_up_to_the_number_of_records() {
    let profile = Matrix::new(get_test_records()).profile();
    for i in 0..profile.len() {
        let total: usize = [DNA::A, DNA::C, DNA::G, DNA::T]
            .iter()
            .map(|n| profile.row(n)[i])
            .sum();
        assert_eq!(total, 7);
    }
}

#[test]
fn consensus_ties_go_to_the_first_symbol() {
    let m = Matrix::new(vec![record("a", "TGCA"), record("b", "GTAC")]);
    assert_eq!(m.consensus().to_string(), "GGAA");
}

#[test]
fn empty_matrix_has_an_empty_profile() {
    let m: Matrix<DNA> = Matrix::new(vec![]);
    let p = m.profile();
    assert_eq!(p.len(), 0);
    assert_eq!(p.row(&DNA::G), Vec::<usize>::new());
    assert_eq!(m.consensus().len(), 0);
}

#[test]
fn profile_text_has_one_line_per_symbol() {
    let p = Matrix::new(get_test_records()).profile();
    assert_eq!(
        p.to_string(),
        "A: 5 1 0 0 5 5 0 0\nC: 0 0 1 4 2 0 6 1\nG: 1 1 6 3 0 1 0 0\nT: 1 5 0 0 0 1 1 6\n"
    );
    let big = Matrix::new((0..12).map(|_| record("x", "A")).collect()).profile();
    assert_eq!(big.to_string(), "A: 12\nC: 0\nG: 0\nT: 0\n");
}
