use rusty_rosalind::dna::DNA;
use rusty_rosalind::fasta::{
    lines_well_formed, parse_name, read_records, read_records_from_result_lines, Fasta,
};
use rusty_rosalind::matrix::Matrix;

#[test]
fn test_from() {
    let result: Fasta<DNA> = Fasta::from_lines(&[
        ">Rosalind_6404",
        "CCTGCGGAAGATCGGCACTAGAATAGCCAGAACCGTTTCTCTGAGGCTTCCGGCCTTCCC",
        "TCCCACTAATAATTCTGAGG",
    ]);
    assert_eq!(result.name, "Rosalind_6404");
    assert_eq!(
        result.strand.to_string(),
        "CCTGCGGAAGATCGGCACTAGAATAGCCAGAACCGTTTCTCTGAGGCTTCCGGCCTTCCCTCCCACTAATAATTCTGAGG"
    );
}

fn three_records() -> Vec<&'static str> {
    vec![
        ">Rosalind_6404",
        "CCTGCGGAAGATCGGCACTAGAATAGCCAGAACCGTTTCTCTGAGGCTTCCGGCCTTCCC",
        "TCCCACTAATAATTCTGAGG",
        ">Rosalind_5959",
        "CCATCGGTAGCGCATCCTTAGTCCAATTAAGTCCCTATCCAGGCGCTCCGCCGAAGGTCT",
        "ATATCCATTTGTCAGCAGACACGC",
        ">Rosalind_0808",
        "CCACCCTCGTGGTATGGCTAGGCATTCAGGAACCGGAGAACGCTTCAGACCAGCCCGGAC",
        "TGGGAACCTGCGGGCAGTAGGTGGAAT",
    ]
}

#[test]
fn test_read_records() {
    let records: Vec<Fasta<DNA>> = read_records(&three_records());
    assert_eq!(records.len(), 3);
    assert_eq!(records[0].name, "Rosalind_6404");
}

#[test]
fn read_records_joins_the_lines_of_each_record() {
    let records: Vec<Fasta<DNA>> = read_records(&three_records());
    assert_eq!(records[1].name, "Rosalind_5959");
    assert_eq!(
        records[1].strand.to_string(),
        "CCATCGGTAGCGCATCCTTAGTCCAATTAAGTCCCTATCCAGGCGCTCCGCCGAAGGTCTATATCCATTTGTCAGCAGACACGC"
    );
    assert_eq!(records[2].strand.len(), 87);
}

#[test]
fn read_records_of_no_lines_is_empty() {
    let records: Vec<Fasta<DNA>> = read_records(&[]);
    assert!(records.is_empty());
    let records: Vec<Fasta<DNA>> = read_records(&[">only_a_name"]);
    assert_eq!(records.len(), 1);
    assert_eq!(records[0].strand.len(), 0);
}

#[test]
fn well_formedness_of_lines() {
    assert!(lines_well_formed::<DNA>(&three_records()));
    assert!(lines_well_formed::<DNA>(&[]));
    assert!(!lines_well_formed::<DNA>(&["ACGT"]));
    assert!(!lines_well_formed::<DNA>(&[">x", "ACGU"]));
    assert_eq!(parse_name(">abc"), "abc");
}

#[test]
fn read_records_from_lines_read_from_a_file() {
    let lines: Vec<Result<String, ()>> = vec![
        Ok(">a".to_string()),
        Ok("AC".to_string()),
        Ok("GT".to_string()),
        Ok(">b".to_string()),
        Ok("TT".to_string()),
    ];
    let records: Vec<Fasta<DNA>> = read_records_from_result_lines(&lines);
    assert_eq!(records.len(), 2);
    assert_eq!(records[0].strand.to_string(), "ACGT");
    assert_eq!(records[1].name, "b");
    let matrix: Matrix<DNA> = Matrix::new_from_file_lines(&vec![
        Ok::<String, ()>(">a".to_string()),
        Ok(">b".to_string()),
    ]);
    assert_eq!(matrix.records.len(), 2);
}
