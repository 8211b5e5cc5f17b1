use rusty_rosalind::dna::DNA;
use rusty_rosalind::dna_chain::DNAChain;
use rusty_rosalind::fasta::{highest_gc_content, overlap_pairs, Fasta};
use rusty_rosalind::motif::{motif_to_regex, Motif};
use rusty_rosalind::protein::AminoAcid;
use rusty_rosalind::record::{ParseRecordError, Record};
use rusty_rosalind::strands::Strand;

fn record(name: &str, strand: &str) -> Fasta<DNA> {
    Fasta {
        name: name.to_string(),
        strand: Strand::parse(strand).unwrap(),
    }
}

#[test]
fn parse_records_reads_every_record() {
    let records = Record::parse_records("junk\n>a\nACGT\nAA\n>b\n TT \n").unwrap();
    assert_eq!(records.len(), 2);
    assert_eq!(records[0].name, "a");
    assert_eq!(records[0].dna_string, DNAChain::parse_str("ACGTAA").unwrap());
    assert_eq!(records[1].name, "b");
    assert_eq!(records[1].dna_string.to_string(), "TT");
    assert!(Record::parse_records("").unwrap().is_empty());
}

#[test]
fn parse_records_reports_unknown_bases() {
    let err = Record::parse_records(">a\nACXT\n").unwrap_err();
    assert_eq!(err.message(), "Unrecognized base: X");
}

#[test]
fn record_from_str_needs_a_header() {
    assert_eq!(Record::from_str("").unwrap_err().message(), "Expected a non-empty string");
    assert_eq!(
        Record::from_str("ACGT").unwrap_err().message(),
        "First line of a record must start with a '>', received A"
    );
    assert_eq!(Record::parse_name(">x").unwrap(), "x");
    assert_eq!(ParseRecordError::new("m").message(), "m");
    let r = Record::from_str(">name\r\nAC\r\nGT").unwrap();
    assert_eq!(r.name, "name");
    assert_eq!(r.dna_string.to_string(), "ACGT");
}

#[test]
fn test_matches() {
    let m = Motif::new("N{P}[ST]{P}").unwrap();
    let strand = "MKNKFKTQEELVNHLKTVGFVFANSEIYNGLANAWDYGPLGVLLKNNLKNLWWKEFVTKQKDVVGLDSAIILNPLVWKASGHLDNFSDPLIDCKNCKARYRADKLIESFDENIHIAENSSNEEFAKVLNDYEISCPTCKQFNWTEIRHFNLMFKTYQGVIEDAKNVVYLRPETAQGIFVNFKNVQRSMRLHLPFGIAQIGKSFRNEITPGNFIFRTREFEQMEIEFFLKEESAYDIFDKYLNQIENWLVSACGLSLNNLRKHEHPKEELSHYSKKTIDFEYNFLHGFSELYGIAYRTNYDLSVHMNLSKKDLTYFDEQTKEKYVPHVIEPSVGVERLLYAILTEATFIEKLENDDERILMDLKYDLAPYKIAVMPLVNKLKDKAEEIYGKILDLNISATFDNSGSIGKRYRRQDAIGTIYCLTIDFDSLDDQQDPSFTIRERNSMAQKRIKLSELPLYLNQKAHEDFQRQCQK";
    let mut it = m.matches(strand);
    let mut matches: Vec<usize> = vec![];
    while let Some(p) = it.next() {
        matches.push(p);
    }
    assert_eq!(matches, vec![84, 117, 141, 305, 394]);
}

#[test]
fn motif_rewriting() {
    assert_eq!(motif_to_regex("{P}"), "[^P]");
    assert_eq!(motif_to_regex("P"), "P");
    assert_eq!(motif_to_regex("{P}{A}"), "[^P][^A]");
    assert_eq!(motif_to_regex("{p}{"), "{p}{");
    assert_eq!(Motif::new("N{P}[ST]{P}").unwrap().as_str(), "N[^P][ST][^P]");
    assert!(Motif::new("[").is_err());
}

#[test]
fn overlapping_motif_matches_are_found() {
    let m = Motif::new("AA").unwrap();
    let mut it = m.matches("AAAA");
    let mut found = vec![];
    while let Some(p) = it.next() {
        found.push(p);
    }
    assert_eq!(found, vec![0, 1, 2]);
}

#[test]
fn reverse_translation_count_modulo() {
    let mut protein: Strand<AminoAcid> = Strand::parse("MA").unwrap();
    protein.push(AminoAcid::Stop);
    assert_eq!(protein.reverse_translation_count(1_000_000), 12);
    let long: Strand<AminoAcid> = Strand::parse("LLLLLLLLLL").unwrap();
    assert_eq!(long.reverse_translation_count(1_000_000), 60_466_176 % 1_000_000);
    assert_eq!(long.reverse_translation_count(1), 0);
}

#[test]
fn highest_gc_content_picks_the_first_best() {
    let records = vec![
        record("Rosalind_6404", "CCTGCGGAAGATCGGCACTAGAATAGCCAGAACCGTTTCTCTGAGGCTTCCGGCCTTCCCTCCCACTAATAATTCTGAGG"),
        record("Rosalind_5959", "CCATCGGTAGCGCATCCTTAGTCCAATTAAGTCCCTATCCAGGCGCTCCGCCGAAGGTCTATATCCATTTGTCAGCAGACACGC"),
        record("Rosalind_0808", "CCACCCTCGTGGTATGGCTAGGCATTCAGGAACCGGAGAACGCTTCAGACCAGCCCGGACTGGGAACCTGCGGGCAGTAGGTGGAAT"),
    ];
    assert_eq!(highest_gc_content(&records), Some(2));
    let ties = vec![record("e", ""), record("a", "GA"), record("b", "CT"), record("c", "AT")];
    assert_eq!(highest_gc_content(&ties), Some(1));
    assert_eq!(highest_gc_content(&vec![record("e", "")]), None);
}

#[test]
fn overlap_graph_pairs() {
    let records = vec![
        record("Rosalind_0498", "AAATAAA"),
        record("Rosalind_2391", "AAATTTT"),
        record("Rosalind_2323", "TTTTCCC"),
        record("Rosalind_0442", "AAATCCC"),
        record("Rosalind_5013", "GGGTGGG"),
    ];
    assert_eq!(overlap_pairs(&records, 3), vec![(0, 1), (0, 3), (1, 2)]);
    let same = vec![record("x", "AAA"), record("y", "AAA")];
    assert_eq!(overlap_pairs(&same, 3), vec![(0, 1), (1, 0)]);
}
