use rusty_rosalind::nucleotides::Nucleotide;
use rusty_rosalind::protein::AminoAcid;
use rusty_rosalind::rna::RNA;
use rusty_rosalind::strands::Strand;
use rusty_rosalind::translation::translate_each_codon;

fn rna(s: &str) -> Strand<RNA> {
    Strand::parse(s).unwrap()
}

fn protein(s: &str) -> Strand<AminoAcid> {
    Strand::parse(s).unwrap()
}

#[test]
fn test_from_rna_strand() {
    let rna_strand = rna("AUGGCCAUGGCGCCCAGAACUGAGAUCAAUAGUACCCGUAUUAACGGGUGA");
    let actual = Strand::from_rna(&rna_strand);
    let expected = protein("MAMAPRTEINSTRING");
    assert_eq!(actual, expected);
}

#[test]
fn translation_skips_to_the_first_methionine() {
    assert_eq!(Strand::from_rna(&rna("GCCAUGUGGUAAGCC")).to_string(), "MW");
}

#[test]
fn translation_without_start_is_empty() {
    assert_eq!(Strand::from_rna(&rna("GCCUGGUAA")).len(), 0);
    assert_eq!(Strand::from_rna(&rna("")).len(), 0);
}

#[test]
fn translation_without_stop_runs_to_the_end() {
    assert_eq!(Strand::from_rna(&rna("AUGGCC")).to_string(), "MA");
}

#[test]
fn each_codon_is_looked_up() {
    let all = translate_each_codon(&rna("UUUUAAAUG"));
    assert_eq!(all, vec![AminoAcid::F, AminoAcid::Stop, AminoAcid::M]);
    assert_eq!(AminoAcid::from_codon((RNA::U, RNA::G, RNA::G)), AminoAcid::W);
    assert_eq!(AminoAcid::from_codon((RNA::C, RNA::U, RNA::A)), AminoAcid::L);
}

#[test]
fn codon_lists_code_for_their_amino_acid() {
    let mut total = 0;
    for a in AminoAcid::alphabet() {
        let codons = RNA::reverse_translations(&a);
        assert!(!codons.is_empty());
        for c in &codons {
            assert_eq!(AminoAcid::from_codon(*c), a);
        }
        total += codons.len();
    }
    assert_eq!(total, 64);
    assert_eq!(RNA::reverse_translations(&AminoAcid::Stop).len(), 3);
}

#[test]
fn test_reverse_translation() {
    let mut iter = Strand::new(vec![AminoAcid::W, AminoAcid::Y, AminoAcid::Stop]).reverse_translations();
    let mut translations: Vec<Strand<RNA>> = vec![];
    while let Some(t) = iter.next() {
        translations.push(t);
    }
    assert_eq!(translations.len(), 6);
}

#[test]
fn reverse_translations_come_in_lexicographic_order() {
    let mut iter = Strand::new(vec![AminoAcid::W, AminoAcid::Y, AminoAcid::Stop]).reverse_translations();
    let mut texts: Vec<String> = vec![];
    while let Some(t) = iter.next() {
        texts.push(t.to_string());
    }
    assert_eq!(
        texts,
        vec![
            "UGGUAUUAA",
            "UGGUAUUAG",
            "UGGUAUUGA",
            "UGGUACUAA",
            "UGGUACUAG",
            "UGGUACUGA",
        ]
    );
    assert_eq!(iter.next(), None);
}

#[test]
fn reverse_translations_are_distinct_and_translate_back() {
    let p = protein("MLS");
    let mut iter = p.reverse_translations();
    let mut seen: Vec<String> = vec![];
    while let Some(t) = iter.next() {
        assert_eq!(t.len(), 9);
        let back = rusty_rosalind::translation::translate_each_codon(&t);
        assert_eq!(back, vec![AminoAcid::M, AminoAcid::L, AminoAcid::S]);
        let text = t.to_string();
        assert!(!seen.contains(&text));
        seen.push(text);
    }
    assert_eq!(seen.len(), 1 * 6 * 6);
}

#[test]
fn empty_protein_has_one_empty_reverse_translation() {
    let mut iter = rusty_rosalind::reverse_translation::RNAReverseTranslations::new(&Strand::new(vec![]));
    assert_eq!(iter.next().map(|s| s.len()), Some(0));
    assert_eq!(iter.next(), None);
}
