use vcf2hapmap::error::{check_write, HapmapError};
use vcf2hapmap::genotype::resolve_genotype;
use vcf2hapmap::hapmap::{
    decode_record, get_header_prefix, header_line, record_line, sample_genotype, VariantRecord,
};
use vcf2hapmap::text::{render_decimal, strip_chrom_prefix};

fn gt(values: &[&str]) -> Option<Vec<Vec<u8>>> {
    Some(values.iter().map(|v| v.as_bytes().to_vec()).collect())
}

fn record(chrom: &str, pos: u64, reference: &str, alts: &[&str], gts: Vec<Option<Vec<Vec<u8>>>>) -> VariantRecord {
    VariantRecord {
        chromosome: chrom.as_bytes().to_vec(),
        position: pos,
        reference: reference.as_bytes().to_vec(),
        alternatives: alts.iter().map(|a| a.as_bytes().to_vec()).collect(),
        genotypes: gts,
    }
}

fn resolve(call: &str) -> Result<String, HapmapError> {
    resolve_genotype(call.as_bytes(), b"A", b"G").map(|v| String::from_utf8(v).unwrap())
}

fn text(line: Vec<u8>) -> String {
    String::from_utf8(line).unwrap()
}

#[test]
fn unphased_heterozygous_call() {
    assert_eq!(resolve("0/1"), Ok("AG".to_string()));
}

#[test]
fn phased_homozygous_alternative_call() {
    assert_eq!(resolve("1|1"), Ok("GG".to_string()));
}

#[test]
fn homozygous_reference_call() {
    assert_eq!(resolve("0/0"), Ok("AA".to_string()));
}

#[test]
fn unknown_allele_index_is_dropped() {
    assert_eq!(resolve("2/0"), Ok("A".to_string()));
    assert_eq!(resolve("./."), Ok(String::new()));
    assert_eq!(resolve("1/10"), Ok("G".to_string()));
}

#[test]
fn call_without_separator_is_uncertain() {
    assert_eq!(resolve("01"), Err(HapmapError::UncertainGenotypeEncoding));
    assert_eq!(resolve(""), Err(HapmapError::UncertainGenotypeEncoding));
}

#[test]
fn slash_takes_priority_over_bar() {
    // Split on '/', so "0|1" is one token that names no allele.
    assert_eq!(resolve("0|1/1"), Ok("G".to_string()));
}

#[test]
fn multi_token_call() {
    assert_eq!(resolve("0/1/1"), Ok("AGG".to_string()));
    assert_eq!(resolve("/"), Ok(String::new()));
}

#[test]
fn header_prefix_names_fixed_columns() {
    assert_eq!(
        text(get_header_prefix()),
        "rs\talleles\tchrom\tpos\tstrand\tassembly\tcenter\tprotLSID\tassayLSID\tpanelLSID\tQCcode"
    );
}

#[test]
fn header_line_lists_samples() {
    let samples = vec![b"S1".to_vec(), b"S2".to_vec()];
    let line = text(header_line(&samples).unwrap());
    assert_eq!(
        line,
        "rs\talleles\tchrom\tpos\tstrand\tassembly\tcenter\tprotLSID\tassayLSID\tpanelLSID\tQCcode\tS1\tS2\n"
    );
    assert_eq!(line.trim_end_matches('\n').split('\t').count(), 11 + 2);
}

#[test]
fn header_line_without_samples() {
    let line = text(header_line(&Vec::new()).unwrap());
    assert_eq!(line, format!("{}\n", text(get_header_prefix())));
}

#[test]
fn header_line_rejects_invalid_sample_name() {
    let samples = vec![b"S1".to_vec(), vec![0xff, 0xfe]];
    assert_eq!(header_line(&samples), Err(HapmapError::InvalidEncoding));
}

#[test]
fn end_to_end_two_samples() {
    let samples = vec![b"S1".to_vec(), b"S2".to_vec()];
    let rec = record("Chr01", 100, "A", &["G"], vec![gt(&["0/1"]), gt(&["1|1"])]);
    let mut out = header_line(&samples).unwrap();
    out.extend(record_line(&rec).unwrap());
    // The chromosome column drops the leading "Chr0" of "Chr01".
    assert_eq!(
        text(out),
        "rs\talleles\tchrom\tpos\tstrand\tassembly\tcenter\tprotLSID\tassayLSID\tpanelLSID\tQCcode\tS1\tS2\n\
         Chr01_100\tA/G\t1\t100\t+\tNA\tNA\tNA\tNA\tNA\tNA\tAG\tGG\n"
    );
}

#[test]
fn row_fields_follow_record() {
    let rec = record("Chr5", 12345, "C", &["T", "A"], vec![gt(&["0/0"]), gt(&["0|1"]), gt(&["1/1"])]);
    let line = text(record_line(&rec).unwrap());
    assert!(line.ends_with('\n'));
    assert_eq!(line.matches('\n').count(), 1);
    let fields: Vec<&str> = line.trim_end_matches('\n').split('\t').collect();
    assert_eq!(fields.len(), 11 + 3);
    assert_eq!(fields[0], "Chr5_12345");
    assert_eq!(fields[1], "C/T");
    assert_eq!(fields[2], "5");
    assert_eq!(fields[3], "12345");
    assert_eq!(&fields[4..11], &["+", "NA", "NA", "NA", "NA", "NA", "NA"]);
    assert_eq!(&fields[11..], &["CC", "CT", "TT"]);
}

#[test]
fn one_row_per_record() {
    let recs = vec![
        record("1", 1, "A", &["G"], vec![gt(&["0/1"])]),
        record("Chr2", 20, "T", &["C"], vec![gt(&["1/1"])]),
        record("Chr03", 300, "G", &["A"], vec![gt(&["0|0"])]),
    ];
    let mut out = Vec::new();
    for r in &recs {
        out.extend(record_line(r).unwrap());
    }
    assert_eq!(text(out).lines().count(), recs.len());
}

#[test]
fn chrom_prefix_is_stripped_once() {
    let strip = |s: &str| text(strip_chrom_prefix(s.as_bytes()));
    assert_eq!(strip("Chr01"), "1");
    assert_eq!(strip("Chr10"), "10");
    assert_eq!(strip("Chr0"), "");
    assert_eq!(strip("Chr"), "");
    assert_eq!(strip("Chr0Chr1"), "Chr1");
    assert_eq!(strip("ChrChr1"), "Chr1");
    assert_eq!(strip("chr1"), "chr1");
    assert_eq!(strip("1Chr"), "1Chr");
    assert_eq!(strip(""), "");
    assert_eq!(strip("Ch"), "Ch");
}

#[test]
fn decimal_rendering() {
    assert_eq!(text(render_decimal(0)), "0");
    assert_eq!(text(render_decimal(100)), "100");
    assert_eq!(text(render_decimal(u64::MAX)), u64::MAX.to_string());
}

#[test]
fn missing_alternative_allele() {
    let rec = record("Chr1", 5, "A", &[], vec![gt(&["0/1"])]);
    assert_eq!(record_line(&rec), Err(HapmapError::MissingAlternativeAllele));
    assert!(matches!(decode_record(&rec), Err(HapmapError::MissingAlternativeAllele)));
}

#[test]
fn invalid_record_encoding() {
    let mut rec = record("Chr1", 5, "A", &["G"], vec![gt(&["0/1"])]);
    rec.chromosome = vec![0xc3, 0x28];
    assert_eq!(record_line(&rec), Err(HapmapError::InvalidEncoding));
    let mut rec = record("Chr1", 5, "A", &["G"], vec![gt(&["0/1"])]);
    rec.alternatives[0] = vec![0xff];
    assert_eq!(record_line(&rec), Err(HapmapError::InvalidEncoding));
    let mut rec = record("Chr1", 5, "A", &["G"], vec![gt(&["0/1"])]);
    rec.reference = vec![0x80];
    assert_eq!(record_line(&rec), Err(HapmapError::InvalidEncoding));
}

#[test]
fn decoded_fields() {
    let rec = record("Chr7", 42, "AT", &["A", "C"], vec![]);
    let d = decode_record(&rec).unwrap();
    assert_eq!(d.chromosome, b"Chr7".to_vec());
    assert_eq!(d.position, 42);
    assert_eq!(d.reference, b"AT".to_vec());
    assert_eq!(d.alternative, b"A".to_vec());
}

#[test]
fn missing_genotype_field() {
    assert_eq!(sample_genotype(&None, b"A", b"G"), Err(HapmapError::MissingGenotypeField));
    assert_eq!(sample_genotype(&Some(vec![]), b"A", b"G"), Err(HapmapError::MissingGenotypeField));
    let rec = record("Chr1", 5, "A", &["G"], vec![gt(&["0/1"]), None]);
    assert_eq!(record_line(&rec), Err(HapmapError::MissingGenotypeField));
}

#[test]
fn invalid_genotype_encoding() {
    assert_eq!(sample_genotype(&Some(vec![vec![0xff, b'/']]), b"A", b"G"), Err(HapmapError::InvalidEncoding));
}

#[test]
fn first_genotype_value_is_used() {
    assert_eq!(sample_genotype(&gt(&["1/1", "0/0"]), b"A", b"G"), Ok(b"GG".to_vec()));
}

#[test]
fn uncertain_genotype_in_record() {
    let rec = record("Chr1", 5, "A", &["G"], vec![gt(&["0/1"]), gt(&["1"])]);
    assert_eq!(record_line(&rec), Err(HapmapError::UncertainGenotypeEncoding));
}

#[test]
fn record_without_samples() {
    let rec = record("scaffold_9", 7, "G", &["T"], vec![]);
    assert_eq!(text(record_line(&rec).unwrap()), "scaffold_9_7\tG/T\tscaffold_9\t7\t+\tNA\tNA\tNA\tNA\tNA\tNA\n");
}

#[test]
fn short_write_is_an_error() {
    assert_eq!(check_write(10, 10), Ok(()));
    assert_eq!(check_write(10, 9), Err(HapmapError::ShortWrite));
    assert_eq!(check_write(0, 0), Ok(()));
}
