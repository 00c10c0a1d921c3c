use vstd::prelude::*;
use crate::error::HapmapError;
use crate::genotype::{resolved, resolve_genotype};
use crate::text::{
    TAB, NEWLINE, join, decimal, strip_chrom, utf8_valid, bstr_utf8_valid, is_utf8, is_bstr_utf8,
    append, render_decimal, strip_chrom_prefix,
};

verus! {

/// The bytes of each piece of `v`.
pub open spec fn bytes_of(v: Seq<Vec<u8>>) -> Seq<Seq<u8>> {
    v.map_values(|x: Vec<u8>| x@)
}

/// The names of the eleven fixed columns that open every HapMap table: rs,
/// alleles, chrom, pos, strand, assembly, center, protLSID, assayLSID,
/// panelLSID and QCcode, as ASCII bytes.
pub open spec fn fixed_columns() -> Seq<Seq<u8>> {
    seq![
        seq![114u8, 115u8],
        seq![97u8, 108u8, 108u8, 101u8, 108u8, 101u8, 115u8],
        seq![99u8, 104u8, 114u8, 111u8, 109u8],
        seq![112u8, 111u8, 115u8],
        seq![115u8, 116u8, 114u8, 97u8, 110u8, 100u8],
        seq![97u8, 115u8, 115u8, 101u8, 109u8, 98u8, 108u8, 121u8],
        seq![99u8, 101u8, 110u8, 116u8, 101u8, 114u8],
        seq![112u8, 114u8, 111u8, 116u8, 76u8, 83u8, 73u8, 68u8],
        seq![97u8, 115u8, 115u8, 97u8, 121u8, 76u8, 83u8, 73u8, 68u8],
        seq![112u8, 97u8, 110u8, 101u8, 108u8, 76u8, 83u8, 73u8, 68u8],
        seq![81u8, 67u8, 99u8, 111u8, 100u8, 101u8],
    ]
}

/// A line made of `fields`, tab-separated and ended by a line end.
pub open spec fn line_of(fields: Seq<Seq<u8>>) -> Seq<u8> {
    join(fields, TAB).push(NEWLINE)
}

/// The header line: the fixed column names, then one column per sample.
pub open spec fn header_spec(samples: Seq<Seq<u8>>) -> Seq<u8> {
    line_of(fixed_columns() + samples)
}

/// Joins `fields` with tabs.
pub fn join_fields(fields: &Vec<Vec<u8>>) -> (r: Vec<u8>)
    ensures
        r@ == join(bytes_of(fields@), TAB),
{
    let ghost f = bytes_of(fields@);
    let mut out: Vec<u8> = Vec::new();
    if fields.len() == 0 {
        return out;
    }
    append(&mut out, fields[0].as_slice());
    proof {
        assert(Seq::<u8>::empty() + f[0] =~= f[0]);
        assert(join(f.take(1), TAB) == f.take(1)[0]);
    }
    let mut i: usize = 1;
    while i < fields.len()
        invariant
            1 <= i <= fields@.len(),
            f == bytes_of(fields@),
            out@ == join(f.take(i as int), TAB),
        decreases fields@.len() - i,
    {
        proof {
            assert(f.take(i + 1).drop_last() =~= f.take(i as int));
            assert(f.take(i + 1).last() == f[i as int]);
        }
        out.push(TAB);
        append(&mut out, fields[i].as_slice());
        proof {
            assert(out@ =~= join(f.take(i as int), TAB) + seq![TAB] + f[i as int]);
        }
        i = i + 1;
    }
    proof {
        assert(f.take(fields@.len() as int) =~= f);
    }
    out
}

/// The names of the fixed columns.
fn fixed_column_names() -> (r: Vec<Vec<u8>>)
    ensures
        bytes_of(r@) == fixed_columns(),
{
    let r: Vec<Vec<u8>> = vec![
        vec![114u8, 115u8],
        vec![97u8, 108u8, 108u8, 101u8, 108u8, 101u8, 115u8],
        vec![99u8, 104u8, 114u8, 111u8, 109u8],
        vec![112u8, 111u8, 115u8],
        vec![115u8, 116u8, 114u8, 97u8, 110u8, 100u8],
        vec![97u8, 115u8, 115u8, 101u8, 109u8, 98u8, 108u8, 121u8],
        vec![99u8, 101u8, 110u8, 116u8, 101u8, 114u8],
        vec![112u8, 114u8, 111u8, 116u8, 76u8, 83u8, 73u8, 68u8],
        vec![97u8, 115u8, 115u8, 97u8, 121u8, 76u8, 83u8, 73u8, 68u8],
        vec![112u8, 97u8, 110u8, 101u8, 108u8, 76u8, 83u8, 73u8, 68u8],
        vec![81u8, 67u8, 99u8, 111u8, 100u8, 101u8],
    ];
    assert(bytes_of(r@) =~= fixed_columns());
    r
}

/// The fixed column names of the header line, tab-separated.
pub fn get_header_prefix() -> (r: Vec<u8>)
    ensures
        r@ == join(fixed_columns(), TAB),
{
    let names = fixed_column_names();
    join_fields(&names)
}

/// Copies the bytes of `s`.
fn copy_bytes(s: &[u8]) -> (r: Vec<u8>)
    ensures
        r@ == s@,
{
    let mut r: Vec<u8> = Vec::new();
    append(&mut r, s);
    assert(Seq::<u8>::empty() + s@ =~= s@);
    r
}

/// The header line of the table: the fixed column names and then each sample
/// name, tab-separated and ended by a line end. Fails with `InvalidEncoding`
/// where a sample name is not UTF-8 text.
pub fn header_line(samples: &Vec<Vec<u8>>) -> (r: Result<Vec<u8>, HapmapError>)
    ensures
        r is Ok <==> (forall|i: int|
            0 <= i < samples@.len() ==> bstr_utf8_valid(#[trigger] samples@[i]@)),
        r is Ok ==> r->Ok_0@ == header_spec(bytes_of(samples@)),
        r is Err ==> r->Err_0 == HapmapError::InvalidEncoding,
{
    let mut fields = fixed_column_names();
    let mut i: usize = 0;
    while i < samples.len()
        invariant
            i <= samples@.len(),
            bytes_of(fields@) == fixed_columns() + bytes_of(samples@).take(i as int),
            forall|k: int| 0 <= k < i ==> bstr_utf8_valid(#[trigger] samples@[k]@),
        decreases samples@.len() - i,
    {
        if !is_bstr_utf8(samples[i].as_slice()) {
            return Err(HapmapError::InvalidEncoding);
        }
        let name = copy_bytes(samples[i].as_slice());
        let ghost prev = fields@;
        fields.push(name);
        proof {
            assert(bytes_of(fields@) =~= bytes_of(prev).push(samples@[i as int]@));
            assert(bytes_of(samples@).take(i + 1) =~= bytes_of(samples@).take(i as int).push(
                samples@[i as int]@,
            ));
        }
        i = i + 1;
        assert(bytes_of(fields@) =~= fixed_columns() + bytes_of(samples@).take(i as int));
    }
    assert(bytes_of(samples@).take(i as int) =~= bytes_of(samples@));
    let mut line = join_fields(&fields);
    line.push(NEWLINE);
    Ok(line)
}

/// One variant record of a VCF stream, as raw field bytes.
pub struct VariantRecord {
    /// The chromosome name.
    pub chromosome: Vec<u8>,
    /// The 1-based position on the chromosome.
    pub position: u64,
    /// The reference allele.
    pub reference: Vec<u8>,
    /// The alternative alleles, in order.
    pub alternatives: Vec<Vec<u8>>,
    /// For each sample of the header, in header order, the values of its "GT"
    /// field, or `None` where the record has none for it.
    pub genotypes: Vec<Option<Vec<Vec<u8>>>>,
}

/// The bytes that a `VariantRecord` holds.
pub struct VariantView {
    pub chromosome: Seq<u8>,
    pub position: u64,
    pub reference: Seq<u8>,
    pub alternatives: Seq<Seq<u8>>,
    pub genotypes: Seq<Option<Seq<Seq<u8>>>>,
}

/// The bytes of one sample's "GT" values.
pub open spec fn gt_values_of(g: Option<Vec<Vec<u8>>>) -> Option<Seq<Seq<u8>>> {
    match g {
        Some(v) => Some(bytes_of(v@)),
        None => None,
    }
}

impl View for VariantRecord {
    type V = VariantView;

    open spec fn view(&self) -> VariantView {
        VariantView {
            chromosome: self.chromosome@,
            position: self.position,
            reference: self.reference@,
            alternatives: bytes_of(self.alternatives@),
            genotypes: self.genotypes@.map_values(|g: Option<Vec<Vec<u8>>>| gt_values_of(g)),
        }
    }
}

/// The text fields of a record: chromosome, position, reference allele and
/// first alternative allele.
pub struct DecodedRecord {
    pub chromosome: Vec<u8>,
    pub position: u64,
    pub reference: Vec<u8>,
    pub alternative: Vec<u8>,
}

/// Why a record's own fields cannot be decoded, if they cannot: checked in
/// the order reference allele, presence of an alternative allele, first
/// alternative allele, chromosome.
pub open spec fn decode_error(v: VariantView) -> Option<HapmapError> {
    if !utf8_valid(v.reference) {
        Some(HapmapError::InvalidEncoding)
    } else if v.alternatives.len() == 0 {
        Some(HapmapError::MissingAlternativeAllele)
    } else if !utf8_valid(v.alternatives[0]) {
        Some(HapmapError::InvalidEncoding)
    } else if !utf8_valid(v.chromosome) {
        Some(HapmapError::InvalidEncoding)
    } else {
        None
    }
}

/// Decodes the chromosome, position, reference allele and first alternative
/// allele of a record.
pub fn decode_record(rec: &VariantRecord) -> (r: Result<DecodedRecord, HapmapError>)
    ensures
        r is Ok <==> decode_error(rec@) is None,
        r is Err ==> decode_error(rec@) == Some(r->Err_0),
        r is Ok ==> r->Ok_0.chromosome@ == rec@.chromosome && r->Ok_0.position == rec@.position
            && r->Ok_0.reference@ == rec@.reference && r->Ok_0.alternative@
            == rec@.alternatives[0],
{
    if !is_utf8(rec.reference.as_slice()) {
        return Err(HapmapError::InvalidEncoding);
    }
    if rec.alternatives.len() == 0 {
        return Err(HapmapError::MissingAlternativeAllele);
    }
    if !is_utf8(rec.alternatives[0].as_slice()) {
        return Err(HapmapError::InvalidEncoding);
    }
    if !is_utf8(rec.chromosome.as_slice()) {
        return Err(HapmapError::InvalidEncoding);
    }
    Ok(
        DecodedRecord {
            chromosome: copy_bytes(rec.chromosome.as_slice()),
            position: rec.position,
            reference: copy_bytes(rec.reference.as_slice()),
            alternative: copy_bytes(rec.alternatives[0].as_slice()),
        },
    )
}

/// The column text of one sample: its first "GT" value resolved against the
/// record's alleles, or why that fails.
pub open spec fn genotype_outcome(g: Option<Seq<Seq<u8>>>, reference: Seq<u8>, alternative: Seq<u8>) -> Result<Seq<u8>, HapmapError> {
    match g {
        None => Err(HapmapError::MissingGenotypeField),
        Some(vals) => if vals.len() == 0 {
            Err(HapmapError::MissingGenotypeField)
        } else if !utf8_valid(vals[0]) {
            Err(HapmapError::InvalidEncoding)
        } else {
            match resolved(vals[0], reference, alternative) {
                Some(t) => Ok(t),
                None => Err(HapmapError::UncertainGenotypeEncoding),
            }
        },
    }
}

/// Resolves one sample's "GT" values into its column text.
pub fn sample_genotype(g: &Option<Vec<Vec<u8>>>, reference: &[u8], alternative: &[u8]) -> (r: Result<Vec<u8>, HapmapError>)
    ensures
        r is Ok <==> genotype_outcome(gt_values_of(*g), reference@, alternative@) is Ok,
        r is Ok ==> genotype_outcome(gt_values_of(*g), reference@, alternative@) == Ok::<Seq<u8>, HapmapError>(r->Ok_0@),
        r is Err ==> genotype_outcome(gt_values_of(*g), reference@, alternative@) == Err::<Seq<u8>, HapmapError>(r->Err_0),
{
    match g {
        None => Err(HapmapError::MissingGenotypeField),
        Some(vals) => {
            if vals.len() == 0 {
                return Err(HapmapError::MissingGenotypeField);
            }
            if !is_utf8(vals[0].as_slice()) {
                return Err(HapmapError::InvalidEncoding);
            }
            resolve_genotype(vals[0].as_slice(), reference, alternative)
        },
    }
}

/// The bytes of "NA".
pub open spec fn not_available() -> Seq<u8> {
    seq![78u8, 65u8]
}

/// The fields of a data row: `{chrom}_{pos}`, `{ref}/{alt}`, the chromosome
/// without its "Chr0" or "Chr" prefix, the position, "+", six times "NA",
/// then the sample columns.
pub open spec fn row_fields(chrom: Seq<u8>, pos: u64, reference: Seq<u8>, alternative: Seq<u8>, cols: Seq<Seq<u8>>) -> Seq<Seq<u8>> {
    seq![
        chrom + seq![95u8] + decimal(pos as nat),
        reference + seq![47u8] + alternative,
        strip_chrom(chrom),
        decimal(pos as nat),
        seq![43u8],
        not_available(),
        not_available(),
        not_available(),
        not_available(),
        not_available(),
        not_available(),
    ] + cols
}

/// Formats a data row from a decoded record and its sample columns.
pub fn format_row(d: &DecodedRecord, cols: &Vec<Vec<u8>>) -> (r: Vec<u8>)
    ensures
        r@ == line_of(row_fields(d.chromosome@, d.position, d.reference@, d.alternative@, bytes_of(cols@))),
{
    let pos = render_decimal(d.position);
    let mut rs = copy_bytes(d.chromosome.as_slice());
    rs.push(95u8);
    append(&mut rs, pos.as_slice());
    let mut alleles = copy_bytes(d.reference.as_slice());
    alleles.push(47u8);
    append(&mut alleles, d.alternative.as_slice());
    let mut fields: Vec<Vec<u8>> = Vec::new();
    fields.push(rs);
    fields.push(alleles);
    fields.push(strip_chrom_prefix(d.chromosome.as_slice()));
    fields.push(copy_bytes(pos.as_slice()));
    fields.push(vec![43u8]);
    let mut k: usize = 0;
    while k < 6
        invariant
            k <= 6,
            fields@.len() == 5 + k,
            forall|j: int| 5 <= j < 5 + k ==> (#[trigger] fields@[j])@ == not_available(),
            fields@[0]@ == d.chromosome@ + seq![95u8] + decimal(d.position as nat),
            fields@[1]@ == d.reference@ + seq![47u8] + d.alternative@,
            fields@[2]@ == strip_chrom(d.chromosome@),
            fields@[3]@ == decimal(d.position as nat),
            fields@[4]@ == seq![43u8],
        decreases 6 - k,
    {
        let na: Vec<u8> = vec![78u8, 65u8];
        assert(na@ =~= not_available());
        fields.push(na);
        k = k + 1;
    }
    let mut i: usize = 0;
    while i < cols.len()
        invariant
            i <= cols@.len(),
            bytes_of(fields@) == row_fields(d.chromosome@, d.position, d.reference@, d.alternative@, bytes_of(cols@).take(i as int)),
        decreases cols@.len() - i,
    {
        let ghost prev = fields@;
        fields.push(copy_bytes(cols[i].as_slice()));
        proof {
            assert(bytes_of(fields@) =~= bytes_of(prev).push(cols@[i as int]@));
            assert(bytes_of(cols@).take(i + 1) =~= bytes_of(cols@).take(i as int).push(
                cols@[i as int]@,
            ));
        }
        i = i + 1;
        assert(bytes_of(fields@) =~= row_fields(d.chromosome@, d.position, d.reference@, d.alternative@, bytes_of(cols@).take(i as int)));
    }
    proof {
        assert(bytes_of(cols@).take(i as int) =~= bytes_of(cols@));
    }
    let mut line = join_fields(&fields);
    line.push(NEWLINE);
    line
}

/// The first sample, in header order, whose column cannot be resolved, and
/// why.
pub open spec fn first_genotype_error(gs: Seq<Option<Seq<Seq<u8>>>>, reference: Seq<u8>, alternative: Seq<u8>) -> Option<HapmapError>
    decreases gs.len(),
{
    if gs.len() == 0 {
        None
    } else {
        match first_genotype_error(gs.drop_last(), reference, alternative) {
            Some(e) => Some(e),
            None => match genotype_outcome(gs.last(), reference, alternative) {
                Ok(_) => None,
                Err(e) => Some(e),
            },
        }
    }
}

/// The column texts of all samples of a record.
pub open spec fn sample_columns(v: VariantView) -> Seq<Seq<u8>> {
    Seq::new(
        v.genotypes.len(),
        |i: int| genotype_outcome(v.genotypes[i], v.reference, v.alternatives[0])->Ok_0,
    )
}

/// The data row of a record, or the first reason it has none: its own
/// fields are checked first, then each sample in header order.
pub open spec fn record_line_spec(v: VariantView) -> Result<Seq<u8>, HapmapError> {
    match decode_error(v) {
        Some(e) => Err(e),
        None => match first_genotype_error(v.genotypes, v.reference, v.alternatives[0]) {
            Some(e) => Err(e),
            None => Ok(
                line_of(
                    row_fields(
                        v.chromosome,
                        v.position,
                        v.reference,
                        v.alternatives[0],
                        sample_columns(v),
                    ),
                ),
            ),
        },
    }
}

/// Converts one record into its HapMap data row.
pub fn record_line(rec: &VariantRecord) -> (r: Result<Vec<u8>, HapmapError>)
    ensures
        r is Ok <==> record_line_spec(rec@) is Ok,
        r is Ok ==> record_line_spec(rec@) == Ok::<Seq<u8>, HapmapError>(r->Ok_0@),
        r is Err ==> record_line_spec(rec@) == Err::<Seq<u8>, HapmapError>(r->Err_0),
{
    let d = match decode_record(rec) {
        Ok(d) => d,
        Err(e) => return Err(e),
    };
    let ghost v = rec@;
    let mut cols: Vec<Vec<u8>> = Vec::new();
    let mut i: usize = 0;
    while i < rec.genotypes.len()
        invariant
            v == rec@,
            decode_error(v) is None,
            d.reference@ == v.reference,
            d.alternative@ == v.alternatives[0],
            i <= v.genotypes.len(),
            v.genotypes.len() == rec.genotypes@.len(),
            first_genotype_error(v.genotypes.take(i as int), v.reference, v.alternatives[0]) is None,
            bytes_of(cols@) == sample_columns(v).take(i as int),
        decreases rec.genotypes@.len() - i,
    {
        let ghost prev = cols@;
        proof {
            assert(v.genotypes.take(i + 1).drop_last() =~= v.genotypes.take(i as int));
            assert(v.genotypes.take(i + 1).last() == v.genotypes[i as int]);
            assert(v.genotypes[i as int] == gt_values_of(rec.genotypes@[i as int]));
        }
        match sample_genotype(&rec.genotypes[i], d.reference.as_slice(), d.alternative.as_slice()) {
            Ok(col) => {
                let ghost c = col@;
                cols.push(col);
                proof {
                    assert(sample_columns(v)[i as int] == c);
                    assert(bytes_of(cols@) =~= bytes_of(prev).push(c));
                    assert(bytes_of(cols@) =~= sample_columns(v).take(i + 1));
                }
            },
            Err(e) => {
                proof {
                    lemma_first_error_extends(v.genotypes, i as int, v.reference, v.alternatives[0]);
                }
                return Err(e);
            },
        }
        i = i + 1;
    }
    proof {
        assert(v.genotypes.take(i as int) =~= v.genotypes);
        assert(sample_columns(v).take(i as int) =~= sample_columns(v));
    }
    Ok(format_row(&d, &cols))
}

/// An error among the first `i + 1` samples is the first error of all of them.
pub proof fn lemma_first_error_extends(gs: Seq<Option<Seq<Seq<u8>>>>, i: int, reference: Seq<u8>, alternative: Seq<u8>)
    requires
        0 <= i < gs.len(),
        first_genotype_error(gs.take(i + 1), reference, alternative) is Some,
    ensures
        first_genotype_error(gs, reference, alternative) == first_genotype_error(gs.take(i + 1), reference, alternative),
    decreases gs.len(),
{
    if i + 1 < gs.len() {
        assert(gs.drop_last().take(i + 1) =~= gs.take(i + 1));
        lemma_first_error_extends(gs.drop_last(), i, reference, alternative);
    } else {
        assert(gs.take(i + 1) =~= gs);
    }
}

} // verus!
