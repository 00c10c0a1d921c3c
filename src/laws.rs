use vstd::prelude::*;
use crate::genotype::{allele_text, resolve_tokens, resolved, separator};
use crate::hapmap::{
    VariantView, fixed_columns, line_of, header_spec, row_fields, record_line_spec,
    sample_columns, first_genotype_error, genotype_outcome, decode_error, not_available,
};
use crate::text::{
    TAB, NEWLINE, split, join, count, is_field, all_fields, decimal, strip_chrom,
    lemma_split_join, lemma_count_absent, lemma_join_no_newline, lemma_decimal_is_field,
    lemma_strip_is_field,
};

verus! {

/// The fields of a line: its bytes before the line end, split at tabs.
pub open spec fn line_fields(line: Seq<u8>) -> Seq<Seq<u8>> {
    split(line.drop_last(), TAB)
}

/// A record as a VCF stream can hold it: none of the fields that reach the
/// output holds a tab or a line end.
pub open spec fn well_formed(v: VariantView) -> bool {
    &&& is_field(v.chromosome)
    &&& is_field(v.reference)
    &&& all_fields(v.alternatives)
    &&& forall|i: int|
        0 <= i < v.genotypes.len() && (#[trigger] v.genotypes[i]) is Some ==> all_fields(
            v.genotypes[i]->Some_0,
        )
}

/// The data rows of a sequence of records, one after another.
pub open spec fn rows(recs: Seq<VariantView>) -> Seq<u8>
    decreases recs.len(),
{
    if recs.len() == 0 {
        Seq::<u8>::empty()
    } else {
        rows(recs.drop_last()) + record_line_spec(recs.last())->Ok_0
    }
}

proof fn lemma_concat_is_field(a: Seq<u8>, b: Seq<u8>)
    requires
        is_field(a),
        is_field(b),
    ensures
        is_field(a + b),
{
    let s = a + b;
    if s.contains(TAB) {
        let k = choose|k: int| 0 <= k < s.len() && s[k] == TAB;
        if k < a.len() {
            assert(a[k] == TAB);
        } else {
            assert(b[k - a.len()] == TAB);
        }
    }
    if s.contains(NEWLINE) {
        let k = choose|k: int| 0 <= k < s.len() && s[k] == NEWLINE;
        if k < a.len() {
            assert(a[k] == NEWLINE);
        } else {
            assert(b[k - a.len()] == NEWLINE);
        }
    }
}

proof fn lemma_single_is_field(b: u8)
    requires
        b != TAB,
        b != NEWLINE,
    ensures
        is_field(seq![b]),
{
    if seq![b].contains(TAB) {
        let k = choose|k: int| 0 <= k < 1 && seq![b][k] == TAB;
    }
    if seq![b].contains(NEWLINE) {
        let k = choose|k: int| 0 <= k < 1 && seq![b][k] == NEWLINE;
    }
}

proof fn lemma_resolve_is_field(toks: Seq<Seq<u8>>, reference: Seq<u8>, alternative: Seq<u8>)
    requires
        is_field(reference),
        is_field(alternative),
    ensures
        is_field(resolve_tokens(toks, reference, alternative)),
    decreases toks.len(),
{
    if toks.len() == 0 {
        assert(!Seq::<u8>::empty().contains(TAB));
        assert(!Seq::<u8>::empty().contains(NEWLINE));
    } else {
        lemma_resolve_is_field(toks.drop_last(), reference, alternative);
        let t = allele_text(toks.last(), reference, alternative);
        assert(!Seq::<u8>::empty().contains(TAB));
        assert(!Seq::<u8>::empty().contains(NEWLINE));
        lemma_concat_is_field(resolve_tokens(toks.drop_last(), reference, alternative), t);
    }
}

proof fn lemma_no_error_all_ok(gs: Seq<Option<Seq<Seq<u8>>>>, reference: Seq<u8>, alternative: Seq<u8>)
    requires
        first_genotype_error(gs, reference, alternative) is None,
    ensures
        forall|i: int| 0 <= i < gs.len() ==> (#[trigger] genotype_outcome(gs[i], reference, alternative)) is Ok,
    decreases gs.len(),
{
    if gs.len() > 0 {
        lemma_no_error_all_ok(gs.drop_last(), reference, alternative);
        assert forall|i: int| 0 <= i < gs.len() implies (#[trigger] genotype_outcome(gs[i], reference, alternative)) is Ok by {
            if i < gs.len() - 1 {
                assert(gs[i] == gs.drop_last()[i]);
            }
        }
    }
}

proof fn lemma_not_available_is_field()
    ensures
        is_field(not_available()),
{
    let s = not_available();
    if s.contains(TAB) {
        let k = choose|k: int| 0 <= k < s.len() && s[k] == TAB;
    }
    if s.contains(NEWLINE) {
        let k = choose|k: int| 0 <= k < s.len() && s[k] == NEWLINE;
    }
}

/// The fields of a converted record's row are exactly its row fields, and
/// none of them holds a tab or a line end.
proof fn lemma_row_splits(v: VariantView)
    requires
        well_formed(v),
        record_line_spec(v) is Ok,
    ensures
        all_fields(row_fields(v.chromosome, v.position, v.reference, v.alternatives[0], sample_columns(v))),
        line_fields(record_line_spec(v)->Ok_0) == row_fields(
            v.chromosome,
            v.position,
            v.reference,
            v.alternatives[0],
            sample_columns(v),
        ),
{
    let alt = v.alternatives[0];
    let cols = sample_columns(v);
    let f = row_fields(v.chromosome, v.position, v.reference, alt, cols);
    assert(decode_error(v) is None);
    assert(is_field(alt));
    lemma_no_error_all_ok(v.genotypes, v.reference, alt);
    assert forall|i: int| 0 <= i < cols.len() implies is_field(#[trigger] cols[i]) by {
        assert(genotype_outcome(v.genotypes[i], v.reference, alt) is Ok);
        let vals = v.genotypes[i]->Some_0;
        assert(all_fields(vals));
        let sep = separator(vals[0])->Some_0;
        assert(resolved(vals[0], v.reference, alt) is Some);
        lemma_resolve_is_field(split(vals[0], sep), v.reference, alt);
    }
    lemma_decimal_is_field(v.position as nat);
    lemma_single_is_field(95u8);
    lemma_single_is_field(47u8);
    lemma_single_is_field(43u8);
    lemma_concat_is_field(v.chromosome, seq![95u8]);
    lemma_concat_is_field(v.chromosome + seq![95u8], decimal(v.position as nat));
    lemma_concat_is_field(v.reference, seq![47u8]);
    lemma_concat_is_field(v.reference + seq![47u8], alt);
    lemma_strip_is_field(v.chromosome);
    lemma_not_available_is_field();
    assert(all_fields(f)) by {
        assert forall|i: int| 0 <= i < f.len() implies is_field(#[trigger] f[i]) by {
            if i >= 11 {
                assert(f[i] == cols[i - 11]);
            }
        }
    }
    assert forall|i: int| 0 <= i < f.len() implies !(#[trigger] f[i]).contains(TAB) by {
        assert(is_field(f[i]));
    }
    lemma_split_join(f, TAB);
    assert(line_of(f).drop_last() =~= join(f, TAB));
}

/// Every data row has eleven fixed fields and one field per sample.
pub proof fn lemma_row_field_count(v: VariantView)
    requires
        well_formed(v),
        record_line_spec(v) is Ok,
    ensures
        line_fields(record_line_spec(v)->Ok_0).len() == 11 + v.genotypes.len(),
{
    lemma_row_splits(v);
}

/// The header line has eleven fixed fields and one field per sample, the
/// sample names in their given order.
pub proof fn lemma_header_field_count(samples: Seq<Seq<u8>>)
    requires
        all_fields(samples),
    ensures
        line_fields(header_spec(samples)) == fixed_columns() + samples,
        line_fields(header_spec(samples)).len() == 11 + samples.len(),
{
    let f = fixed_columns() + samples;
    assert forall|i: int| 0 <= i < f.len() implies !(#[trigger] f[i]).contains(TAB) by {
        if i < 11 {
            let c = f[i];
            assert(c == fixed_columns()[i]);
            if c.contains(TAB) {
                let k = choose|k: int| 0 <= k < c.len() && c[k] == TAB;
            }
        } else {
            assert(f[i] == samples[i - 11]);
            assert(is_field(samples[i - 11]));
        }
    }
    lemma_split_join(f, TAB);
    assert(line_of(f).drop_last() =~= join(f, TAB));
}

/// The first field of every data row is `{chrom}_{pos}`, and its fourth is
/// the same position, both of the row's own record.
pub proof fn lemma_row_id(v: VariantView)
    requires
        well_formed(v),
        record_line_spec(v) is Ok,
    ensures
        line_fields(record_line_spec(v)->Ok_0)[0] == v.chromosome + seq![95u8] + decimal(
            v.position as nat,
        ),
        line_fields(record_line_spec(v)->Ok_0)[3] == decimal(v.position as nat),
{
    lemma_row_splits(v);
}

/// The third field of every data row is the chromosome name without one
/// leading "Chr0", or else without one leading "Chr", and otherwise the
/// name itself.
pub proof fn lemma_row_chrom(v: VariantView)
    requires
        well_formed(v),
        record_line_spec(v) is Ok,
    ensures
        line_fields(record_line_spec(v)->Ok_0)[2] == strip_chrom(v.chromosome),
{
    lemma_row_splits(v);
}

/// Each converted record gives exactly one line: the row ends with the only
/// line end it holds.
pub proof fn lemma_one_line_per_record(v: VariantView)
    requires
        well_formed(v),
        record_line_spec(v) is Ok,
    ensures
        record_line_spec(v)->Ok_0.last() == NEWLINE,
        count(record_line_spec(v)->Ok_0, NEWLINE) == 1,
{
    lemma_row_splits(v);
    let f = row_fields(v.chromosome, v.position, v.reference, v.alternatives[0], sample_columns(v));
    lemma_join_no_newline(f);
    lemma_count_absent(join(f, TAB), NEWLINE);
    assert(line_of(f).drop_last() =~= join(f, TAB));
}

/// Converting a sequence of records gives as many data rows as there are
/// records.
pub proof fn lemma_row_count(recs: Seq<VariantView>)
    requires
        forall|i: int| 0 <= i < recs.len() ==> well_formed(#[trigger] recs[i]),
        forall|i: int| 0 <= i < recs.len() ==> (#[trigger] record_line_spec(recs[i])) is Ok,
    ensures
        count(rows(recs), NEWLINE) == recs.len(),
    decreases recs.len(),
{
    if recs.len() > 0 {
        let init = recs.drop_last();
        assert forall|i: int| 0 <= i < init.len() implies well_formed(#[trigger] init[i]) by {
            assert(init[i] == recs[i]);
        }
        assert forall|i: int| 0 <= i < init.len() implies (#[trigger] record_line_spec(init[i])) is Ok by {
            assert(init[i] == recs[i]);
        }
        lemma_row_count(init);
        assert(recs.last() == recs[recs.len() - 1]);
        lemma_one_line_per_record(recs.last());
        crate::text::lemma_count_concat(rows(init), record_line_spec(recs.last())->Ok_0, NEWLINE);
    }
}

/// A data row of a record with one "GT" entry per header sample has as many
/// fields as the header line.
pub proof fn lemma_row_matches_header(samples: Seq<Seq<u8>>, v: VariantView)
    requires
        all_fields(samples),
        well_formed(v),
        v.genotypes.len() == samples.len(),
        record_line_spec(v) is Ok,
    ensures
        line_fields(record_line_spec(v)->Ok_0).len() == line_fields(header_spec(samples)).len(),
{
    lemma_row_field_count(v);
    lemma_header_field_count(samples);
}

} // verus!
