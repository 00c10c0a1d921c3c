use vstd::prelude::*;

verus! {

/// The tab byte that separates the columns of a line.
pub const TAB: u8 = 9;

/// The byte that ends every line.
pub const NEWLINE: u8 = 10;

/// The pieces of `s` between occurrences of `sep`, in order. There is
/// always at least one piece; a separator at either end gives an empty one.
pub open spec fn split(s: Seq<u8>, sep: u8) -> Seq<Seq<u8>>
    decreases s.len(),
{
    if s.len() == 0 {
        seq![Seq::<u8>::empty()]
    } else {
        let p = split(s.drop_last(), sep);
        if s.last() == sep {
            p.push(Seq::<u8>::empty())
        } else {
            p.update(p.len() - 1, p.last().push(s.last()))
        }
    }
}

/// The pieces of `fields` with one `sep` between each two neighbours.
pub open spec fn join(fields: Seq<Seq<u8>>, sep: u8) -> Seq<u8>
    decreases fields.len(),
{
    if fields.len() == 0 {
        Seq::<u8>::empty()
    } else if fields.len() == 1 {
        fields[0]
    } else {
        join(fields.drop_last(), sep) + seq![sep] + fields.last()
    }
}

/// How many times `b` occurs in `s`.
pub open spec fn count(s: Seq<u8>, b: u8) -> nat
    decreases s.len(),
{
    if s.len() == 0 {
        0
    } else {
        count(s.drop_last(), b) + if s.last() == b { 1nat } else { 0nat }
    }
}

/// A text field of a line: it holds neither a tab nor a line end.
pub open spec fn is_field(s: Seq<u8>) -> bool {
    !s.contains(TAB) && !s.contains(NEWLINE)
}

/// Every piece of `fields` is a text field.
pub open spec fn all_fields(fields: Seq<Seq<u8>>) -> bool {
    forall|i: int| 0 <= i < fields.len() ==> is_field(#[trigger] fields[i])
}

pub proof fn lemma_split_len(s: Seq<u8>, sep: u8)
    ensures
        split(s, sep).len() >= 1,
    decreases s.len(),
{
    if s.len() > 0 {
        lemma_split_len(s.drop_last(), sep);
    }
}

/// Appending bytes that hold no separator lengthens the last piece.
pub proof fn lemma_split_append_plain(a: Seq<u8>, b: Seq<u8>, sep: u8)
    requires
        !b.contains(sep),
    ensures
        split(a + b, sep) == split(a, sep).update(
            split(a, sep).len() - 1,
            split(a, sep).last() + b,
        ),
    decreases b.len(),
{
    lemma_split_len(a, sep);
    if b.len() == 0 {
        assert(a + b =~= a);
        assert(split(a, sep).last() + b =~= split(a, sep).last());
        assert(split(a, sep).update(split(a, sep).len() - 1, split(a, sep).last())
            =~= split(a, sep));
    } else {
        let b0 = b.drop_last();
        assert(!b0.contains(sep)) by {
            if b0.contains(sep) {
                let k = choose|k: int| 0 <= k < b0.len() && b0[k] == sep;
                assert(b[k] == sep);
            }
        }
        assert(b.last() != sep) by {
            assert(b[b.len() - 1] == b.last());
        }
        lemma_split_append_plain(a, b0, sep);
        assert((a + b).drop_last() =~= a + b0);
        assert((a + b).last() == b.last());
        assert(split(a, sep).last() + b0 + seq![b.last()] =~= split(a, sep).last() + b);
        assert((split(a, sep).last() + b0).push(b.last()) =~= split(a, sep).last() + b);
        let p = split(a, sep);
        let q = p.update(p.len() - 1, p.last() + b0);
        assert(q.last() == p.last() + b0);
        assert(q.update(q.len() - 1, q.last().push(b.last())) =~= p.update(
            p.len() - 1,
            p.last() + b,
        ));
    }
}

/// Splitting a join of separator-free pieces gives the pieces back.
pub proof fn lemma_split_join(fields: Seq<Seq<u8>>, sep: u8)
    requires
        fields.len() >= 1,
        forall|i: int| 0 <= i < fields.len() ==> !(#[trigger] fields[i]).contains(sep),
    ensures
        split(join(fields, sep), sep) == fields,
    decreases fields.len(),
{
    if fields.len() == 1 {
        lemma_split_append_plain(Seq::<u8>::empty(), fields[0], sep);
        assert(Seq::<u8>::empty() + fields[0] =~= fields[0]);
        assert(split(Seq::<u8>::empty(), sep) == seq![Seq::<u8>::empty()]);
        assert(Seq::<u8>::empty() + fields[0] =~= fields[0]);
        assert(seq![Seq::<u8>::empty()].update(0, Seq::<u8>::empty() + fields[0]) =~= fields);
    } else {
        let init = fields.drop_last();
        lemma_split_join(init, sep);
        let a = join(init, sep) + seq![sep];
        assert(a.drop_last() =~= join(init, sep));
        assert(split(a, sep) == init.push(Seq::<u8>::empty()));
        assert(!fields.last().contains(sep)) by {
            assert(fields[fields.len() - 1] == fields.last());
        }
        lemma_split_append_plain(a, fields.last(), sep);
        assert(Seq::<u8>::empty() + fields.last() =~= fields.last());
        assert(init.push(Seq::<u8>::empty()).update(init.len() as int, fields.last()) =~= fields);
    }
}

/// The count of a byte in a concatenation is the sum of the counts.
pub proof fn lemma_count_concat(a: Seq<u8>, b: Seq<u8>, x: u8)
    ensures
        count(a + b, x) == count(a, x) + count(b, x),
    decreases b.len(),
{
    if b.len() == 0 {
        assert(a + b =~= a);
    } else {
        lemma_count_concat(a, b.drop_last(), x);
        assert((a + b).drop_last() =~= a + b.drop_last());
        assert((a + b).last() == b.last());
    }
}

/// A sequence that does not contain a byte counts none of it.
pub proof fn lemma_count_absent(s: Seq<u8>, x: u8)
    requires
        !s.contains(x),
    ensures
        count(s, x) == 0,
    decreases s.len(),
{
    if s.len() > 0 {
        assert(s[s.len() - 1] == s.last());
        assert(!s.drop_last().contains(x)) by {
            if s.drop_last().contains(x) {
                let k = choose|k: int| 0 <= k < s.drop_last().len() && s.drop_last()[k] == x;
                assert(s[k] == x);
            }
        }
        lemma_count_absent(s.drop_last(), x);
    }
}

/// A join of text fields holds no line end.
pub proof fn lemma_join_no_newline(fields: Seq<Seq<u8>>)
    requires
        all_fields(fields),
    ensures
        !join(fields, TAB).contains(NEWLINE),
    decreases fields.len(),
{
    if fields.len() == 1 {
        assert(is_field(fields[0]));
    } else if fields.len() > 1 {
        let init = fields.drop_last();
        assert(all_fields(init)) by {
            assert forall|i: int| 0 <= i < init.len() implies is_field(#[trigger] init[i]) by {
                assert(init[i] == fields[i]);
            }
        }
        lemma_join_no_newline(init);
        assert(is_field(fields[fields.len() - 1]));
        let j = join(fields, TAB);
        let l = join(init, TAB);
        assert(j == l + seq![TAB] + fields.last());
        if j.contains(NEWLINE) {
            let k = choose|k: int| 0 <= k < j.len() && j[k] == NEWLINE;
            if k < l.len() {
                assert(l[k] == NEWLINE);
            } else if k > l.len() {
                assert(fields.last()[k - l.len() - 1] == NEWLINE);
            }
        }
    }
}

/// The decimal digits of `n`, most significant first, with no leading zero.
pub open spec fn decimal(n: nat) -> Seq<u8>
    decreases n,
{
    if n < 10 {
        seq![(48 + n) as u8]
    } else {
        decimal(n / 10).push((48 + n % 10) as u8)
    }
}

/// Decimal digits are all in `'0'..='9'`.
pub proof fn lemma_decimal_digits(n: nat)
    ensures
        forall|i: int| 0 <= i < decimal(n).len() ==> 48 <= #[trigger] decimal(n)[i] <= 57,
        decimal(n).len() >= 1,
    decreases n,
{
    if n >= 10 {
        lemma_decimal_digits(n / 10);
    }
}

/// Decimal digits form a text field.
pub proof fn lemma_decimal_is_field(n: nat)
    ensures
        is_field(decimal(n)),
{
    lemma_decimal_digits(n);
    let d = decimal(n);
    if d.contains(TAB) {
        let k = choose|k: int| 0 <= k < d.len() && d[k] == TAB;
        assert(48 <= d[k]);
    }
    if d.contains(NEWLINE) {
        let k = choose|k: int| 0 <= k < d.len() && d[k] == NEWLINE;
        assert(48 <= d[k]);
    }
}

/// Renders `n` as decimal text.
pub fn render_decimal(n: u64) -> (r: Vec<u8>)
    ensures
        r@ == decimal(n as nat),
    decreases n,
{
    if n < 10 {
        let d: u8 = (48 + n) as u8;
        let mut r: Vec<u8> = Vec::new();
        r.push(d);
        assert(r@ =~= seq![d]);
        r
    } else {
        let mut r = render_decimal(n / 10);
        let d: u8 = (48 + n % 10) as u8;
        r.push(d);
        r
    }
}

/// Appends the bytes of `s` to `out`.
pub fn append(out: &mut Vec<u8>, s: &[u8])
    ensures
        final(out)@ == old(out)@ + s@,
{
    let mut i: usize = 0;
    while i < s.len()
        invariant
            i <= s@.len(),
            out@ == old(out)@ + s@.take(i as int),
        decreases s@.len() - i,
    {
        out.push(s[i]);
        i = i + 1;
        assert(s@.take(i as int) =~= s@.take(i - 1) + seq![s@[i - 1]]);
        assert(out@ =~= old(out)@ + s@.take(i as int));
    }
    assert(s@.take(s@.len() as int) =~= s@);
}

/// Whether `s` begins with the bytes of `p`.
pub open spec fn starts_with(s: Seq<u8>, p: Seq<u8>) -> bool {
    p.len() <= s.len() && s.take(p.len() as int) == p
}

/// The bytes of "Chr0".
pub open spec fn chr0() -> Seq<u8> {
    seq![67u8, 104u8, 114u8, 48u8]
}

/// The bytes of "Chr".
pub open spec fn chr() -> Seq<u8> {
    seq![67u8, 104u8, 114u8]
}

/// A chromosome name without one leading "Chr0", or else without one leading
/// "Chr"; a name with neither prefix is kept as it is.
pub open spec fn strip_chrom(c: Seq<u8>) -> Seq<u8> {
    if starts_with(c, chr0()) {
        c.skip(4)
    } else if starts_with(c, chr()) {
        c.skip(3)
    } else {
        c
    }
}

/// Stripping a prefix keeps a text field a text field.
pub proof fn lemma_strip_is_field(c: Seq<u8>)
    requires
        is_field(c),
    ensures
        is_field(strip_chrom(c)),
{
    let s = strip_chrom(c);
    let k: int = if starts_with(c, chr0()) { 4 } else if starts_with(c, chr()) { 3 } else { 0 };
    assert(s =~= c.skip(k));
    if s.contains(TAB) {
        let j = choose|j: int| 0 <= j < s.len() && s[j] == TAB;
        assert(c[j + k] == TAB);
    }
    if s.contains(NEWLINE) {
        let j = choose|j: int| 0 <= j < s.len() && s[j] == NEWLINE;
        assert(c[j + k] == NEWLINE);
    }
}

/// The chromosome column of a row: `chrom` without its "Chr0" or "Chr" prefix.
pub fn strip_chrom_prefix(chrom: &[u8]) -> (r: Vec<u8>)
    ensures
        r@ == strip_chrom(chrom@),
{
    let n = chrom.len();
    let has_chr = n >= 3 && chrom[0] == 67u8 && chrom[1] == 104u8 && chrom[2] == 114u8;
    let start: usize = if has_chr && n >= 4 && chrom[3] == 48u8 {
        4
    } else if has_chr {
        3
    } else {
        0
    };
    proof {
        if n >= 4 {
            assert(starts_with(chrom@, chr0()) <==> (has_chr && chrom@[3] == 48u8)) by {
                if has_chr && chrom@[3] == 48u8 {
                    assert(chrom@.take(4) =~= chr0());
                }
                if starts_with(chrom@, chr0()) {
                    assert(chrom@.take(4)[0] == 67u8);
                    assert(chrom@.take(4)[1] == 104u8);
                    assert(chrom@.take(4)[2] == 114u8);
                    assert(chrom@.take(4)[3] == 48u8);
                }
            }
        }
        if n >= 3 {
            assert(starts_with(chrom@, chr()) <==> has_chr) by {
                if has_chr {
                    assert(chrom@.take(3) =~= chr());
                }
                if starts_with(chrom@, chr()) {
                    assert(chrom@.take(3)[0] == 67u8);
                    assert(chrom@.take(3)[1] == 104u8);
                    assert(chrom@.take(3)[2] == 114u8);
                }
            }
        }
        assert(chrom@.skip(0) =~= chrom@);
    }
    let mut r: Vec<u8> = Vec::new();
    let mut i: usize = start;
    while i < n
        invariant
            start <= i <= n,
            n == chrom@.len(),
            r@ == chrom@.subrange(start as int, i as int),
        decreases n - i,
    {
        r.push(chrom[i]);
        i = i + 1;
        assert(r@ =~= chrom@.subrange(start as int, i as int));
    }
    assert(chrom@.subrange(start as int, n as int) =~= chrom@.skip(start as int));
    r
}

/// Whether `b` is UTF-8 text, as `std::str::from_utf8` decides it.
pub uninterp spec fn utf8_valid(b: Seq<u8>) -> bool;

/// Relies on `std::str::from_utf8`: it succeeds exactly on valid UTF-8,
/// which depends on the bytes alone.
#[verifier::external_body]
pub(crate) fn is_utf8(b: &[u8]) -> (r: bool)
    ensures
        r == utf8_valid(b@),
{
    std::str::from_utf8(b).is_ok()
}

/// Whether `b` is UTF-8 text, as `bstr::ByteSlice::to_str` decides it.
pub uninterp spec fn bstr_utf8_valid(b: Seq<u8>) -> bool;

/// Relies on `bstr::ByteSlice::to_str`: it succeeds exactly on valid UTF-8,
/// which depends on the bytes alone.
#[verifier::external_body]
pub(crate) fn is_bstr_utf8(b: &[u8]) -> (r: bool)
    ensures
        r == bstr_utf8_valid(b@),
{
    bstr::ByteSlice::to_str(b).is_ok()
}

} // verus!
