use vstd::prelude::*;
use crate::error::HapmapError;
use crate::text::{split, append};

verus! {

/// The byte `/` that separates the allele indices of an unphased call.
pub const UNPHASED: u8 = 47;

/// The byte `|` that separates the allele indices of a phased call.
pub const PHASED: u8 = 124;

/// The separator of a genotype call: `/` if the call holds one, else `|` if
/// it holds one, else none.
pub open spec fn separator(gt: Seq<u8>) -> Option<u8> {
    if gt.contains(UNPHASED) {
        Some(UNPHASED)
    } else if gt.contains(PHASED) {
        Some(PHASED)
    } else {
        None
    }
}

/// What one allele index token stands for: the reference allele for "0",
/// the alternative allele for "1", and nothing for any other token.
pub open spec fn allele_text(tok: Seq<u8>, reference: Seq<u8>, alternative: Seq<u8>) -> Seq<u8> {
    if tok == seq![48u8] {
        reference
    } else if tok == seq![49u8] {
        alternative
    } else {
        Seq::<u8>::empty()
    }
}

/// The allele texts of all tokens, concatenated in order.
pub open spec fn resolve_tokens(toks: Seq<Seq<u8>>, reference: Seq<u8>, alternative: Seq<u8>) -> Seq<u8>
    decreases toks.len(),
{
    if toks.len() == 0 {
        Seq::<u8>::empty()
    } else {
        resolve_tokens(toks.drop_last(), reference, alternative)
            + allele_text(toks.last(), reference, alternative)
    }
}

/// The text of a genotype call: none where the call has no separator, else
/// the allele texts of its tokens, with no separator between them.
pub open spec fn resolved(gt: Seq<u8>, reference: Seq<u8>, alternative: Seq<u8>) -> Option<Seq<u8>> {
    match separator(gt) {
        Some(sep) => Some(resolve_tokens(split(gt, sep), reference, alternative)),
        None => None,
    }
}

/// Whether `s` holds the byte `b`.
pub fn contains_byte(s: &[u8], b: u8) -> (r: bool)
    ensures
        r == s@.contains(b),
{
    let mut i: usize = 0;
    while i < s.len()
        invariant
            i <= s@.len(),
            forall|k: int| 0 <= k < i ==> s@[k] != b,
        decreases s@.len() - i,
    {
        if s[i] == b {
            return true;
        }
        i = i + 1;
    }
    false
}

/// Appends the allele text of one token to `out`.
fn push_allele(out: &mut Vec<u8>, tok: &Vec<u8>, reference: &[u8], alternative: &[u8])
    ensures
        final(out)@ == old(out)@ + allele_text(tok@, reference@, alternative@),
{
    if tok.len() == 1 && tok[0] == 48u8 {
        assert(tok@ =~= seq![48u8]);
        append(out, reference);
    } else if tok.len() == 1 && tok[0] == 49u8 {
        assert(tok@ =~= seq![49u8]);
        append(out, alternative);
    } else {
        assert(tok@ != seq![48u8]) by {
            if tok@ == seq![48u8] {
                assert(tok@[0] == 48u8);
            }
        }
        assert(tok@ != seq![49u8]) by {
            if tok@ == seq![49u8] {
                assert(tok@[0] == 49u8);
            }
        }
        assert(old(out)@ + Seq::<u8>::empty() =~= old(out)@);
    }
}

/// Resolves a genotype call into the allele texts that it names: its
/// tokens between separators become the reference allele ("0"), the
/// alternative allele ("1") or nothing (any other token).
pub fn resolve_genotype(gt: &[u8], reference: &[u8], alternative: &[u8]) -> (r: Result<
    Vec<u8>,
    HapmapError,
>)
    ensures
        r is Ok <==> separator(gt@) is Some,
        r is Ok ==> resolved(gt@, reference@, alternative@) == Some(r->Ok_0@),
        r is Err ==> r->Err_0 == HapmapError::UncertainGenotypeEncoding,
{
    let sep: u8 = if contains_byte(gt, UNPHASED) {
        UNPHASED
    } else if contains_byte(gt, PHASED) {
        PHASED
    } else {
        return Err(HapmapError::UncertainGenotypeEncoding);
    };
    let mut out: Vec<u8> = Vec::new();
    let mut cur: Vec<u8> = Vec::new();
    let mut i: usize = 0;
    proof {
        assert(gt@.take(0) =~= Seq::<u8>::empty());
    }
    while i < gt.len()
        invariant
            i <= gt@.len(),
            split(gt@.take(i as int), sep).len() >= 1,
            split(gt@.take(i as int), sep).last() == cur@,
            out@ == resolve_tokens(split(gt@.take(i as int), sep).drop_last(), reference@, alternative@),
        decreases gt@.len() - i,
    {
        let c = gt[i];
        let ghost before = split(gt@.take(i as int), sep);
        proof {
            assert(gt@.take(i + 1).drop_last() =~= gt@.take(i as int));
            assert(gt@.take(i + 1).last() == c);
        }
        if c == sep {
            proof {
                assert(before.push(Seq::<u8>::empty()).drop_last() =~= before);
            }
            push_allele(&mut out, &cur, reference, alternative);
            cur = Vec::new();
        } else {
            proof {
                let after = before.update(before.len() - 1, before.last().push(c));
                assert(after.drop_last() =~= before.drop_last());
            }
            cur.push(c);
        }
        i = i + 1;
    }
    proof {
        assert(gt@.take(gt@.len() as int) =~= gt@);
    }
    push_allele(&mut out, &cur, reference, alternative);
    Ok(out)
}

} // verus!
