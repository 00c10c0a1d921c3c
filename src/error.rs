use vstd::prelude::*;

verus! {

/// Every way in which a conversion run can fail. All of them end the run.
#[derive(Debug, Clone, Copy, PartialEq, Eq, Structural)]
pub enum HapmapError {
    /// The input path cannot be opened or decompressed.
    InputOpenFailure,
    /// The output path cannot be created.
    OutputCreateFailure,
    /// The source header cannot be parsed.
    HeaderReadFailure,
    /// A record cannot be parsed from the source stream.
    RecordReadFailure,
    /// A record has no alternative allele.
    MissingAlternativeAllele,
    /// A chromosome, allele, sample or genotype field is not valid UTF-8.
    InvalidEncoding,
    /// A sample has no "GT" value on a record.
    MissingGenotypeField,
    /// A genotype value holds neither `/` nor `|`.
    UncertainGenotypeEncoding,
    /// A write handed fewer bytes to the sink than were requested.
    ShortWrite,
}

/// Decides whether a write that was asked to store `requested` bytes and
/// reported `written` bytes succeeded.
pub fn check_write(requested: usize, written: usize) -> (r: Result<(), HapmapError>)
    ensures
        r is Ok <==> written == requested,
        r is Err ==> r == Err::<(), HapmapError>(HapmapError::ShortWrite),
{
    if written == requested {
        Ok(())
    } else {
        Err(HapmapError::ShortWrite)
    }
}

} // verus!
