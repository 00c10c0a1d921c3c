//! Conversion of VCF variant records into HapMap text rows.
//!
//! The library works on the raw bytes of a VCF stream's fields: it decides
//! what each output line holds, and leaves reading and writing to its caller.

pub mod error;
pub mod text;
pub mod genotype;
pub mod hapmap;
pub mod laws;
