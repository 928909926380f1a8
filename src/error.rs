//! The kinds of failure of the ingestion pipeline and the catalog.
use vstd::prelude::*;

verus! {

/// Why a step of ingestion or a catalog operation failed.
#[derive(Debug, Clone, Copy, PartialEq, Eq, Structural)]
pub enum PipelineError {
    /// A file could not be read or written.
    Io,
    /// The bytes are not an image that can be decoded.
    Decode,
    /// A lookup found no record where one was expected.
    NotFound,
    /// An insert would give two records one identifier or one content digest.
    DuplicateKey,
    /// An embedded date field could not be parsed.
    MetadataParse,
}

} // verus!
