use vstd::prelude::*;

verus! {

/// Why an operation of this library failed.
#[derive(Clone, Copy, Debug, PartialEq, Eq, Structural)]
pub enum Error {
    /// The underlying stream, or the decoder on top of it, could not deliver
    /// what was asked of it.
    Io,
    /// Neither the binary magic nor the text header literal was found.
    FormatDetection,
    /// The file header could not be parsed.
    HeaderParse,
    /// The region names a contig that the header does not declare.
    UnknownContig,
    /// The region starts beyond the declared length of its contig.
    OutOfBoundsRegion,
    /// A forward scan met a contig that the header orders after the target:
    /// the target can no longer be reached.
    OutOfOrderContig,
}

} // verus!
