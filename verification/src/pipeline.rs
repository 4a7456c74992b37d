//! Choosing the decoding pipeline for a file.

use crate::detect::{sniff, sniffed, Compression, Format};
use crate::error::Error;
use crate::index::IndexKind;
use vstd::prelude::*;

verus! {

/// The backend behind a reader. It is chosen once, when the file is opened,
/// and never changes.
#[derive(Clone, Copy, Debug, PartialEq, Eq)]
pub enum ReaderInner {
    /// A block-gzip file with a usable index: the backend can move to a byte
    /// offset.
    Indexed(Format),
    /// A forward-only stream, unwrapped first where it has an envelope.
    Plain(Format, Option<Compression>),
}

impl ReaderInner {
    /// The backend can move to a byte offset.
    pub open spec fn can_seek(self) -> bool {
        self is Indexed
    }

    /// The pipeline for a file of the given encoding and envelope. An index
    /// serves only a file under block gzip; every other file is streamed,
    /// whether an index was found or not.
    pub open spec fn chosen(
        format: Format,
        compression: Option<Compression>,
        index: Option<IndexKind>,
    ) -> ReaderInner {
        if compression is Some && index is Some {
            ReaderInner::Indexed(format)
        } else {
            ReaderInner::Plain(format, compression)
        }
    }

    /// Picks the pipeline for a file of the given encoding and envelope.
    /// `index` is the usable side-car index, if one was found.
    pub fn select(
        format: Format,
        compression: Option<Compression>,
        index: Option<IndexKind>,
    ) -> (inner: ReaderInner)
        ensures
            inner == ReaderInner::chosen(format, compression, index),
    {
        match (compression, index) {
            (Some(_), Some(_)) => ReaderInner::Indexed(format),
            _ => ReaderInner::Plain(format, compression),
        }
    }

    /// The encoding of the records that the backend decodes.
    pub fn format(&self) -> (format: Format)
        ensures
            format == match *self {
                ReaderInner::Indexed(f) => f,
                ReaderInner::Plain(f, _) => f,
            },
    {
        match self {
            ReaderInner::Indexed(f) => *f,
            ReaderInner::Plain(f, _) => *f,
        }
    }
}

/// The pipeline for a stream that begins with `src`.
pub open spec fn opened(src: Seq<u8>, index: Option<IndexKind>) -> Result<ReaderInner, Error> {
    match sniffed(src) {
        Ok((format, compression)) => Ok(ReaderInner::chosen(format, compression, index)),
        Err(e) => Err(e),
    }
}

/// Sniffs the first buffered bytes of a file and picks its pipeline.
/// `index` is the usable side-car index, if one was found. A file that
/// cannot be classified is refused with the sniffer's error.
pub fn open(src: &[u8], index: Option<IndexKind>) -> (inner: Result<ReaderInner, Error>)
    ensures
        inner == opened(src@, index),
{
    match sniff(src) {
        Ok((format, compression)) => Ok(ReaderInner::select(format, compression, index)),
        Err(e) => Err(e),
    }
}

} // verus!
