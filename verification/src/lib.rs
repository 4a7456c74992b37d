//! Uniform, seekable reading of genomic variant files.
//!
//! The library holds the decisions: what a file is, judged from its first
//! buffered bytes; which decoding pipeline serves it; and how a reader finds
//! the first record that reaches a genomic position. It performs no input or
//! output. A caller owns the byte source and the decoders, carries out each
//! request that the reader hands out and reports back with a reply.

pub mod bytes;
pub mod detect;
pub mod error;
pub mod header;
pub mod index;
pub mod laws;
pub mod pipeline;
pub mod reader;
pub mod record;
pub mod region;

pub use detect::{detect_compression, detect_format, format_of_decoded, sniff, Compression, Format};
pub use error::Error;
pub use header::{Contig, Header};
pub use index::{find_index, index_path, IndexKind, Probe};
pub use record::{is_record_after_last, Mark, Record};
pub use pipeline::{open, ReaderInner};
pub use reader::{Chunk, Outcome, Progress, Reader, ReaderState, Reply, Request, Skip};
pub use region::{GenomicRegion, Span};
