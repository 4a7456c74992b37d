//! The target of a seek.

use vstd::prelude::*;

verus! {

/// A stretch of one contig. Positions count from 1; the stretch holds its
/// first position and ends before `end`.
#[derive(Clone, Debug, PartialEq, Eq)]
pub struct GenomicRegion {
    /// The contig's name.
    pub contig: Vec<u8>,
    /// How many positions of the contig lie before the region: its first
    /// position less one.
    pub offset: u64,
    /// The first position after the region; without one the region runs to
    /// the end of the stream.
    pub end: Option<u64>,
}

/// A region as contracts speak of it.
pub struct Span {
    pub contig: Seq<u8>,
    pub offset: u64,
    pub end: Option<u64>,
}

impl Span {
    /// The first position of the region.
    pub open spec fn start(self) -> int {
        self.offset + 1
    }
}

impl View for GenomicRegion {
    type V = Span;

    open spec fn view(&self) -> Span {
        Span { contig: self.contig@, offset: self.offset, end: self.end }
    }
}

impl GenomicRegion {
    /// The region of `contig` from `start` up to, not including, `end`. A
    /// region without a start, or with one before the first position, begins
    /// at position 1.
    pub fn new(contig: Vec<u8>, start: Option<u64>, end: Option<u64>) -> (region: GenomicRegion)
        ensures
            region.contig == contig,
            region.end == end,
            region@.start() == match start {
                Some(s) => if s >= 1 { s as int } else { 1 },
                None => 1,
            },
    {
        let offset: u64 = match start {
            Some(s) => if s >= 1 { s - 1 } else { 0 },
            None => 0,
        };
        GenomicRegion { contig, offset, end }
    }

    /// The region of `contig` that leaves out its first `offset` positions
    /// and runs to the end of the stream.
    pub fn after(contig: Vec<u8>, offset: u64) -> (region: GenomicRegion)
        ensures
            region.contig == contig,
            region.offset == offset,
            region.end is None,
    {
        GenomicRegion { contig, offset, end: None }
    }
}

} // verus!
