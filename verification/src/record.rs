//! What seeking reads of a variant record.

use crate::header::Header;
use crate::region::{GenomicRegion, Span};
use vstd::prelude::*;

verus! {

/// One variant entry: where it lies, and whatever the decoder made of the
/// rest of it.
#[derive(Clone, Debug, PartialEq, Eq)]
pub struct Record<T> {
    /// The name of its chromosome.
    pub chrom: Vec<u8>,
    /// Its first position, counted from 1.
    pub start: u64,
    /// The first position after it, where the decoder can tell.
    pub end: Option<u64>,
    /// The decoded entry itself. The library only carries it.
    pub data: T,
}

/// The end coordinate of an entry that starts at `start`: the explicit one,
/// or else the position after its first.
pub open spec fn end_of(start: u64, end: Option<u64>) -> int {
    match end {
        Some(e) => e as int,
        None => start + 1,
    }
}

impl<T> Record<T> {
    /// The record's end coordinate.
    pub open spec fn end_coordinate(self) -> int {
        end_of(self.start, self.end)
    }

    /// The record ends at or after the region's first position.
    pub open spec fn reaches(self, region: Span) -> bool {
        self.end_coordinate() >= region.start()
    }

    /// Whether the record ends at or after the region's first position.
    pub fn ends_in_reach(&self, region: &GenomicRegion) -> (reached: bool)
        ensures
            reached == self.reaches(region@),
    {
        match self.end {
            Some(e) => e > region.offset,
            None => self.start >= region.offset,
        }
    }

    /// Where the record lies under `header`.
    pub open spec fn mark(self, header: Header) -> Mark {
        Mark {
            rank: match header.rank(self.chrom@) {
                Some(i) => Some(i as usize),
                None => None,
            },
            start: self.start,
            end: self.end,
        }
    }

    /// Notes where the record lies under `header`.
    pub fn locate(&self, header: &Header) -> (mark: Mark)
        ensures
            mark == self.mark(*header),
    {
        Mark { rank: header.index_of(self.chrom.as_slice()), start: self.start, end: self.end }
    }
}

/// The place of a record in a sorted file: the dictionary index of its
/// contig, its first position and its explicit end.
#[derive(Clone, Copy, Debug, PartialEq, Eq, Structural)]
pub struct Mark {
    /// The dictionary index of the contig, if the header declares it.
    pub rank: Option<usize>,
    /// The first position.
    pub start: u64,
    /// The explicit end.
    pub end: Option<u64>,
}

impl Mark {
    /// The dictionary index as a number, with -1 for a contig that the
    /// header does not declare.
    pub open spec fn rank_number(self) -> int {
        match self.rank {
            Some(i) => i as int,
            None => -1,
        }
    }

    /// `self` lies after `last` in a sorted file: on a later contig, or on
    /// the same one at a later start, or at the same start with a later end.
    pub open spec fn follows(self, last: Mark) -> bool {
        ||| self.rank_number() > last.rank_number()
        ||| self.rank_number() == last.rank_number() && self.start > last.start
        ||| self.rank_number() == last.rank_number() && self.start == last.start && end_of(
            self.start,
            self.end,
        ) > end_of(last.start, last.end)
    }
}

/// Whether `record` lies after `last` in a sorted file.
pub fn is_record_after_last(last: &Mark, record: &Mark) -> (after: bool)
    ensures
        after == record.follows(*last),
{
    let later_contig = match (record.rank, last.rank) {
        (Some(r), Some(l)) => r > l,
        (Some(_), None) => true,
        (None, _) => false,
    };
    let same_contig = match (record.rank, last.rank) {
        (Some(r), Some(l)) => r == l,
        (None, None) => true,
        _ => false,
    };
    if later_contig {
        true
    } else if !same_contig {
        false
    } else if record.start != last.start {
        record.start > last.start
    } else {
        match (record.end, last.end) {
            (Some(r), Some(l)) => r > l,
            (Some(r), None) => r > last.start && r - 1 > last.start,
            (None, Some(l)) => record.start >= l,
            (None, None) => false,
        }
    }
}

} // verus!
