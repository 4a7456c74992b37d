//! The reader: one record source over every backend, with a single slot for
//! a record that was read ahead, and the seek to a genomic region.
//!
//! The reader never touches the file. It says what the backend has to do
//! next, as a [`Request`], and is told what came of it, as a [`Reply`]. A
//! call of [`Reader::next_record`], [`Reader::seek`] or [`Skip::skip_to`]
//! opens such an exchange and [`Reader::advance`] carries it on, until one of
//! them answers [`Progress::Done`].
//!
//! Seeking is forward-only on both backends. A stream cannot go back, so a
//! seek on it scans on from where the stream stands, the record read ahead
//! first. An indexed file can go back, and there a seek passes over every
//! record that does not lie after the last one handed out: seeking twice to
//! the same place, with the record read in between, gives the record that
//! follows, not the same record again.

use crate::bytes::same_bytes;
use crate::error::Error;
use crate::header::Header;
use crate::pipeline::ReaderInner;
use crate::record::{is_record_after_last, Mark, Record};
use crate::region::{GenomicRegion, Span};
use vstd::prelude::*;
use vstd::string::{StrSliceExecFns, StringSliceAdditionalSpecFns};

verus! {

/// A range of bytes of the file in which the index places records.
#[derive(Clone, Copy, Debug, PartialEq, Eq)]
pub struct Chunk {
    /// Where the range begins.
    pub start: u64,
    /// Where it ends.
    pub end: u64,
}

/// What the reader asks of its backend.
#[derive(Clone, Copy, Debug, PartialEq, Eq)]
pub enum Request {
    /// Decode the record at the current position and move past it. The
    /// answer is [`Reply::Record`], [`Reply::EndOfStream`] or
    /// [`Reply::Failed`].
    Read,
    /// List, in order, the chunks that may hold records of the contig with
    /// dictionary index `contig` that lie past its first `offset` positions
    /// and before `end`. The answer is [`Reply::Chunks`]; a backend whose
    /// index moves by itself answers [`Reply::Positioned`] once it stands
    /// at the first of them, or [`Reply::EndOfStream`] if there is none.
    Query { contig: usize, offset: u64, end: Option<u64> },
    /// Move to the given byte offset. The answer is [`Reply::Positioned`] or
    /// [`Reply::Failed`].
    SeekTo(u64),
}

/// What the backend reports.
#[derive(Debug, PartialEq, Eq)]
pub enum Reply<T> {
    /// The record that was decoded.
    Record(Record<T>),
    /// Nothing is left to decode.
    EndOfStream,
    /// The chunks that the index lists, in order.
    Chunks(Vec<Chunk>),
    /// The backend stands where it was sent.
    Positioned,
    /// The backend failed.
    Failed,
}

/// How an exchange ended.
#[derive(Debug, PartialEq, Eq)]
pub enum Outcome<T> {
    /// The next record of the file.
    Record(Record<T>),
    /// The file holds no further record.
    EndOfStream,
    /// The seek found its record: the next call of `next_record` hands it
    /// out.
    Found,
    /// The operation failed.
    Failed(Error),
}

/// Where an exchange stands.
#[derive(Debug, PartialEq, Eq)]
pub enum Progress<T> {
    /// The backend has to carry out the request and the caller to report the
    /// reply to [`Reader::advance`].
    Continue(Request),
    /// The exchange is over.
    Done(Outcome<T>),
}

/// A contig named `chrom` stands after the region's contig in the
/// dictionary: once a forward scan meets it, the region is out of reach.
pub open spec fn overtakes(header: Header, region: Span, chrom: Seq<u8>) -> bool {
    &&& header.rank(chrom) matches Some(i)
    &&& header.rank(region.contig) matches Some(t)
    &&& i > t
}

/// The reader as contracts speak of it.
pub struct ReaderState<T> {
    /// The backend.
    pub inner: ReaderInner,
    /// The header that the file was opened with.
    pub header: Header,
    /// The record read ahead, if there is one.
    pub pending: Option<Record<T>>,
    /// Where the last record lay that an indexed reader handed out.
    pub last: Option<Mark>,
    /// The region of the seek that is under way, if one is.
    pub seeking: Option<Span>,
}

impl<T> ReaderState<T> {
    /// A reader that has just been opened.
    pub open spec fn fresh(inner: ReaderInner, header: Header) -> ReaderState<T> {
        ReaderState { inner, header, pending: None, last: None, seeking: None }
    }

    /// What the reader remembers once it has handed out `record`. Only an
    /// indexed reader can come back to a record, so only it keeps note.
    pub open spec fn noted(self, record: Record<T>) -> Option<Mark> {
        if self.inner.can_seek() {
            Some(record.mark(self.header))
        } else {
            self.last
        }
    }

    /// `record` lies after everything that the reader has handed out.
    pub open spec fn is_new(self, record: Record<T>) -> bool {
        match self.last {
            Some(last) => record.mark(self.header).follows(last),
            None => true,
        }
    }

    /// `record` is what a seek to `region` looks for. It has to end at or
    /// after the region's first position. On a stream it also has to lie on
    /// the region's contig. On an indexed file, where the backend was sent
    /// into that contig, it has to be new instead.
    pub open spec fn accepts(self, region: Span, record: Record<T>) -> bool {
        &&& record.reaches(region)
        &&& if self.inner.can_seek() {
            self.is_new(record)
        } else {
            record.chrom@ == region.contig
        }
    }

    /// `record` shows that a forward scan has gone past the region's contig.
    pub open spec fn rules_out(self, region: Span, record: Record<T>) -> bool {
        !self.inner.can_seek() && overtakes(self.header, region, record.chrom@)
    }

    /// Why a seek to `region` cannot begin, if it cannot. An indexed reader
    /// needs the contig's dictionary index. A stream checks the region only
    /// against a dictionary that exists: the contig has to be declared, and
    /// the region has to start within the contig's declared length.
    pub open spec fn refusal(self, region: Span) -> Option<Error> {
        match self.header.rank(region.contig) {
            None => if self.inner.can_seek() || self.header.has_dictionary() {
                Some(Error::UnknownContig)
            } else {
                None
            },
            Some(t) => match self.header.contigs@[t].length {
                Some(length) => if !self.inner.can_seek() && region.start() > length {
                    Some(Error::OutOfBoundsRegion)
                } else {
                    None
                },
                None => None,
            },
        }
    }

    /// Empties the slot.
    pub open spec fn take(self) -> (ReaderState<T>, Option<Record<T>>) {
        match self.pending {
            Some(record) => (
                ReaderState { pending: None, last: self.noted(record), ..self },
                Some(record),
            ),
            None => (self, None),
        }
    }

    /// Asks for the next record. The record read ahead comes first, and the
    /// backend is not asked; without one the backend has to read. A seek
    /// that is under way is given up.
    pub open spec fn next_record(self) -> (ReaderState<T>, Progress<T>) {
        match self.pending {
            Some(record) => (
                ReaderState { pending: None, last: self.noted(record), seeking: None, ..self },
                Progress::Done(Outcome::Record(record)),
            ),
            None => (ReaderState { seeking: None, ..self }, Progress::Continue(Request::Read)),
        }
    }

    /// A record arrives during the seek to `region`.
    pub open spec fn offer(self, region: Span, record: Record<T>) -> (ReaderState<T>, Progress<T>) {
        if self.accepts(region, record) {
            (
                ReaderState { pending: Some(record), seeking: None, ..self },
                Progress::Done(Outcome::Found),
            )
        } else if self.rules_out(region, record) {
            (
                ReaderState { seeking: None, ..self },
                Progress::Done(Outcome::Failed(Error::OutOfOrderContig)),
            )
        } else {
            (ReaderState { seeking: Some(region), ..self }, Progress::Continue(Request::Read))
        }
    }

    /// Begins the seek to `region`. A seek that is under way is given up. An
    /// indexed reader drops the record read ahead and asks the index. A
    /// stream looks at the record read ahead first, then reads on.
    pub open spec fn seek(self, region: Span) -> (ReaderState<T>, Progress<T>) {
        match self.refusal(region) {
            Some(e) => (ReaderState { seeking: None, ..self }, Progress::Done(Outcome::Failed(e))),
            None => if self.inner.can_seek() {
                (
                    ReaderState { pending: None, seeking: Some(region), ..self },
                    Progress::Continue(
                        Request::Query {
                            contig: self.header.rank(region.contig)->0 as usize,
                            offset: region.offset,
                            end: region.end,
                        },
                    ),
                )
            } else {
                match self.pending {
                    Some(record) => ReaderState { pending: None, ..self }.offer(region, record),
                    None => (
                        ReaderState { seeking: Some(region), ..self },
                        Progress::Continue(Request::Read),
                    ),
                }
            },
        }
    }

    /// Takes in what the backend reports.
    ///
    /// A record that arrives during a seek is judged by the seek; one that
    /// arrives otherwise is the next record and is handed out. The end of
    /// the stream and a failure end the exchange, and the seek with it. Of a
    /// list of chunks only the first is used, and only by an indexed reader
    /// that is seeking: it sends the backend to where that chunk starts, or
    /// ends the seek if the list is empty. Every other report leaves the
    /// reader asking for a record.
    pub open spec fn advance(self, reply: Reply<T>) -> (ReaderState<T>, Progress<T>) {
        match reply {
            Reply::Record(record) => match self.seeking {
                Some(region) => self.offer(region, record),
                None => (
                    ReaderState { last: self.noted(record), ..self },
                    Progress::Done(Outcome::Record(record)),
                ),
            },
            Reply::EndOfStream => (
                ReaderState { seeking: None, ..self },
                Progress::Done(Outcome::EndOfStream),
            ),
            Reply::Failed => (
                ReaderState { seeking: None, ..self },
                Progress::Done(Outcome::Failed(Error::Io)),
            ),
            Reply::Chunks(chunks) => if self.seeking is Some && self.inner.can_seek() {
                if chunks@.len() == 0 {
                    (ReaderState { seeking: None, ..self }, Progress::Done(Outcome::EndOfStream))
                } else {
                    (self, Progress::Continue(Request::SeekTo(chunks@[0].start)))
                }
            } else {
                (self, Progress::Continue(Request::Read))
            },
            Reply::Positioned => (self, Progress::Continue(Request::Read)),
        }
    }
}

/// A seek that is under way.
struct Seek {
    /// Where it is headed.
    region: GenomicRegion,
    /// The dictionary index of the region's contig.
    target: Option<usize>,
    /// The chromosome of the record that the scan looked up last. Its place
    /// in the dictionary is known not to rule the region out, so records on
    /// it need no further lookup.
    seen: Option<Vec<u8>>,
}

/// One record source, whatever the backend.
pub struct Reader<T> {
    inner: ReaderInner,
    header: Header,
    pending: Option<Record<T>>,
    last: Option<Mark>,
    task: Option<Seek>,
}

/// The dictionary index that a lookup gave, as contracts count it.
spec fn as_rank(found: Option<usize>) -> Option<int> {
    match found {
        Some(i) => Some(i as int),
        None => None,
    }
}

impl<T> View for Reader<T> {
    type V = ReaderState<T>;

    closed spec fn view(&self) -> ReaderState<T> {
        ReaderState {
            inner: self.inner,
            header: self.header,
            pending: self.pending,
            last: self.last,
            seeking: match self.task {
                Some(seek) => Some(seek.region@),
                None => None,
            },
        }
    }
}

impl<T> Reader<T> {
    #[verifier::type_invariant]
    spec fn well_formed(self) -> bool {
        self.task matches Some(seek) ==> {
            &&& as_rank(seek.target) == self.header.rank(seek.region.contig@)
            &&& seek.seen matches Some(chrom) ==> !overtakes(self.header, seek.region@, chrom@)
        }
    }

    /// A reader over the given backend, for a file with the given header.
    pub fn new(inner: ReaderInner, header: Header) -> (reader: Reader<T>)
        ensures
            reader@ == ReaderState::<T>::fresh(inner, header),
    {
        Reader { inner, header, pending: None, last: None, task: None }
    }

    /// A reader over the given backend, once the header has been read.
    /// `header` is absent where the file's header could not be parsed, and
    /// that failure is passed on.
    pub fn with_header(inner: ReaderInner, header: Option<Header>) -> (reader: Result<
        Reader<T>,
        Error,
    >)
        ensures
            match header {
                Some(h) => reader matches Ok(r) && r@ == ReaderState::<T>::fresh(inner, h),
                None => reader matches Err(e) && e == Error::HeaderParse,
            },
    {
        match header {
            Some(h) => Ok(Reader::new(inner, h)),
            None => Err(Error::HeaderParse),
        }
    }

    /// The header that the file was opened with.
    pub fn header(&self) -> (header: &Header)
        ensures
            *header == self@.header,
    {
        &self.header
    }

    /// The backend that was chosen when the file was opened.
    pub fn inner(&self) -> (inner: ReaderInner)
        ensures
            inner == self@.inner,
    {
        self.inner
    }

    /// Notes down, on an indexed reader, where a record lies that is about
    /// to be handed out.
    fn note(&self, record: &Record<T>) -> (last: Option<Mark>)
        ensures
            last == self@.noted(*record),
    {
        match self.inner {
            ReaderInner::Indexed(_) => Some(record.locate(&self.header)),
            ReaderInner::Plain(_, _) => self.last,
        }
    }

    /// Hands out the record read ahead, if there is one, and empties the
    /// slot.
    pub fn take(&mut self) -> (record: Option<Record<T>>)
        ensures
            (final(self)@, record) == old(self)@.take(),
    {
        proof {
            use_type_invariant(&*self);
        }
        let mut held: Option<Record<T>> = None;
        core::mem::swap(&mut self.pending, &mut held);
        match held {
            Some(record) => {
                let last = self.note(&record);
                self.last = last;
                Some(record)
            },
            None => None,
        }
    }

    /// Asks for the next record of the file.
    ///
    /// The record read ahead, if there is one, is the answer, and the
    /// backend is not asked. Otherwise the backend has to read, and
    /// [`Reader::advance`] hands out what it read, or says that the stream
    /// has ended. A seek that is under way is given up.
    pub fn next_record(&mut self) -> (progress: Progress<T>)
        ensures
            (final(self)@, progress) == old(self)@.next_record(),
    {
        proof {
            use_type_invariant(&*self);
        }
        self.task = None;
        match self.take() {
            Some(record) => Progress::Done(Outcome::Record(record)),
            None => Progress::Continue(Request::Read),
        }
    }

    /// Judges a record that arrived during the seek `seek`.
    fn offer(&mut self, seek: Seek, record: Record<T>) -> (progress: Progress<T>)
        requires
            old(self).task is None,
            as_rank(seek.target) == old(self).header.rank(seek.region.contig@),
            seek.seen matches Some(chrom) ==> !overtakes(old(self).header, seek.region@, chrom@),
        ensures
            (final(self)@, progress) == old(self)@.offer(seek.region@, record),
    {
        let reached = record.ends_in_reach(&seek.region);
        match self.inner {
            ReaderInner::Indexed(_) => {
                let is_new = match self.last {
                    Some(last) => {
                        let mark = record.locate(&self.header);
                        is_record_after_last(&last, &mark)
                    },
                    None => true,
                };
                if reached && is_new {
                    self.pending = Some(record);
                    Progress::Done(Outcome::Found)
                } else {
                    self.task = Some(seek);
                    Progress::Continue(Request::Read)
                }
            },
            ReaderInner::Plain(_, _) => {
                if reached && same_bytes(record.chrom.as_slice(), seek.region.contig.as_slice()) {
                    self.pending = Some(record);
                    return Progress::Done(Outcome::Found);
                }
                let looked_up = match &seek.seen {
                    Some(chrom) => same_bytes(chrom.as_slice(), record.chrom.as_slice()),
                    None => false,
                };
                if looked_up {
                    self.task = Some(seek);
                    return Progress::Continue(Request::Read);
                }
                let late = match seek.target {
                    Some(t) => match self.header.index_of(record.chrom.as_slice()) {
                        Some(i) => i > t,
                        None => false,
                    },
                    None => false,
                };
                if late {
                    Progress::Done(Outcome::Failed(Error::OutOfOrderContig))
                } else {
                    self.task = Some(
                        Seek { region: seek.region, target: seek.target, seen: Some(record.chrom) },
                    );
                    Progress::Continue(Request::Read)
                }
            },
        }
    }

    /// Begins the seek to the first record that reaches `region`.
    ///
    /// The region is checked against the header first: see
    /// [`ReaderState::refusal`]. An indexed reader then asks its index for
    /// the region's chunks, and the record read ahead is dropped. A stream
    /// scans forward from where it stands, the record read ahead first.
    /// [`Reader::advance`] carries the seek on. It ends with
    /// [`Outcome::Found`] and the record in the slot, with
    /// [`Outcome::EndOfStream`] where no record is left, or with a failure.
    pub fn seek(&mut self, region: GenomicRegion) -> (progress: Progress<T>)
        ensures
            (final(self)@, progress) == old(self)@.seek(region@),
    {
        proof {
            use_type_invariant(&*self);
        }
        self.task = None;
        let target = self.header.index_of(region.contig.as_slice());
        proof {
            self.header.rank_in_range(region.contig@);
        }
        let indexed = match self.inner {
            ReaderInner::Indexed(_) => true,
            ReaderInner::Plain(_, _) => false,
        };
        match target {
            None => {
                if indexed || self.header.contigs.len() > 0 {
                    return Progress::Done(Outcome::Failed(Error::UnknownContig));
                }
            },
            Some(t) => {
                match self.header.contigs[t].length {
                    Some(length) => {
                        if !indexed && region.offset >= length {
                            return Progress::Done(Outcome::Failed(Error::OutOfBoundsRegion));
                        }
                    },
                    None => {},
                }
            },
        }
        if indexed {
            let request = match target {
                Some(t) => Request::Query { contig: t, offset: region.offset, end: region.end },
                None => Request::Read,
            };
            self.pending = None;
            self.task = Some(Seek { region, target, seen: None });
            Progress::Continue(request)
        } else {
            let seek = Seek { region, target, seen: None };
            let mut held: Option<Record<T>> = None;
            core::mem::swap(&mut self.pending, &mut held);
            match held {
                Some(record) => self.offer(seek, record),
                None => {
                    self.task = Some(seek);
                    Progress::Continue(Request::Read)
                },
            }
        }
    }

    /// Takes in what the backend reports and says how the exchange goes on.
    /// [`ReaderState::advance`] tells what each report leads to.
    pub fn advance(&mut self, reply: Reply<T>) -> (progress: Progress<T>)
        ensures
            (final(self)@, progress) == old(self)@.advance(reply),
    {
        proof {
            use_type_invariant(&*self);
        }
        match reply {
            Reply::Record(record) => {
                let mut task: Option<Seek> = None;
                core::mem::swap(&mut self.task, &mut task);
                match task {
                    Some(seek) => self.offer(seek, record),
                    None => {
                        let last = self.note(&record);
                        self.last = last;
                        Progress::Done(Outcome::Record(record))
                    },
                }
            },
            Reply::EndOfStream => {
                self.task = None;
                Progress::Done(Outcome::EndOfStream)
            },
            Reply::Failed => {
                self.task = None;
                Progress::Done(Outcome::Failed(Error::Io))
            },
            Reply::Chunks(chunks) => {
                let indexed = match self.inner {
                    ReaderInner::Indexed(_) => true,
                    ReaderInner::Plain(_, _) => false,
                };
                if self.task.is_some() && indexed {
                    if chunks.len() == 0 {
                        self.task = None;
                        Progress::Done(Outcome::EndOfStream)
                    } else {
                        Progress::Continue(Request::SeekTo(chunks[0].start))
                    }
                } else {
                    Progress::Continue(Request::Read)
                }
            },
            Reply::Positioned => Progress::Continue(Request::Read),
        }
    }
}

/// Seeking by chromosome and position.
pub trait Skip {
    /// What a record carries.
    type Data;

    /// Begins the seek to the first record on `chrom` that reaches the
    /// position after the first `pos0` ones.
    fn skip_to(&mut self, chrom: &str, pos0: u64) -> Progress<Self::Data>;
}

impl<T> Skip for Reader<T> {
    type Data = T;

    /// Begins the seek to the region of `chrom` that leaves out its first
    /// `pos0` positions and runs to the end of the stream, as
    /// [`Reader::seek`] does.
    fn skip_to(&mut self, chrom: &str, pos0: u64) -> (progress: Progress<T>)
        ensures
            (final(self)@, progress) == old(self)@.seek(
                Span { contig: chrom.spec_bytes(), offset: pos0, end: None },
            ),
    {
        let region = GenomicRegion::after(chrom.as_bytes_vec(), pos0);
        self.seek(region)
    }
}

} // verus!
