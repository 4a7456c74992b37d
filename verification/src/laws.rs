//! What holds of every exchange between a reader and its backend.

use crate::error::Error;
use crate::header::Header;
use crate::pipeline::ReaderInner;
use crate::reader::{overtakes, Chunk, Outcome, Progress, ReaderState, Reply, Request};
use crate::record::Record;
use crate::region::Span;
use vstd::prelude::*;

verus! {

/// Where the reader stands once `replies` have been reported to it one
/// after the other, `progress` being what it answered last. Replies that
/// come after the exchange is over are not looked at.
pub open spec fn run<T>(state: ReaderState<T>, progress: Progress<T>, replies: Seq<Reply<T>>) -> (
    ReaderState<T>,
    Progress<T>,
)
    decreases replies.len(),
{
    if replies.len() == 0 || progress is Done {
        (state, progress)
    } else {
        let (next, answer) = state.advance(replies.first());
        run(next, answer, replies.drop_first())
    }
}

/// The replies of a backend that decodes `records` one after the other.
pub open spec fn decoded<T>(records: Seq<Record<T>>) -> Seq<Reply<T>> {
    records.map_values(|record: Record<T>| Reply::Record(record))
}

/// What a backend that holds `records` answers when it is asked to read.
pub open spec fn read<T>(records: Seq<Record<T>>) -> Reply<T> {
    if records.len() > 0 {
        Reply::Record(records.first())
    } else {
        Reply::EndOfStream
    }
}

/// One whole `next_record` against a backend that holds `records`: the
/// reader afterwards, what the backend still holds, and the answer.
pub open spec fn deliver<T>(state: ReaderState<T>, records: Seq<Record<T>>) -> (
    ReaderState<T>,
    Seq<Record<T>>,
    Progress<T>,
) {
    let (asked, first) = state.next_record();
    match first {
        Progress::Done(_) => (asked, records, first),
        Progress::Continue(_) => {
            let (told, answer) = asked.advance(read(records));
            (
                told,
                if records.len() > 0 {
                    records.drop_first()
                } else {
                    records
                },
                answer,
            )
        },
    }
}

/// The answer to the call of `next_record` that comes after `before`
/// earlier ones, against a backend that holds `records`.
pub open spec fn delivery<T>(state: ReaderState<T>, records: Seq<Record<T>>, before: nat) -> Progress<
    T,
>
    decreases before,
{
    if before == 0 {
        deliver(state, records).2
    } else {
        delivery(deliver(state, records).0, deliver(state, records).1, (before - 1) as nat)
    }
}

/// What is left of the file: the record read ahead, then what the backend
/// holds.
pub open spec fn left<T>(state: ReaderState<T>, records: Seq<Record<T>>) -> Seq<Record<T>> {
    match state.pending {
        Some(record) => seq![record] + records,
        None => records,
    }
}

/// If `n` records are left of a file, the next `n` calls of `next_record`
/// hand them out in order, and every call after them answers that the stream
/// has ended.
pub proof fn next_record_walks_the_file<T>(
    state: ReaderState<T>,
    records: Seq<Record<T>>,
    before: nat,
)
    ensures
        delivery(state, records, before) == if before < left(state, records).len() {
            Progress::Done(Outcome::Record(left(state, records)[before as int]))
        } else {
            Progress::Done(Outcome::EndOfStream)
        },
    decreases before,
{
    let (after, rest, answer) = deliver(state, records);
    if before > 0 {
        next_record_walks_the_file(after, rest, (before - 1) as nat);
        assert(left(after, rest) =~= left(state, records).drop_first()
            || left(state, records).len() == 0);
        assert(left(state, records).len() == 0 ==> left(after, rest).len() == 0);
    }
}

/// The record read ahead is handed out by the next call of `next_record`,
/// which does not ask the backend, and the slot is empty afterwards.
pub proof fn pending_record_comes_first<T>(state: ReaderState<T>, record: Record<T>)
    requires
        state.pending == Some(record),
    ensures
        state.next_record().1 == Progress::Done(Outcome::Record(record)),
        state.next_record().0.pending is None,
{
}

/// A reader hands back the header that it was opened with, whatever its
/// backend.
pub proof fn fresh_reader_has_its_header<T>(inner: ReaderInner, header: Header)
    ensures
        ReaderState::<T>::fresh(inner, header).header == header,
        ReaderState::<T>::fresh(inner, header).inner == inner,
        ReaderState::<T>::fresh(inner, header).pending is None,
{
}

/// Whatever is asked of the reader and whatever the backend reports, the
/// reader keeps its backend and its header.
pub proof fn header_is_kept<T>(state: ReaderState<T>, region: Span, replies: Seq<Reply<T>>)
    ensures
        state.take().0.header == state.header && state.take().0.inner == state.inner,
        state.next_record().0.header == state.header && state.next_record().0.inner == state.inner,
        state.seek(region).0.header == state.header && state.seek(region).0.inner == state.inner,
        forall|progress: Progress<T>|
            (#[trigger] run(state, progress, replies)).0.header == state.header && run(
                state,
                progress,
                replies,
            ).0.inner == state.inner,
    decreases replies.len(),
{
    assert forall|progress: Progress<T>|
        (#[trigger] run(state, progress, replies)).0.header == state.header && run(
            state,
            progress,
            replies,
        ).0.inner == state.inner by {
        if replies.len() > 0 && !(progress is Done) {
            let (next, answer) = state.advance(replies.first());
            header_is_kept(next, region, replies.drop_first());
            assert(run(state, progress, replies) == run(next, answer, replies.drop_first()));
        }
    }
}

/// Only an indexed reader is ever sent to its index or to a byte offset,
/// and the offset is where the first listed chunk starts: no later chunk is
/// consulted.
pub proof fn only_indexed_readers_move<T>(state: ReaderState<T>, region: Span, reply: Reply<T>)
    ensures
        state.next_record().1 matches Progress::Continue(request) ==> request == Request::Read,
        state.seek(region).1 matches Progress::Continue(request) ==> (request is Read
            || state.inner.can_seek() && request is Query),
        state.advance(reply).1 matches Progress::Continue(request) ==> (request is Read || {
            &&& state.inner.can_seek()
            &&& reply matches Reply::Chunks(chunks)
            &&& chunks@.len() > 0
            &&& request == Request::SeekTo(chunks@[0].start)
        }),
{
}

/// A seek to `region` is under way in `state`, on the reader that `origin`
/// was when the seek began.
spec fn seeking_from<T>(origin: ReaderState<T>, region: Span, state: ReaderState<T>) -> bool {
    &&& state.seeking == Some(region)
    &&& state.pending is None
    &&& state.inner == origin.inner
    &&& state.header == origin.header
    &&& state.last == origin.last
}

/// While a seek goes on, nothing changes but what the backend is asked.
proof fn seek_goes_on<T>(origin: ReaderState<T>, region: Span, state: ReaderState<T>, reply: Reply<T>)
    requires
        seeking_from(origin, region, state),
    ensures
        state.advance(reply).1 is Continue ==> state.advance(reply).0 == state,
        state.advance(reply).1 is Done ==> state.advance(reply).0.seeking is None,
        state.advance(reply).1 == Progress::<T>::Done(Outcome::Found) ==> {
            &&& reply matches Reply::Record(record)
            &&& origin.accepts(region, record)
            &&& state.advance(reply).0.pending == Some(record)
        },
        !(state.advance(reply).1 == Progress::<T>::Done(Outcome::Found)) ==> state.advance(
            reply,
        ).0.pending is None,
        state.advance(reply).1 is Done ==> !(state.advance(reply).1 matches Progress::Done(
            Outcome::Record(_),
        )),
{
}

/// After a seek that succeeds, the next call of `next_record` hands out a
/// record that ends at or after the region's first position. On a stream
/// that record lies on the region's contig; on an indexed file it lies after
/// every record handed out before. After a seek that ends otherwise the slot
/// is empty, and the next call of `next_record` asks the backend.
pub proof fn seek_leaves_a_record_in_reach<T>(
    state: ReaderState<T>,
    region: Span,
    replies: Seq<Reply<T>>,
)
    ensures
        ({
            let begun = state.seek(region);
            let ended = run(begun.0, begun.1, replies);
            &&& ended.1 == Progress::<T>::Done(Outcome::Found) ==> {
                &&& ended.0.pending matches Some(record)
                &&& record.reaches(region)
                &&& !state.inner.can_seek() ==> record.chrom@ == region.contig
                &&& state.inner.can_seek() ==> state.is_new(record)
                &&& ended.0.next_record().1 == Progress::Done(Outcome::Record(record))
            }
            &&& ended.1 is Done && !(ended.1 == Progress::<T>::Done(Outcome::Found)) ==> {
                &&& !(ended.1 matches Progress::Done(Outcome::Record(_)))
                &&& state.refusal(region) is None ==> ended.0.pending is None
                    && ended.0.next_record().1 == Progress::<T>::Continue(Request::Read)
            }
        }),
{
    let begun = state.seek(region);
    if begun.1 is Continue {
        assert(seeking_from(state, region, begun.0));
        seek_ends_in_reach(state, region, begun.0, begun.1, replies);
    } else {
        assert(run(begun.0, begun.1, replies) == begun);
    }
}

/// The same, from any point of a seek on.
proof fn seek_ends_in_reach<T>(
    origin: ReaderState<T>,
    region: Span,
    state: ReaderState<T>,
    progress: Progress<T>,
    replies: Seq<Reply<T>>,
)
    requires
        seeking_from(origin, region, state),
        progress is Continue,
    ensures
        ({
            let ended = run(state, progress, replies);
            &&& ended.1 == Progress::<T>::Done(Outcome::Found) ==> {
                &&& ended.0.pending matches Some(record)
                &&& origin.accepts(region, record)
            }
            &&& ended.1 is Done && !(ended.1 == Progress::<T>::Done(Outcome::Found)) ==> {
                &&& !(ended.1 matches Progress::Done(Outcome::Record(_)))
                &&& ended.0.pending is None
            }
        }),
    decreases replies.len(),
{
    if replies.len() > 0 {
        let (next, answer) = state.advance(replies.first());
        seek_goes_on(origin, region, state, replies.first());
        if answer is Continue {
            seek_ends_in_reach(origin, region, next, answer, replies.drop_first());
        } else {
            assert(run(next, answer, replies.drop_first()) == (next, answer));
        }
    }
}

/// `record` neither ends the seek to `region` nor fails it: the scan reads
/// on.
pub open spec fn passes_over<T>(state: ReaderState<T>, region: Span, record: Record<T>) -> bool {
    !state.accepts(region, record) && !state.rules_out(region, record)
}

/// A seek stops at the first record that it does not pass over, and that
/// record alone decides how it ends: the records before it are discarded
/// and those after it are not read.
pub proof fn seek_stops_at_first<T>(
    state: ReaderState<T>,
    region: Span,
    records: Seq<Record<T>>,
    k: int,
)
    requires
        state.seeking == Some(region),
        0 <= k < records.len(),
        forall|j: int| 0 <= j < k ==> passes_over(state, region, #[trigger] records[j]),
    ensures
        run(state, Progress::Continue(Request::Read), decoded(records.take(k + 1))) == state.offer(
            region,
            records[k],
        ),
    decreases k,
{
    let replies = decoded(records.take(k + 1));
    let asking = Progress::<T>::Continue(Request::Read);
    assert(replies.first() == Reply::Record(records[0]));
    let (next, answer) = state.advance(replies.first());
    assert((next, answer) == state.offer(region, records[0]));
    assert(run(state, asking, replies) == run(next, answer, replies.drop_first()));
    if k == 0 {
        assert(replies.drop_first().len() == 0);
    } else {
        assert(passes_over(state, region, records[0]));
        assert(next == state);
        let rest = records.drop_first();
        assert forall|j: int| 0 <= j < k - 1 implies passes_over(
            state,
            region,
            #[trigger] rest[j],
        ) by {
            assert(rest[j] == records[j + 1]);
        }
        seek_stops_at_first(state, region, rest, k - 1);
        assert(replies.drop_first() =~= decoded(rest.take(k)));
        assert(rest[k - 1] == records[k]);
    }
}

/// A scan that runs out of records ends with the end of the stream, which
/// is no failure.
pub proof fn seek_runs_out<T>(state: ReaderState<T>, region: Span, records: Seq<Record<T>>)
    requires
        state.seeking == Some(region),
        forall|j: int| 0 <= j < records.len() ==> passes_over(state, region, #[trigger] records[j]),
    ensures
        run(
            state,
            Progress::Continue(Request::Read),
            decoded(records).push(Reply::EndOfStream),
        ) == (ReaderState { seeking: None, ..state }, Progress::<T>::Done(Outcome::EndOfStream)),
    decreases records.len(),
{
    let replies = decoded(records).push(Reply::EndOfStream);
    let asking = Progress::<T>::Continue(Request::Read);
    let (next, answer) = state.advance(replies.first());
    assert(run(state, asking, replies) == run(next, answer, replies.drop_first()));
    if records.len() == 0 {
        assert(replies.first() == Reply::<T>::EndOfStream);
        assert(run(next, answer, replies.drop_first()) == (next, answer));
    } else {
        assert(replies.first() == Reply::Record(records[0]));
        assert(passes_over(state, region, records[0]));
        assert(next == state);
        let rest = records.drop_first();
        assert forall|j: int| 0 <= j < rest.len() implies passes_over(
            state,
            region,
            #[trigger] rest[j],
        ) by {
            assert(rest[j] == records[j + 1]);
        }
        seek_runs_out(state, region, rest);
        assert(replies.drop_first() =~= decoded(rest).push(Reply::EndOfStream));
    }
}

/// A seek on a stream fails with `OutOfOrderContig` as soon as the scan meets
/// a record on a contig that the dictionary orders after the region's: the
/// stream only goes forward, so the region can no longer be reached. The
/// record read ahead is left as it was.
pub proof fn stream_seek_rejects_later_contig<T>(
    state: ReaderState<T>,
    region: Span,
    records: Seq<Record<T>>,
    k: int,
)
    requires
        !state.inner.can_seek(),
        state.seeking == Some(region),
        0 <= k < records.len(),
        forall|j: int| 0 <= j < k ==> passes_over(state, region, #[trigger] records[j]),
        overtakes(state.header, region, records[k].chrom@),
    ensures
        run(state, Progress::Continue(Request::Read), decoded(records.take(k + 1))) == (
            ReaderState { seeking: None, ..state },
            Progress::<T>::Done(Outcome::Failed(Error::OutOfOrderContig)),
        ),
{
    seek_stops_at_first(state, region, records, k);
}

/// On a stream a seek judges what is left of the file in order, the record
/// read ahead first, and ends at the first record that it does not pass
/// over. The backend is asked for no record beyond that one.
pub proof fn stream_seek_finds_first<T>(
    state: ReaderState<T>,
    region: Span,
    records: Seq<Record<T>>,
    k: int,
)
    requires
        !state.inner.can_seek(),
        state.refusal(region) is None,
        0 <= k < left(state, records).len(),
        forall|j: int| 0 <= j < k ==> passes_over(state, region, #[trigger] left(state, records)[j]),
    ensures
        ({
            let asked = if state.pending is Some {
                k
            } else {
                k + 1
            };
            let scanning = ReaderState { pending: None, seeking: Some(region), ..state };
            run(state.seek(region).0, state.seek(region).1, decoded(records.take(asked)))
                == scanning.offer(region, left(state, records)[k])
        }),
{
    let file = left(state, records);
    let scanning = ReaderState { pending: None, seeking: Some(region), ..state };
    let begun = state.seek(region);
    match state.pending {
        None => {
            assert(begun.0 == scanning);
            seek_stops_at_first(scanning, region, records, k);
        },
        Some(first) => {
            assert(file[0] == first);
            if k == 0 {
                assert(decoded(records.take(0)).len() == 0);
            } else {
                assert(passes_over(state, region, file[0]));
                assert(begun == (scanning, Progress::<T>::Continue(Request::Read)));
                assert forall|j: int| 0 <= j < k - 1 implies passes_over(
                    scanning,
                    region,
                    #[trigger] records[j],
                ) by {
                    assert(records[j] == file[j + 1]);
                    assert(passes_over(state, region, file[j + 1]));
                }
                seek_stops_at_first(scanning, region, records, k - 1);
                assert(records[k - 1] == file[k]);
            }
        },
    }
}

/// On an indexed file a seek goes to where the first listed chunk starts,
/// judges the records from there on in order, and ends at the first that it
/// does not pass over. The record read ahead before the seek is dropped.
pub proof fn indexed_seek_finds_first<T>(
    state: ReaderState<T>,
    region: Span,
    chunks: Vec<Chunk>,
    records: Seq<Record<T>>,
    k: int,
)
    requires
        state.inner.can_seek(),
        state.refusal(region) is None,
        chunks@.len() > 0,
        0 <= k < records.len(),
        forall|j: int| 0 <= j < k ==> passes_over(state, region, #[trigger] records[j]),
    ensures
        ({
            let scanning = ReaderState { pending: None, seeking: Some(region), ..state };
            let begun = state.seek(region);
            &&& begun.1 is Continue
            &&& begun.0.advance(Reply::Chunks(chunks)) == (
                scanning,
                Progress::<T>::Continue(Request::SeekTo(chunks@[0].start)),
            )
            &&& run(
                begun.0,
                begun.1,
                seq![Reply::Chunks(chunks), Reply::Positioned] + decoded(records.take(k + 1)),
            ) == scanning.offer(region, records[k])
        }),
{
    let scanning = ReaderState { pending: None, seeking: Some(region), ..state };
    let begun = state.seek(region);
    let reading = Progress::<T>::Continue(Request::Read);
    let replies = seq![Reply::Chunks(chunks), Reply::Positioned] + decoded(records.take(k + 1));
    assert(begun.0 == scanning);
    let moved = scanning.advance(replies.first());
    assert(replies.first() == Reply::<T>::Chunks(chunks));
    assert(moved.0 == scanning);
    let after = replies.drop_first();
    assert(after.first() == Reply::<T>::Positioned);
    assert(scanning.advance(after.first()) == (scanning, reading));
    assert(after.drop_first() =~= decoded(records.take(k + 1)));
    assert(run(scanning, moved.1, after) == run(scanning, reading, after.drop_first()));
    assert(run(scanning, begun.1, replies) == run(scanning, moved.1, after));
    seek_stops_at_first(scanning, region, records, k);
}

} // verus!
