//! The reader that serves all subscriptions of one kind over one connection.

use vstd::prelude::*;

use crate::broker::redis::acks::{ids_of, is_first_key, AckLog};
use crate::broker::redis::reader::{ReaderPhaseView, ReaderTask, ReaderView};
use crate::broker::redis::reader_laws::consistent;
use crate::broker::redis::stream::StreamObserver;
use crate::text::{opt_text, texts};

verus! {

/// How streams are read.
#[derive(Debug, PartialEq, Eq)]
pub struct StreamReadOptions {
    /// How many entries to read of each stream.
    pub count: Option<usize>,
    /// How many milliseconds to wait for an entry.
    pub block: Option<usize>,
    /// The group to read in, and the consumer in it.
    pub group: Option<(String, String)>,
}

/// The model of [`StreamReadOptions`].
pub struct ReadOptionsView {
    pub count: Option<usize>,
    pub block: Option<usize>,
    pub group: Option<(Seq<char>, Seq<char>)>,
}

impl View for StreamReadOptions {
    type V = ReadOptionsView;

    open spec fn view(&self) -> ReadOptionsView {
        ReadOptionsView {
            count: self.count,
            block: self.block,
            group: match self.group {
                Some(g) => Some((g.0@, g.1@)),
                None => None,
            },
        }
    }
}

impl StreamReadOptions {
    /// Whether reading leaves no trace: outside a group nothing is to be acknowledged.
    pub fn read_only(&self) -> (r: bool)
        ensures
            r == (self@.group is None),
    {
        self.group.is_none()
    }
}

/// The ID from which a subscription reads: the start of the stream where none is given.
pub open spec fn first_id(last_id: Option<Seq<char>>) -> Seq<char> {
    match last_id {
        Some(id) => id,
        None => "0-0"@,
    }
}

/// A reader of streams for those who subscribe to them.
pub struct RedisStreamsBatchReader {
    /// How many streams are expected.
    pub size: usize,
    pub options: StreamReadOptions,
    /// The entries that were processed and are to be acknowledged.
    processed: AckLog,
}

/// The model of a [`RedisStreamsBatchReader`].
pub struct BatchReaderView {
    pub size: usize,
    pub options: ReadOptionsView,
    pub processed: Map<Seq<char>, Seq<Seq<char>>>,
}

impl View for RedisStreamsBatchReader {
    type V = BatchReaderView;

    closed spec fn view(&self) -> BatchReaderView {
        BatchReaderView {
            size: self.size,
            options: self.options@,
            processed: self.processed@,
        }
    }
}

impl RedisStreamsBatchReader {
    /// Subscribe to Redis stream, start listening since last message id.
    pub fn subscribe<P: Into<Option<String>>, C>(&self, key: String, last_id: P, callback: C) -> (r:
        StreamObserver<C>)
        ensures
            r.key@ == key@,
            r.callback == callback,
            exists|id: Option<String>| #[trigger]
                call_ensures(P::into, (last_id,), id) && r.last_id@ == first_id(opt_text(id)),
    {
        let last_id: Option<String> = last_id.into();
        StreamObserver {
            key,
            last_id: match last_id {
                Some(id) => id,
                // `XREAD {stream-key} "0-0"` means read from the start of the stream
                None => "0-0".to_owned(),
            },
            callback,
        }
    }

    /// A reader for streams of which everyone gets every entry.
    pub fn broadcast(size: usize, wait_time_ms: u128) -> (r: Self)
        ensures
            r@.size == size,
            r@.options == (ReadOptionsView {
                count: Some(1),
                block: Some(wait_time_ms as usize),
                group: None,
            }),
            r@.processed == Map::<Seq<char>, Seq<Seq<char>>>::empty(),
    {
        Self::new(
            size,
            StreamReadOptions {
                count: Some(1),
                block: Some(#[verifier::truncate] (wait_time_ms as usize)),
                group: None,
            },
        )
    }

    /// A reader for streams that the consumers of a group share.
    pub fn cooperative(size: usize, wait_time_ms: u128, group: &str, consumer: &str) -> (r: Self)
        ensures
            r@.size == size,
            r@.options == (ReadOptionsView {
                count: Some(1),
                block: Some(wait_time_ms as usize),
                group: Some((group@, consumer@)),
            }),
            r@.processed == Map::<Seq<char>, Seq<Seq<char>>>::empty(),
    {
        Self::new(
            size,
            StreamReadOptions {
                count: Some(1),
                block: Some(#[verifier::truncate] (wait_time_ms as usize)),
                group: Some((group.to_owned(), consumer.to_owned())),
            },
        )
    }

    /// A reader for `size` streams.
    fn new(size: usize, options: StreamReadOptions) -> (r: Self)
        ensures
            r@.size == size,
            r@.options == options@,
            r@.processed == Map::<Seq<char>, Seq<Seq<char>>>::empty(),
    {
        RedisStreamsBatchReader { size, options, processed: AckLog::new() }
    }

    /// The task that does the reading.
    pub fn task<C>(&self) -> (r: ReaderTask<C>)
        ensures
            r@ == (ReaderView::<C> {
                read_only: self@.options.group is None,
                keys: Seq::empty(),
                ids: Seq::empty(),
                callbacks: Map::empty(),
                phase: ReaderPhaseView::Idle,
            }),
            consistent(r@),
    {
        ReaderTask::new(self.options.read_only())
    }

    /// Notes that an entry was processed.
    pub fn ack(&mut self, key: String, id: String)
        ensures
            final(self)@ == (BatchReaderView {
                processed: old(self)@.processed.insert(
                    key@,
                    ids_of(old(self)@.processed, key@).push(id@),
                ),
                ..old(self)@
            }),
    {
        self.processed.push(key, id);
    }

    /// Takes the entries of the next stream that were processed.
    pub fn take_processed(&mut self) -> (r: Option<(String, Vec<String>)>)
        ensures
            match r {
                Some(stream) => {
                    &&& is_first_key(old(self)@.processed, stream.0@)
                    &&& texts(stream.1@) == old(self)@.processed[stream.0@]
                    &&& final(self)@ == (BatchReaderView {
                        processed: old(self)@.processed.remove(stream.0@),
                        ..old(self)@
                    })
                },
                None => old(self)@.processed == Map::<Seq<char>, Seq<Seq<char>>>::empty()
                    && final(self)@ == old(self)@,
            },
    {
        self.processed.pop_first()
    }
}

/// What was acknowledged is there to be taken: the entry is the last one noted of its stream,
/// those noted before it come before it, and other streams are as they were.
pub proof fn acknowledged_entries_are_kept(
    processed: Map<Seq<char>, Seq<Seq<char>>>,
    key: Seq<char>,
    id: Seq<char>,
    other: Seq<char>,
)
    requires
        other != key,
    ensures
        ({
            let after = processed.insert(key, ids_of(processed, key).push(id));
            &&& ids_of(after, key).last() == id
            &&& ids_of(after, key).drop_last() == ids_of(processed, key)
            &&& ids_of(after, other) == ids_of(processed, other)
        }),
{
    let after = processed.insert(key, ids_of(processed, key).push(id));
    assert(ids_of(after, key).drop_last() =~= ids_of(processed, key));
}

/// A subscription starts from the ID that it was given, whatever it is, and from the start of the
/// stream where it was given none.
pub proof fn subscriptions_start_where_they_are_told(id: Seq<char>)
    ensures
        first_id(Some(id)) == id,
        first_id(None) == "0-0"@,
{
}

} // verus!
