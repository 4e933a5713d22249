//! Entries of Redis streams and those who wait for them.

use vstd::prelude::*;
use vstd::string::*;
use vstd::utf8::{decode_utf8, valid_utf8};

use crate::error::BrokerError;
use crate::string_map::StringMap;
use crate::text::{
    chars_of, decimal_i64, int_text, int_text_reads_back, parse_decimal, signed_text, texts,
};

verus! {

/// The error type of the `redis` crate for values that do not convert, carried as it comes.
#[verifier::external_type_specification]
#[verifier::external_body]
pub struct ExParsingError(::redis::ParsingError);

/// The value type of the `redis` crate, carried as it comes.
#[verifier::external_type_specification]
#[verifier::external_body]
pub struct ExRedisValue(::redis::Value);

/// A value of a field of a stream entry.
#[derive(Debug)]
pub enum StreamValue {
    BulkString(Vec<u8>),
    SimpleString(String),
    VerbatimString(String),
    Int(i64),
    Okay,
    /// A value of another kind, as it came.
    Other(::redis::Value),
}

/// The text that the `redis` crate reads a value of another kind as, if it does.
pub uninterp spec fn other_text(value: ::redis::Value) -> Option<Seq<char>>;

/// The text that a value stands for.
pub open spec fn value_text(value: StreamValue) -> Option<Seq<char>> {
    match value {
        StreamValue::BulkString(bytes) => if valid_utf8(bytes@) {
            Some(decode_utf8(bytes@))
        } else {
            None
        },
        StreamValue::SimpleString(s) => Some(s@),
        StreamValue::VerbatimString(s) => Some(s@),
        StreamValue::Int(n) => Some(int_text(n as int)),
        StreamValue::Okay => Some("OK"@),
        StreamValue::Other(v) => other_text(v),
    }
}

/// Calls `redis::from_redis_value_ref` for a `String`.
///
/// Trusted: a bulk string gives its UTF-8 text, a simple or verbatim string its text, an
/// integer its decimal digits and the status its word; bytes that are not UTF-8 give an error.
/// What comes of a value of another kind depends on that value alone.
#[verifier::external_body]
fn value_to_string(value: &StreamValue) -> (r: Result<String, ::redis::ParsingError>)
    ensures
        !(value is Other) ==> (match r {
            Ok(s) => value_text(*value) == Some(s@),
            Err(_) => value_text(*value) is None,
        }),
        value matches StreamValue::Other(v) ==> (match r {
            Ok(s) => other_text(*v) == Some(s@),
            Err(_) => other_text(*v) is None,
        }),
{
    let value = match value {
        StreamValue::BulkString(bytes) => ::redis::Value::BulkString(bytes.clone()),
        StreamValue::SimpleString(s) => ::redis::Value::SimpleString(s.clone()),
        StreamValue::VerbatimString(s) => ::redis::Value::VerbatimString {
            format: ::redis::VerbatimFormat::Text,
            text: s.clone(),
        },
        StreamValue::Int(n) => ::redis::Value::Int(*n),
        StreamValue::Okay => ::redis::Value::Okay,
        StreamValue::Other(v) => v.clone(),
    };
    ::redis::from_redis_value_ref::<String>(&value)
}

/// An entry of a stream.
pub struct StreamEntry {
    pub id: String,
    pub fields: StringMap<StreamValue>,
}

/// The entries that were read from one stream.
pub struct StreamBatch {
    pub key: String,
    pub entries: Vec<StreamEntry>,
}

/// An entry of a stream that holds a message.
#[derive(Debug)]
pub struct StreamItem {
    /// The stream.
    pub key: String,
    /// The ID of the entry.
    pub id: String,
    /// The encoded message.
    pub json: Result<String, ::redis::ParsingError>,
}

/// The model of a [`StreamItem`]. The encoded message is absent where it is not a text.
pub struct StreamItemView {
    pub key: Seq<char>,
    pub id: Seq<char>,
    pub json: Option<Seq<char>>,
}

impl View for StreamItem {
    type V = StreamItemView;

    open spec fn view(&self) -> StreamItemView {
        StreamItemView {
            key: self.key@,
            id: self.id@,
            json: match self.json {
                Ok(s) => Some(s@),
                Err(_) => None,
            },
        }
    }
}

impl StreamItem {
    /// The text to read a message from: the encoded message, or nothing.
    pub fn payload(&self) -> (r: &str)
        ensures
            r@ == (match self@.json {
                Some(s) => s,
                None => Seq::<char>::empty(),
            }),
    {
        match &self.json {
            Ok(s) => s.as_str(),
            Err(_) => {
                proof {
                    reveal_strlit("");
                    assert(""@ =~= Seq::<char>::empty());
                }
                ""
            },
        }
    }

    /// A line about the item for logs.
    pub fn describe(&self) -> (r: String)
        ensures
            r@ == "queue: "@ + self.key@ + ", id: "@ + self.id@,
    {
        "queue: ".to_owned().concat(self.key.as_str()).concat(", id: ").concat(self.id.as_str())
    }
}

/// The model of a [`StreamEntry`].
pub struct StreamEntryView {
    pub id: Seq<char>,
    pub fields: Map<Seq<char>, StreamValue>,
}

impl View for StreamEntry {
    type V = StreamEntryView;

    open spec fn view(&self) -> StreamEntryView {
        StreamEntryView { id: self.id@, fields: self.fields@ }
    }
}

/// The model of a [`StreamBatch`].
pub struct StreamBatchView {
    pub key: Seq<char>,
    pub entries: Seq<StreamEntryView>,
}

impl View for StreamBatch {
    type V = StreamBatchView;

    open spec fn view(&self) -> StreamBatchView {
        StreamBatchView {
            key: self.key@,
            entries: self.entries@.map_values(|e: StreamEntry| e@),
        }
    }
}

/// The item that an entry of a stream holds: one that has a field with a message.
pub open spec fn item_of(key: Seq<char>, entry: StreamEntryView) -> Option<StreamItemView> {
    if entry.fields.contains_key("json"@) {
        Some(StreamItemView { key, id: entry.id, json: value_text(entry.fields["json"@]) })
    } else {
        None
    }
}

/// The model of an optional item.
pub open spec fn opt_item(item: Option<StreamItem>) -> Option<StreamItemView> {
    match item {
        Some(i) => Some(i@),
        None => None,
    }
}

/// Someone who waits for the entries of a stream.
#[derive(Debug)]
pub struct StreamObserver<C> {
    /// Redis stream key
    pub key: String,
    /// Last message id read from given Redis stream (default: "0-0")
    pub last_id: String,
    /// Channel where messages should be forwarded.
    pub callback: C,
}

/// The model of a [`StreamObserver`].
pub struct StreamObserverView<C> {
    pub key: Seq<char>,
    pub last_id: Seq<char>,
    pub callback: C,
}

impl<C> View for StreamObserver<C> {
    type V = StreamObserverView<C>;

    open spec fn view(&self) -> StreamObserverView<C> {
        StreamObserverView { key: self.key@, last_id: self.last_id@, callback: self.callback }
    }
}

impl<C> StreamObserver<C> {
    /// What to forward to the observer when an entry was read: the item that it holds, if
    /// it holds one.
    pub fn on_next(&self, entry: &StreamEntry) -> (r: Option<StreamItem>)
        ensures
            opt_item(r) == item_of(self.key@, entry@),
    {
        match entry.fields.get("json") {
            Some(json) => Some(
                StreamItem {
                    key: self.key.clone(),
                    id: entry.id.clone(),
                    json: value_to_string(json),
                },
            ),
            None => None,
        }
    }

    /// What to forward to the observer when reading failed.
    pub fn on_error(&self, err: BrokerError) -> (r: Result<StreamItem, BrokerError>)
        ensures
            r == Err::<StreamItem, BrokerError>(err),
    {
        Err(err)
    }
}

/// Where the first dash of a text stands, or its end.
pub open spec fn dash_at(s: Seq<char>) -> int
    decreases s.len(),
{
    if s.len() == 0 || s[0] == '-' {
        0
    } else {
        1 + dash_at(s.drop_first())
    }
}

/// The time of an entry ID in milliseconds: the number before its dash.
pub open spec fn id_millis(id: Seq<char>) -> Option<i64> {
    decimal_i64(id.take(dash_at(id)))
}

/// The earliest time of some entry IDs.
pub open spec fn earliest_millis(ids: Seq<Seq<char>>) -> Option<i64>
    decreases ids.len(),
{
    if ids.len() == 0 {
        None
    } else {
        match (earliest_millis(ids.drop_last()), id_millis(ids.last())) {
            (Some(a), Some(b)) => Some(if b < a {
                b
            } else {
                a
            }),
            (None, Some(b)) => Some(b),
            (a, None) => a,
        }
    }
}

/// The time one minute before, or the earliest time that there is.
pub open spec fn minute_before(millis: i64) -> i64 {
    if millis - 60_000 < i64::MIN {
        i64::MIN
    } else {
        (millis - 60_000) as i64
    }
}

/// The lowest ID to keep in a stream once some of its entries were processed: one minute
/// before the earliest of them, or before `now` where none of them has a time.
pub open spec fn trim_id(ids: Seq<Seq<char>>, now: i64) -> Seq<char> {
    let earliest = match earliest_millis(ids) {
        Some(t) => t,
        None => now,
    };
    int_text(minute_before(earliest) as int)
}

/// The earliest time is that of one of the IDs, and none of them has an earlier one.
pub proof fn earliest_is_least(ids: Seq<Seq<char>>)
    ensures
        match earliest_millis(ids) {
            Some(t) => (exists|i: int| 0 <= i < ids.len() && id_millis(#[trigger] ids[i]) == Some(t))
                && (forall|i: int|
                0 <= i < ids.len() ==> (id_millis(#[trigger] ids[i]) matches Some(u) ==> t <= u)),
            None => forall|i: int| 0 <= i < ids.len() ==> id_millis(#[trigger] ids[i]) is None,
        },
    decreases ids.len(),
{
    if ids.len() > 0 {
        let rest = ids.drop_last();
        earliest_is_least(rest);
        assert forall|i: int| 0 <= i < rest.len() implies rest[i] == #[trigger] ids[i] by {}
        match (earliest_millis(rest), id_millis(ids.last())) {
            (Some(a), Some(b)) => {
                if b < a {
                    assert(id_millis(ids[ids.len() - 1]) == Some(b));
                } else {
                    let i = choose|i: int|
                        0 <= i < rest.len() && id_millis(#[trigger] rest[i]) == Some(a);
                    assert(id_millis(ids[i]) == Some(a));
                }
            },
            (None, Some(b)) => {
                assert(id_millis(ids[ids.len() - 1]) == Some(b));
            },
            (Some(a), None) => {
                let i = choose|i: int|
                    0 <= i < rest.len() && id_millis(#[trigger] rest[i]) == Some(a);
                assert(id_millis(ids[i]) == Some(a));
            },
            (None, None) => {},
        }
    }
}

/// The first dash stands within the text or at its end, and no dash stands before it.
proof fn dash_is_first(s: Seq<char>, i: int)
    requires
        0 <= i <= s.len(),
        forall|j: int| 0 <= j < i ==> s[j] != '-',
        i < s.len() ==> s[i] == '-',
    ensures
        dash_at(s) == i,
    decreases s.len(),
{
    if i > 0 {
        dash_is_first(s.drop_first(), i - 1);
    }
}

/// The time of an entry ID in milliseconds.
fn millis_of(id: &str) -> (r: Option<i64>)
    ensures
        r == id_millis(id@),
{
    let chars = chars_of(id);
    let mut i: usize = 0;
    while i < chars.len() && chars[i] != '-'
        invariant
            i <= chars@.len(),
            forall|j: int| 0 <= j < i ==> chars@[j] != '-',
        decreases chars@.len() - i,
    {
        i = i + 1;
    }
    proof {
        dash_is_first(chars@, i as int);
    }
    parse_decimal(&chars, i)
}

/// The earliest time of some entry IDs.
fn earliest_of(ids: &Vec<String>) -> (r: Option<i64>)
    ensures
        r == earliest_millis(texts(ids@)),
{
    let mut earliest: Option<i64> = None;
    let mut i: usize = 0;
    assert(texts(ids@).take(0) =~= Seq::<Seq<char>>::empty());
    while i < ids.len()
        invariant
            i <= ids@.len(),
            earliest == earliest_millis(texts(ids@).take(i as int)),
        decreases ids@.len() - i,
    {
        let millis = millis_of(ids[i].as_str());
        proof {
            assert(texts(ids@).take(i + 1).drop_last() =~= texts(ids@).take(i as int));
            assert(texts(ids@).take(i + 1).last() == ids@[i as int]@);
        }
        earliest = match (earliest, millis) {
            (Some(a), Some(b)) => if b < a {
                Some(b)
            } else {
                Some(a)
            },
            (None, Some(b)) => Some(b),
            (a, None) => a,
        };
        i = i + 1;
    }
    assert(texts(ids@).take(i as int) =~= texts(ids@));
    earliest
}

/// The lowest ID to keep in a stream once some of its entries were processed, at the time
/// `now` in milliseconds.
pub fn trim_id_at(ids: &Vec<String>, now: i64) -> (r: String)
    ensures
        r@ == trim_id(texts(ids@), now),
{
    let earliest: i64 = match earliest_of(ids) {
        Some(t) => t,
        None => now,
    };
    let bound: i64 = if earliest < i64::MIN + 60_000 {
        i64::MIN
    } else {
        earliest - 60_000
    };
    signed_text(bound)
}

/// Calls `chrono::Local::now` and takes its milliseconds since the epoch.
///
/// Trusted: nothing.
#[verifier::external_body]
fn current_millis() -> i64 {
    chrono::Local::now().timestamp_millis()
}

/// The lowest ID to keep in a stream once some of its entries were processed.
pub fn trim_id_now(ids: &Vec<String>) -> (r: String)
    ensures
        exists|now: i64| r@ == #[trigger] trim_id(texts(ids@), now),
{
    let now: i64 = if earliest_of(ids).is_some() {
        0
    } else {
        current_millis()
    };
    trim_id_at(ids, now)
}

/// An entry holds an item if and only if it has a field for the message. The item has the stream
/// that was given and the ID of the entry, and its message is the text of that field; other fields
/// do not matter.
pub proof fn items_are_entries_with_a_message(
    key: Seq<char>,
    entry: StreamEntryView,
    name: Seq<char>,
    value: StreamValue,
)
    requires
        name != "json"@,
    ensures
        item_of(key, entry) is Some <==> entry.fields.contains_key("json"@),
        item_of(key, entry) matches Some(item) ==> item.key == key && item.id == entry.id
            && item.json == value_text(entry.fields["json"@]),
        item_of(key, StreamEntryView { fields: entry.fields.insert(name, value), ..entry })
            == item_of(key, entry),
{
}

/// The time of an entry ID is the number before its first dash, and of an ID without a dash the
/// number that it is.
pub proof fn the_time_of_an_id_is_before_its_dash(time: Seq<char>, sequence: Seq<char>)
    requires
        forall|i: int| 0 <= i < time.len() ==> #[trigger] time[i] != '-',
    ensures
        id_millis(time) == decimal_i64(time),
        id_millis(time + seq!['-'] + sequence) == decimal_i64(time),
{
    let id = time + seq!['-'] + sequence;
    dash_is_first(time, time.len() as int);
    assert(time.take(time.len() as int) =~= time);
    assert forall|j: int| 0 <= j < time.len() implies id[j] != '-' by {
        assert(id[j] == time[j]);
    }
    dash_is_first(id, time.len() as int);
    assert(id.take(time.len() as int) =~= time);
}

/// Whether a number of milliseconds is a minute before another one, or the earliest one where
/// there is none.
pub open spec fn is_minute_before(bound: i64, millis: i64) -> bool {
    bound == millis - 60_000 || (bound == i64::MIN && millis - 60_000 < i64::MIN)
}

/// A stream is trimmed to what is at most a minute older than the earliest entry that was
/// processed: the bound is a minute before one of them and not after a minute before any of them.
/// Where none of them has a time, it is a minute before now. The bound is written in decimal.
pub proof fn trimming_keeps_the_last_minute(ids: Seq<Seq<char>>, now: i64)
    ensures
        decimal_i64(trim_id(ids, now)) matches Some(bound) && trim_id(ids, now) == int_text(
            bound as int,
        ) && (forall|i: int|
            0 <= i < ids.len() ==> (id_millis(#[trigger] ids[i]) matches Some(t) ==> bound <= t
                - 60_000 || bound == i64::MIN)) && ((exists|i: int|
            0 <= i < ids.len() && (id_millis(#[trigger] ids[i]) matches Some(t) && is_minute_before(
                bound,
                t,
            ))) || (is_minute_before(bound, now) && forall|i: int|
            0 <= i < ids.len() ==> id_millis(#[trigger] ids[i]) is None)),
{
    earliest_is_least(ids);
    let earliest = match earliest_millis(ids) {
        Some(t) => t,
        None => now,
    };
    int_text_reads_back(minute_before(earliest));
    if let Some(t) = earliest_millis(ids) {
        let i = choose|i: int| 0 <= i < ids.len() && id_millis(#[trigger] ids[i]) == Some(t);
        assert(id_millis(ids[i]) matches Some(t) && is_minute_before(minute_before(t), t));
    }
}

} // verus!
