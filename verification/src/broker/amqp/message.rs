//! Messages as AMQP deliveries, and back.

use lapin::types::{FieldArray, FieldTable};
use vstd::prelude::*;
use vstd::string::*;

use crate::broker::amqp::field::{
    array_get, array_items, array_push, entry, new_array, new_table, no_entries, table_entries,
    table_get, table_insert, FieldValue, FieldView, NewValue,
};
use crate::error::{ProtocolError, ProtocolErrorView};
use crate::protocol::{
    HeadersView, Message, MessageHeaders, MessageProperties, MessageView, PropertiesView,
};
use crate::text::{copy_opt, nat_text, opt_text, unsigned_text};
use crate::utc_time::{
    instant_read_back, opt_parts, representable, rfc3339_instant, rfc3339_millis, runs_over,
    UtcTime, FIRST_FOUR_DIGIT_SECOND, LAST_FOUR_DIGIT_SECOND,
};

verus! {

/// The properties of an AMQP message that the broker uses.
#[derive(Debug)]
pub struct BasicProperties {
    pub correlation_id: Option<String>,
    pub content_type: Option<String>,
    pub content_encoding: Option<String>,
    pub reply_to: Option<String>,
    pub headers: Option<FieldTable>,
    pub priority: Option<u8>,
    pub delivery_mode: Option<u8>,
}

/// The model of [`BasicProperties`].
pub struct BasicPropertiesView {
    pub correlation_id: Option<Seq<char>>,
    pub content_type: Option<Seq<char>>,
    pub content_encoding: Option<Seq<char>>,
    pub reply_to: Option<Seq<char>>,
    pub headers: Option<Map<Seq<char>, FieldView>>,
    pub priority: Option<u8>,
    pub delivery_mode: Option<u8>,
}

impl View for BasicProperties {
    type V = BasicPropertiesView;

    open spec fn view(&self) -> BasicPropertiesView {
        BasicPropertiesView {
            correlation_id: opt_text(self.correlation_id),
            content_type: opt_text(self.content_type),
            content_encoding: opt_text(self.content_encoding),
            reply_to: opt_text(self.reply_to),
            headers: match self.headers {
                Some(table) => Some(table_entries(table)),
                None => None,
            },
            priority: self.priority,
            delivery_mode: self.delivery_mode,
        }
    }
}

/// An optional text as a header value.
pub open spec fn text_field(value: Option<Seq<char>>) -> Option<FieldView> {
    match value {
        Some(s) => Some(FieldView::LongString(s)),
        None => None,
    }
}

/// An optional instant as a header value.
pub open spec fn time_field(value: Option<(i64, u32)>) -> Option<FieldView> {
    match value {
        Some(t) => Some(FieldView::LongString(rfc3339_millis(t.0, t.1))),
        None => None,
    }
}

/// An optional number as a header value.
pub open spec fn number_field(value: Option<u32>) -> Option<FieldView> {
    match value {
        Some(n) => Some(FieldView::LongUInt(n)),
        None => None,
    }
}

/// A time limit as an item of the header that holds both.
pub open spec fn limit_field(value: Option<u32>) -> FieldView {
    match value {
        Some(n) => FieldView::LongUInt(n),
        None => FieldView::Void,
    }
}

/// The header that a message has under a name.
pub open spec fn header_at(h: HeadersView, name: Seq<char>) -> Option<FieldView> {
    if name == "id"@ {
        Some(FieldView::LongString(h.id))
    } else if name == "task"@ {
        Some(FieldView::LongString(h.task))
    } else if name == "lang"@ {
        text_field(h.lang)
    } else if name == "root_id"@ {
        text_field(h.root_id)
    } else if name == "parent_id"@ {
        text_field(h.parent_id)
    } else if name == "group"@ {
        text_field(h.group)
    } else if name == "meth"@ {
        text_field(h.meth)
    } else if name == "shadow"@ {
        text_field(h.shadow)
    } else if name == "eta"@ {
        time_field(h.eta)
    } else if name == "expires"@ {
        time_field(h.expires)
    } else if name == "retries"@ {
        number_field(h.retries)
    } else if name == "timelimit"@ {
        Some(FieldView::FieldArray(seq![limit_field(h.timelimit.0), limit_field(h.timelimit.1)]))
    } else if name == "argsrepr"@ {
        text_field(h.argsrepr)
    } else if name == "kwargsrepr"@ {
        text_field(h.kwargsrepr)
    } else if name == "origin"@ {
        text_field(h.origin)
    } else {
        None
    }
}

/// The header table of a message.
pub open spec fn header_entries(h: HeadersView) -> Map<Seq<char>, FieldView> {
    Map::new(|name: Seq<char>| header_at(h, name) is Some, |name: Seq<char>| header_at(h, name)->0)
}

/// No two header names are the same.
pub proof fn header_names_differ()
    ensures
        "id"@.len() == 2,
        "eta"@.len() == 3,
        "task"@.len() == 4,
        "lang"@.len() == 4,
        "meth"@.len() == 4,
        "group"@.len() == 5,
        "shadow"@.len() == 6,
        "origin"@.len() == 6,
        "root_id"@.len() == 7,
        "expires"@.len() == 7,
        "retries"@.len() == 7,
        "argsrepr"@.len() == 8,
        "parent_id"@.len() == 9,
        "timelimit"@.len() == 9,
        "kwargsrepr"@.len() == 10,
        "task"@ != "lang"@,
        "task"@ != "meth"@,
        "lang"@ != "meth"@,
        "shadow"@ != "origin"@,
        "root_id"@ != "expires"@,
        "root_id"@ != "retries"@,
        "expires"@ != "retries"@,
        "parent_id"@ != "timelimit"@,
{
    reveal_strlit("id");
    reveal_strlit("eta");
    reveal_strlit("task");
    reveal_strlit("lang");
    reveal_strlit("meth");
    reveal_strlit("group");
    reveal_strlit("shadow");
    reveal_strlit("origin");
    reveal_strlit("root_id");
    reveal_strlit("expires");
    reveal_strlit("retries");
    reveal_strlit("argsrepr");
    reveal_strlit("parent_id");
    reveal_strlit("timelimit");
    reveal_strlit("kwargsrepr");
    assert("task"@[0] == 't');
    assert("lang"@[0] == 'l');
    assert("meth"@[0] == 'm');
    assert("shadow"@[0] == 's');
    assert("origin"@[0] == 'o');
    assert("root_id"@[1] == 'o');
    assert("expires"@[1] == 'x');
    assert("retries"@[1] == 'e');
    assert("parent_id"@[0] == 'p');
    assert("timelimit"@[0] == 't');
}

/// Adds an entry where there is a value.
#[verifier::opaque]
spec fn put(
    entries: Map<Seq<char>, FieldView>,
    name: Seq<char>,
    value: Option<FieldView>,
) -> Map<Seq<char>, FieldView> {
    match value {
        Some(v) => entries.insert(name, v),
        None => entries,
    }
}

/// What stands under a name after an entry was added.
proof fn entry_of_put(
    entries: Map<Seq<char>, FieldView>,
    name: Seq<char>,
    value: Option<FieldView>,
    other: Seq<char>,
)
    ensures
        entry(put(entries, name, value), other) == (if other == name && value is Some {
            value
        } else {
            entry(entries, other)
        }),
{
    reveal(put);
}

/// Adds an entry.
fn put_value(table: &mut FieldTable, name: &str, value: NewValue)
    ensures
        table_entries(*final(table)) == put(table_entries(*old(table)), name@, Some(value@)),
{
    reveal(put);
    table_insert(table, name, value);
}

/// Adds a text header where there is one.
fn put_text(table: &mut FieldTable, name: &str, value: &Option<String>)
    ensures
        table_entries(*final(table)) == put(
            table_entries(*old(table)),
            name@,
            text_field(opt_text(*value)),
        ),
{
    reveal(put);
    if let Some(s) = value {
        table_insert(table, name, NewValue::LongString(s.clone()));
    }
}

/// Adds a number header where there is one.
fn put_number(table: &mut FieldTable, name: &str, value: Option<u32>)
    ensures
        table_entries(*final(table)) == put(
            table_entries(*old(table)),
            name@,
            number_field(value),
        ),
{
    reveal(put);
    if let Some(n) = value {
        table_insert(table, name, NewValue::LongUInt(n));
    }
}

/// Adds a time header where there is one.
fn put_time(table: &mut FieldTable, name: &str, value: &Option<UtcTime>)
    ensures
        table_entries(*final(table)) == put(
            table_entries(*old(table)),
            name@,
            time_field(opt_parts(*value)),
        ),
        value matches Some(t) ==> rfc3339_instant(t.text()) == t.read_back(),
{
    reveal(put);
    if let Some(t) = value {
        table_insert(table, name, NewValue::LongString(t.to_rfc3339_millis()));
    }
}

/// The headers whose names are added first.
spec fn leading_entries(h: HeadersView) -> Map<Seq<char>, FieldView> {
    let m = put(no_entries(), "id"@, Some(FieldView::LongString(h.id)));
    let m = put(m, "task"@, Some(FieldView::LongString(h.task)));
    let m = put(m, "lang"@, text_field(h.lang));
    let m = put(m, "root_id"@, text_field(h.root_id));
    let m = put(m, "parent_id"@, text_field(h.parent_id));
    let m = put(m, "group"@, text_field(h.group));
    let m = put(m, "meth"@, text_field(h.meth));
    put(m, "shadow"@, text_field(h.shadow))
}

/// The headers, added one by one.
spec fn added_entries(h: HeadersView) -> Map<Seq<char>, FieldView> {
    let m = put(leading_entries(h), "eta"@, time_field(h.eta));
    let m = put(m, "expires"@, time_field(h.expires));
    let m = put(m, "retries"@, number_field(h.retries));
    let m = put(m, "timelimit"@, header_at(h, "timelimit"@));
    let m = put(m, "argsrepr"@, text_field(h.argsrepr));
    let m = put(m, "kwargsrepr"@, text_field(h.kwargsrepr));
    put(m, "origin"@, text_field(h.origin))
}

/// What stands under a name after the headers were added one by one.
proof fn added_entry(h: HeadersView, name: Seq<char>)
    ensures
        entry(added_entries(h), name) == header_at(h, name),
{
    header_names_differ();
    let m = no_entries();
    let v = Some(FieldView::LongString(h.id));
    entry_of_put(m, "id"@, v, name);
    let m = put(m, "id"@, v);
    let v = Some(FieldView::LongString(h.task));
    entry_of_put(m, "task"@, v, name);
    let m = put(m, "task"@, v);
    entry_of_put(m, "lang"@, text_field(h.lang), name);
    let m = put(m, "lang"@, text_field(h.lang));
    entry_of_put(m, "root_id"@, text_field(h.root_id), name);
    let m = put(m, "root_id"@, text_field(h.root_id));
    entry_of_put(m, "parent_id"@, text_field(h.parent_id), name);
    let m = put(m, "parent_id"@, text_field(h.parent_id));
    entry_of_put(m, "group"@, text_field(h.group), name);
    let m = put(m, "group"@, text_field(h.group));
    entry_of_put(m, "meth"@, text_field(h.meth), name);
    let m = put(m, "meth"@, text_field(h.meth));
    entry_of_put(m, "shadow"@, text_field(h.shadow), name);
    let m = put(m, "shadow"@, text_field(h.shadow));
    entry_of_put(m, "eta"@, time_field(h.eta), name);
    let m = put(m, "eta"@, time_field(h.eta));
    entry_of_put(m, "expires"@, time_field(h.expires), name);
    let m = put(m, "expires"@, time_field(h.expires));
    entry_of_put(m, "retries"@, number_field(h.retries), name);
    let m = put(m, "retries"@, number_field(h.retries));
    let v = header_at(h, "timelimit"@);
    entry_of_put(m, "timelimit"@, v, name);
    let m = put(m, "timelimit"@, v);
    entry_of_put(m, "argsrepr"@, text_field(h.argsrepr), name);
    let m = put(m, "argsrepr"@, text_field(h.argsrepr));
    entry_of_put(m, "kwargsrepr"@, text_field(h.kwargsrepr), name);
    let m = put(m, "kwargsrepr"@, text_field(h.kwargsrepr));
    entry_of_put(m, "origin"@, text_field(h.origin), name);
}

/// Adding the headers one by one makes the header table.
proof fn added_entries_are_all(h: HeadersView)
    ensures
        added_entries(h) == header_entries(h),
{
    assert forall|name: Seq<char>|
        added_entries(h).contains_key(name) <==> header_entries(h).contains_key(name) by {
        added_entry(h, name);
    }
    assert forall|name: Seq<char>| #[trigger]
        added_entries(h).contains_key(name) implies added_entries(h)[name]
        == header_entries(h)[name] by {
        added_entry(h, name);
    }
    assert(added_entries(h) =~= header_entries(h));
}

/// Adds a time limit to the array of both.
fn push_limit(array: &mut FieldArray, limit: Option<u32>)
    ensures
        array_items(*final(array)) == array_items(*old(array)).push(limit_field(limit)),
{
    match limit {
        Some(t) => {
            array_push(array, NewValue::LongUInt(t));
        },
        None => {
            array_push(array, NewValue::Void);
        },
    }
}

impl Message {
    /// The header table to send with the message.
    pub fn delivery_headers(&self) -> (r: FieldTable)
        ensures
            table_entries(r) == header_entries(self@.headers),
            self.headers.eta matches Some(t) ==> rfc3339_instant(t.text()) == t.read_back(),
            self.headers.expires matches Some(t) ==> rfc3339_instant(t.text()) == t.read_back(),
    {
        let mut headers = new_table();
        put_value(&mut headers, "id", NewValue::LongString(self.headers.id.clone()));
        put_value(&mut headers, "task", NewValue::LongString(self.headers.task.clone()));
        put_text(&mut headers, "lang", &self.headers.lang);
        put_text(&mut headers, "root_id", &self.headers.root_id);
        put_text(&mut headers, "parent_id", &self.headers.parent_id);
        put_text(&mut headers, "group", &self.headers.group);
        put_text(&mut headers, "meth", &self.headers.meth);
        put_text(&mut headers, "shadow", &self.headers.shadow);
        put_time(&mut headers, "eta", &self.headers.eta);
        put_time(&mut headers, "expires", &self.headers.expires);
        put_number(&mut headers, "retries", self.headers.retries);
        let mut timelimit = new_array();
        push_limit(&mut timelimit, self.headers.timelimit.0);
        push_limit(&mut timelimit, self.headers.timelimit.1);
        assert(array_items(timelimit) =~= seq![
            limit_field(self.headers.timelimit.0),
            limit_field(self.headers.timelimit.1),
        ]);
        put_value(&mut headers, "timelimit", NewValue::FieldArray(timelimit));
        put_text(&mut headers, "argsrepr", &self.headers.argsrepr);
        put_text(&mut headers, "kwargsrepr", &self.headers.kwargsrepr);
        put_text(&mut headers, "origin", &self.headers.origin);
        proof {
            header_names_differ();
            added_entries_are_all(self@.headers);
        }
        headers
    }
}

/// The AMQP properties to send with a message.
pub open spec fn properties_of(message: MessageView) -> BasicPropertiesView {
    BasicPropertiesView {
        correlation_id: Some(message.properties.correlation_id),
        content_type: Some(message.properties.content_type),
        content_encoding: Some(message.properties.content_encoding),
        reply_to: message.properties.reply_to,
        headers: Some(header_entries(message.headers)),
        priority: Some(0),
        delivery_mode: Some(2),
    }
}

/// The text under a name, whichever kind of string holds it.
pub open spec fn text_entry(entries: Map<Seq<char>, FieldView>, name: Seq<char>) -> Option<
    Seq<char>,
> {
    match entry(entries, name) {
        Some(FieldView::ShortString(s)) => Some(s),
        Some(FieldView::LongString(s)) => Some(s),
        _ => None,
    }
}

/// The instant whose text stands under a name.
pub open spec fn time_entry(entries: Map<Seq<char>, FieldView>, name: Seq<char>) -> Option<
    (i64, u32),
> {
    match text_entry(entries, name) {
        Some(s) => rfc3339_instant(s),
        None => None,
    }
}

/// The lowest 32 bits of an integer.
pub open spec fn low_bits(n: int) -> u32 {
    (n % 0x1_0000_0000) as u32
}

/// The number that a value stands for, cut off to 32 bits.
pub open spec fn number_of(value: FieldView) -> Option<u32> {
    match value {
        FieldView::ShortShortInt(n) => Some(low_bits(n as int)),
        FieldView::ShortShortUInt(n) => Some(low_bits(n as int)),
        FieldView::ShortInt(n) => Some(low_bits(n as int)),
        FieldView::ShortUInt(n) => Some(low_bits(n as int)),
        FieldView::LongInt(n) => Some(low_bits(n as int)),
        FieldView::LongUInt(n) => Some(n),
        FieldView::LongLongInt(n) => Some(low_bits(n as int)),
        _ => None,
    }
}

/// The number under a name.
pub open spec fn number_entry(entries: Map<Seq<char>, FieldView>, name: Seq<char>) -> Option<u32> {
    match entry(entries, name) {
        Some(value) => number_of(value),
        None => None,
    }
}

/// The time limits: the two items of an array of two, or none.
pub open spec fn timelimit_entry(entries: Map<Seq<char>, FieldView>) -> (Option<u32>, Option<u32>) {
    match entry(entries, "timelimit"@) {
        Some(FieldView::FieldArray(items)) => if items.len() == 2 {
            (number_of(items[0]), number_of(items[1]))
        } else {
            (None, None)
        },
        _ => (None, None),
    }
}

/// The message that a delivery holds, or what it lacks. The properties are looked at
/// before the headers.
pub open spec fn message_of(properties: BasicPropertiesView, data: Seq<u8>) -> Result<
    MessageView,
    ProtocolErrorView,
> {
    if properties.headers is None {
        Err(ProtocolErrorView::MissingHeaders)
    } else if properties.correlation_id is None {
        Err(ProtocolErrorView::MissingRequiredProperty("correlation_id"@))
    } else if properties.content_type is None {
        Err(ProtocolErrorView::MissingRequiredProperty("content_type"@))
    } else if properties.content_encoding is None {
        Err(ProtocolErrorView::MissingRequiredProperty("content_encoding"@))
    } else {
        let entries = properties.headers->0;
        if text_entry(entries, "id"@) is None {
            Err(ProtocolErrorView::MissingRequiredHeader("id"@))
        } else if text_entry(entries, "task"@) is None {
            Err(ProtocolErrorView::MissingRequiredHeader("task"@))
        } else {
            Ok(
                MessageView {
                    properties: PropertiesView {
                        correlation_id: properties.correlation_id->0,
                        content_type: properties.content_type->0,
                        content_encoding: properties.content_encoding->0,
                        reply_to: properties.reply_to,
                        delivery_info: None,
                    },
                    headers: HeadersView {
                        id: text_entry(entries, "id"@)->0,
                        task: text_entry(entries, "task"@)->0,
                        lang: text_entry(entries, "lang"@),
                        root_id: text_entry(entries, "root_id"@),
                        parent_id: text_entry(entries, "parent_id"@),
                        group: text_entry(entries, "group"@),
                        meth: text_entry(entries, "meth"@),
                        shadow: text_entry(entries, "shadow"@),
                        eta: time_entry(entries, "eta"@),
                        expires: time_entry(entries, "expires"@),
                        retries: number_entry(entries, "retries"@),
                        timelimit: timelimit_entry(entries),
                        argsrepr: text_entry(entries, "argsrepr"@),
                        kwargsrepr: text_entry(entries, "kwargsrepr"@),
                        origin: text_entry(entries, "origin"@),
                    },
                    raw_body: data,
                },
            )
        }
    }
}

/// The model of an attempt to read a message.
pub open spec fn outcome(r: Result<Message, ProtocolError>) -> Result<
    MessageView,
    ProtocolErrorView,
> {
    match r {
        Ok(message) => Ok(message@),
        Err(error) => Err(error@),
    }
}

/// An instant after a trip through a header.
pub open spec fn received_time(value: Option<(i64, u32)>) -> Option<(i64, u32)> {
    match value {
        Some(t) => instant_read_back(t.0, t.1),
        None => None,
    }
}

/// A message as it arrives when it was sent: times are kept to the millisecond while their
/// year has four digits, a time that runs over its second is one of the next second, and where the message was routed is not part of it.
pub open spec fn received(message: MessageView) -> MessageView {
    MessageView {
        properties: PropertiesView { delivery_info: None, ..message.properties },
        headers: HeadersView {
            eta: received_time(message.headers.eta),
            expires: received_time(message.headers.expires),
            ..message.headers
        },
        ..message
    }
}

/// Whether a time survives being sent: it is a whole number of milliseconds, in a year of
/// four digits, and does not run over into the next second of its minute.
pub open spec fn sendable_time(value: Option<(i64, u32)>) -> bool {
    value matches Some(t) ==> {
        &&& FIRST_FOUR_DIGIT_SECOND <= t.0 <= LAST_FOUR_DIGIT_SECOND
        &&& t.1 % 1_000_000 == 0
        &&& !runs_over(t.0, t.1)
    }
}

/// A message whose times are whole milliseconds in years of four digits, none of them running
/// over its second, and which was not routed yet, arrives as it was sent.
pub proof fn sent_messages_arrive_unchanged(message: MessageView)
    requires
        message.properties.delivery_info is None,
        sendable_time(message.headers.eta),
        sendable_time(message.headers.expires),
    ensures
        received(message) == message,
{
}

/// Sending a message that has arrived once changes nothing more.
pub proof fn arriving_twice_is_arriving_once(message: MessageView)
    requires
        message.headers.eta matches Some(t) ==> representable(t.0, t.1),
        message.headers.expires matches Some(t) ==> representable(t.0, t.1),
    ensures
        received(received(message)) == received(message),
{
}

/// Whether the text of an optional instant reads back as it should.
spec fn reads_back(value: Option<(i64, u32)>) -> bool {
    value matches Some(t) ==> rfc3339_instant(rfc3339_millis(t.0, t.1)) == instant_read_back(
        t.0,
        t.1,
    )
}

/// The entry of a header table under a name.
pub proof fn entry_is_header(h: HeadersView, name: Seq<char>)
    ensures
        entry(header_entries(h), name) == header_at(h, name),
{
}

/// What is read from the properties of a sent message is the message as it arrives.
proof fn sent_properties_hold_the_message(message: MessageView)
    requires
        reads_back(message.headers.eta),
        reads_back(message.headers.expires),
    ensures
        message_of(properties_of(message), message.raw_body) == Ok::<
            MessageView,
            ProtocolErrorView,
        >(received(message)),
{
    header_names_differ();
    let h = message.headers;
    entry_is_header(h, "id"@);
    entry_is_header(h, "task"@);
    entry_is_header(h, "lang"@);
    entry_is_header(h, "root_id"@);
    entry_is_header(h, "parent_id"@);
    entry_is_header(h, "group"@);
    entry_is_header(h, "meth"@);
    entry_is_header(h, "shadow"@);
    entry_is_header(h, "eta"@);
    entry_is_header(h, "expires"@);
    entry_is_header(h, "retries"@);
    entry_is_header(h, "timelimit"@);
    entry_is_header(h, "argsrepr"@);
    entry_is_header(h, "kwargsrepr"@);
    entry_is_header(h, "origin"@);
}

impl Message {
    /// The AMQP properties to send with the message. What is read from them and the body is
    /// the message as it arrives.
    pub fn delivery_properties(&self) -> (r: BasicProperties)
        ensures
            r@ == properties_of(self@),
            message_of(r@, self@.raw_body) == Ok::<MessageView, ProtocolErrorView>(received(self@)),
    {
        let properties = BasicProperties {
            correlation_id: Some(self.properties.correlation_id.clone()),
            content_type: Some(self.properties.content_type.clone()),
            content_encoding: Some(self.properties.content_encoding.clone()),
            reply_to: copy_opt(&self.properties.reply_to),
            headers: Some(self.delivery_headers()),
            priority: Some(0),
            delivery_mode: Some(2),
        };
        proof {
            sent_properties_hold_the_message(self@);
        }
        properties
    }
}

/// The text header of a name.
fn get_header_str(headers: &FieldTable, key: &str) -> (r: Option<String>)
    ensures
        opt_text(r) == text_entry(table_entries(*headers), key@),
{
    match table_get(headers, key) {
        Some(FieldValue::ShortString(s)) => Some(s),
        Some(FieldValue::LongString(s)) => Some(s),
        _ => None,
    }
}

/// The text header of a name that must be there.
fn get_header_str_required(headers: &FieldTable, key: &str) -> (r: Result<String, ProtocolError>)
    ensures
        match r {
            Ok(s) => text_entry(table_entries(*headers), key@) == Some(s@),
            Err(e) => text_entry(table_entries(*headers), key@) is None && e@
                == ProtocolErrorView::MissingRequiredHeader(key@),
        },
{
    match get_header_str(headers, key) {
        Some(s) => Ok(s),
        None => Err(ProtocolError::MissingRequiredHeader(key.to_owned())),
    }
}

/// The time header of a name.
fn get_header_dt(headers: &FieldTable, key: &str) -> (r: Option<UtcTime>)
    ensures
        opt_parts(r) == time_entry(table_entries(*headers), key@),
{
    match get_header_str(headers, key) {
        Some(s) => UtcTime::parse_rfc3339(s.as_str()),
        None => None,
    }
}

/// The number header of a name.
fn get_header_u32(headers: &FieldTable, key: &str) -> (r: Option<u32>)
    ensures
        r == number_entry(table_entries(*headers), key@),
{
    match table_get(headers, key) {
        Some(value) => amqp_value_to_u32(&value),
        None => None,
    }
}

/// The number that a value stands for.
fn amqp_value_to_u32(v: &FieldValue) -> (r: Option<u32>)
    ensures
        r == number_of(v@),
{
    match v {
        FieldValue::ShortShortInt(n) => Some(cut_to_u32(*n as i64)),
        FieldValue::ShortShortUInt(n) => Some(*n as u32),
        FieldValue::ShortInt(n) => Some(cut_to_u32(*n as i64)),
        FieldValue::ShortUInt(n) => Some(*n as u32),
        FieldValue::LongInt(n) => Some(cut_to_u32(*n as i64)),
        FieldValue::LongUInt(n) => Some(*n),
        FieldValue::LongLongInt(n) => Some(cut_to_u32(*n)),
        _ => None,
    }
}

/// The lowest 32 bits of a number.
fn cut_to_u32(n: i64) -> (r: u32)
    ensures
        r == low_bits(n as int),
{
    #[verifier::truncate]
    let r = n as u32;
    proof {
        let u = n as u64;
        assert(u == (if n >= 0 {
            n as int
        } else {
            n + 0x1_0000_0000_0000_0000
        })) by (bit_vector)
            requires
                u == n as u64,
        ;
        assert(r == u % 0x1_0000_0000) by (bit_vector)
            requires
                u == n as u64,
                r == n as u32,
        ;
    }
    r
}

/// The time limits of a header table.
fn get_timelimit(headers: &FieldTable) -> (r: (Option<u32>, Option<u32>))
    ensures
        r == timelimit_entry(table_entries(*headers)),
{
    match table_get(headers, "timelimit") {
        Some(FieldValue::FieldArray(items)) => {
            if array_get(&items, 2).is_some() {
                return (None, None);
            }
            match (array_get(&items, 0), array_get(&items, 1)) {
                (Some(soft), Some(hard)) => (amqp_value_to_u32(&soft), amqp_value_to_u32(&hard)),
                _ => (None, None),
            }
        },
        _ => (None, None),
    }
}

/// What arrives from a queue.
#[derive(Debug)]
pub struct DeliveryItem {
    pub delivery_tag: u64,
    pub exchange: String,
    pub routing_key: String,
    pub redelivered: bool,
    pub properties: BasicProperties,
    pub data: Vec<u8>,
}

/// A delivery, with the permit that it holds while it is worked on.
#[derive(Debug)]
pub struct Delivery<P> {
    pub item: DeliveryItem,
    pub permit: Option<P>,
}

impl<P> Delivery<P> {
    /// The message that the delivery holds, or what it lacks.
    pub open spec fn message(&self) -> Result<MessageView, ProtocolErrorView> {
        message_of(self.item.properties@, self.item.data@)
    }

    /// Reads the message that the delivery holds.
    pub fn try_deserialize_message(&self) -> (r: Result<Message, ProtocolError>)
        ensures
            outcome(r) == self.message(),
    {
        let properties = &self.item.properties;
        let headers = match &properties.headers {
            Some(headers) => headers,
            None => {
                return Err(ProtocolError::MissingHeaders);
            },
        };
        let correlation_id = match &properties.correlation_id {
            Some(s) => s.clone(),
            None => {
                return Err(ProtocolError::MissingRequiredProperty("correlation_id".to_owned()));
            },
        };
        let content_type = match &properties.content_type {
            Some(s) => s.clone(),
            None => {
                return Err(ProtocolError::MissingRequiredProperty("content_type".to_owned()));
            },
        };
        let content_encoding = match &properties.content_encoding {
            Some(s) => s.clone(),
            None => {
                return Err(ProtocolError::MissingRequiredProperty("content_encoding".to_owned()));
            },
        };
        let id = match get_header_str_required(headers, "id") {
            Ok(s) => s,
            Err(e) => {
                return Err(e);
            },
        };
        let task = match get_header_str_required(headers, "task") {
            Ok(s) => s,
            Err(e) => {
                return Err(e);
            },
        };
        let raw_body = self.item.data.clone();
        assert(raw_body@ =~= self.item.data@);
        Ok(
            Message {
                properties: MessageProperties {
                    correlation_id,
                    content_type,
                    content_encoding,
                    reply_to: copy_opt(&properties.reply_to),
                    delivery_info: None,
                },
                headers: MessageHeaders {
                    id,
                    task,
                    lang: get_header_str(headers, "lang"),
                    root_id: get_header_str(headers, "root_id"),
                    parent_id: get_header_str(headers, "parent_id"),
                    group: get_header_str(headers, "group"),
                    meth: get_header_str(headers, "meth"),
                    shadow: get_header_str(headers, "shadow"),
                    eta: get_header_dt(headers, "eta"),
                    expires: get_header_dt(headers, "expires"),
                    retries: get_header_u32(headers, "retries"),
                    timelimit: get_timelimit(headers),
                    argsrepr: get_header_str(headers, "argsrepr"),
                    kwargsrepr: get_header_str(headers, "kwargsrepr"),
                    origin: get_header_str(headers, "origin"),
                },
                raw_body,
            },
        )
    }

    /// The message to send, and the queue to send it to, when the delivery is to be tried
    /// again at `eta`.
    pub fn resend(&self, eta: Option<UtcTime>) -> (r: Result<(Message, String), ProtocolError>)
        requires
            self.message() matches Ok(m) ==> m.headers.retries != Some(u32::MAX),
        ensures
            match self.message() {
                Ok(m) => r matches Ok(out) && out.0@ == m.retried(opt_parts(eta)) && out.1@
                    == self.item.routing_key@,
                Err(e) => r matches Err(error) && error@ == e,
            },
    {
        match self.try_deserialize_message() {
            Ok(message) => Ok((message.retried(eta), self.item.routing_key.clone())),
            Err(error) => Err(error),
        }
    }

    /// As [`Self::resend`], with nothing to send where the retries cannot be counted further.
    pub fn try_resend(&self, eta: Option<UtcTime>) -> (r: Result<
        Option<(Message, String)>,
        ProtocolError,
    >)
        ensures
            match self.message() {
                Ok(m) => if m.headers.retries == Some(u32::MAX) {
                    r matches Ok(None)
                } else {
                    r matches Ok(Some(out)) && out.0@ == m.retried(opt_parts(eta)) && out.1@
                        == self.item.routing_key@
                },
                Err(e) => r matches Err(error) && error@ == e,
            },
    {
        if let Ok(message) = self.try_deserialize_message() {
            if let Some(retries) = message.headers.retries {
                if retries == u32::MAX {
                    return Ok(None);
                }
            }
        }
        match self.resend(eta) {
            Ok(out) => Ok(Some(out)),
            Err(error) => Err(error),
        }
    }

    /// A line about the delivery for logs.
    pub fn describe(&self) -> (r: String)
        ensures
            r@ == "exchange: "@ + self.item.exchange@ + ", queue: "@ + self.item.routing_key@
                + ", id: "@ + nat_text(self.item.delivery_tag as int),
    {
        let id = unsigned_text(self.item.delivery_tag);
        "exchange: ".to_owned().concat(self.item.exchange.as_str()).concat(", queue: ").concat(
            self.item.routing_key.as_str(),
        ).concat(", id: ").concat(id.as_str())
    }
}

} // verus!
