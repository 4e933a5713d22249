//! What holds of messages as AMQP deliveries, header by header.

use vstd::prelude::*;

use crate::broker::amqp::field::{entry, table_entries, FieldView};
use crate::broker::amqp::message::{
    entry_is_header, header_names_differ, message_of, number_entry, number_of, outcome,
    properties_of, received, text_entry, time_entry, timelimit_entry, BasicPropertiesView,
    Delivery,
};
use crate::error::{ProtocolError, ProtocolErrorView};
use crate::protocol::{Message, MessageView};
use crate::text::opt_text;
use crate::utc_time::{
    rfc3339_instant, rfc3339_millis, FIRST_FOUR_DIGIT_SECOND, LAST_FOUR_DIGIT_SECOND,
};

verus! {

/// Whether a table holds an optional text under a name: the text where there is one, and nothing
/// where there is none.
pub open spec fn holds_text(
    entries: Map<Seq<char>, FieldView>,
    name: Seq<char>,
    value: Option<Seq<char>>,
) -> bool {
    &&& entries.contains_key(name) <==> value is Some
    &&& value matches Some(s) ==> entries[name] == FieldView::LongString(s)
}

/// Whether a table holds an optional instant under a name.
pub open spec fn holds_time(
    entries: Map<Seq<char>, FieldView>,
    name: Seq<char>,
    value: Option<(i64, u32)>,
) -> bool {
    &&& entries.contains_key(name) <==> value is Some
    &&& value matches Some(t) ==> entries[name] == FieldView::LongString(rfc3339_millis(t.0, t.1))
}

/// Whether a value is an optional time limit.
pub open spec fn is_limit(value: FieldView, limit: Option<u32>) -> bool {
    match limit {
        Some(n) => value == FieldView::LongUInt(n),
        None => value is Void,
    }
}

/// The names of the headers of a message.
pub open spec fn is_header_name(name: Seq<char>) -> bool {
    ||| name == "id"@
    ||| name == "task"@
    ||| name == "lang"@
    ||| name == "root_id"@
    ||| name == "parent_id"@
    ||| name == "group"@
    ||| name == "meth"@
    ||| name == "shadow"@
    ||| name == "eta"@
    ||| name == "expires"@
    ||| name == "retries"@
    ||| name == "timelimit"@
    ||| name == "argsrepr"@
    ||| name == "kwargsrepr"@
    ||| name == "origin"@
}

/// Each header of a message is sent under its own name exactly where the message has it, and
/// depends on nothing else. Both time limits are always sent together, and there are no other
/// headers. The properties are those of the message, with the lowest priority, to be kept on
/// disk.
pub proof fn each_header_is_sent_under_its_name(message: MessageView, name: Seq<char>)
    ensures
        ({
            let sent = properties_of(message);
            let h = message.headers;
            &&& sent.correlation_id == Some(message.properties.correlation_id)
            &&& sent.content_type == Some(message.properties.content_type)
            &&& sent.content_encoding == Some(message.properties.content_encoding)
            &&& sent.reply_to == message.properties.reply_to
            &&& sent.priority == Some(0u8)
            &&& sent.delivery_mode == Some(2u8)
            &&& sent.headers matches Some(entries)
            &&& holds_text(entries, "id"@, Some(h.id))
            &&& holds_text(entries, "task"@, Some(h.task))
            &&& holds_text(entries, "lang"@, h.lang)
            &&& holds_text(entries, "root_id"@, h.root_id)
            &&& holds_text(entries, "parent_id"@, h.parent_id)
            &&& holds_text(entries, "group"@, h.group)
            &&& holds_text(entries, "meth"@, h.meth)
            &&& holds_text(entries, "shadow"@, h.shadow)
            &&& holds_time(entries, "eta"@, h.eta)
            &&& holds_time(entries, "expires"@, h.expires)
            &&& entries.contains_key("retries"@) <==> h.retries is Some
            &&& h.retries matches Some(n) ==> entries["retries"@] == FieldView::LongUInt(n)
            &&& entries.contains_key("timelimit"@)
            &&& entries["timelimit"@] matches FieldView::FieldArray(limits) && limits.len() == 2
                && is_limit(limits[0], h.timelimit.0) && is_limit(limits[1], h.timelimit.1)
            &&& holds_text(entries, "argsrepr"@, h.argsrepr)
            &&& holds_text(entries, "kwargsrepr"@, h.kwargsrepr)
            &&& holds_text(entries, "origin"@, h.origin)
            &&& entries.contains_key(name) ==> is_header_name(name)
        }),
{
    header_names_differ();
    entry_is_header(message.headers, name);
}

/// Sending a message changes nothing of it but the part of its times below the millisecond, and
/// leaves out where it was routed.
pub proof fn sending_keeps_all_but_times_and_route(message: MessageView)
    ensures
        ({
            let after = received(message);
            let (sent, arrived) = (message.headers, after.headers);
            &&& after.properties.correlation_id == message.properties.correlation_id
            &&& after.properties.content_type == message.properties.content_type
            &&& after.properties.content_encoding == message.properties.content_encoding
            &&& after.properties.reply_to == message.properties.reply_to
            &&& after.properties.delivery_info is None
            &&& after.raw_body == message.raw_body
            &&& arrived.id == sent.id
            &&& arrived.task == sent.task
            &&& arrived.lang == sent.lang
            &&& arrived.root_id == sent.root_id
            &&& arrived.parent_id == sent.parent_id
            &&& arrived.group == sent.group
            &&& arrived.meth == sent.meth
            &&& arrived.shadow == sent.shadow
            &&& arrived.retries == sent.retries
            &&& arrived.timelimit == sent.timelimit
            &&& arrived.argsrepr == sent.argsrepr
            &&& arrived.kwargsrepr == sent.kwargsrepr
            &&& arrived.origin == sent.origin
            &&& same_to_the_millisecond(sent.eta, arrived.eta)
            &&& same_to_the_millisecond(sent.expires, arrived.expires)
        }),
{
}

/// Whether a time arrived as it was sent, to the millisecond: an ordinary time in a year of four
/// digits loses less than a millisecond, and there is a time if and only if one was sent. A time
/// in another year is not read back.
pub open spec fn same_to_the_millisecond(
    sent: Option<(i64, u32)>,
    arrived: Option<(i64, u32)>,
) -> bool {
    match sent {
        None => arrived is None,
        Some(t) => if FIRST_FOUR_DIGIT_SECOND <= t.0 <= LAST_FOUR_DIGIT_SECOND {
            &&& arrived matches Some(a)
            &&& t.1 < 1_000_000_000 ==> a.0 == t.0 && a.1 <= t.1 < a.1 + 1_000_000
            &&& a.1 as int % 1_000_000 == 0
        } else {
            arrived is None
        },
    }
}

/// Whether an optional text is what a table holds under a name: the text of a short or a long
/// string, and nothing where there is no string.
pub open spec fn is_text_under(
    value: Option<Seq<char>>,
    entries: Map<Seq<char>, FieldView>,
    name: Seq<char>,
) -> bool {
    &&& value matches Some(s) ==> entries.contains_key(name) && (entries[name]
        == FieldView::LongString(s) || entries[name] == FieldView::ShortString(s))
    &&& value is None ==> !entries.contains_key(name) || !(entries[name] is LongString
        || entries[name] is ShortString)
}

/// Whether an optional instant is what a table holds under a name: the instant of an RFC 3339
/// text.
pub open spec fn is_time_under(
    value: Option<(i64, u32)>,
    entries: Map<Seq<char>, FieldView>,
    name: Seq<char>,
) -> bool {
    exists|text: Option<Seq<char>>| #[trigger]
        is_text_under(text, entries, name) && value == (match text {
            Some(s) => rfc3339_instant(s),
            None => None,
        })
}

/// A delivery is read header by header: each header of the message is what the table holds under
/// the name of that header and depends on no other. The properties and the body are those of the
/// delivery.
pub proof fn each_header_is_read_under_its_name(properties: BasicPropertiesView, data: Seq<u8>)
    ensures
        message_of(properties, data) matches Ok(message) ==> {
            let h = message.headers;
            &&& Some(message.properties.correlation_id) == properties.correlation_id
            &&& Some(message.properties.content_type) == properties.content_type
            &&& Some(message.properties.content_encoding) == properties.content_encoding
            &&& message.properties.reply_to == properties.reply_to
            &&& message.properties.delivery_info is None
            &&& message.raw_body == data
            &&& properties.headers matches Some(entries)
            &&& is_text_under(Some(h.id), entries, "id"@)
            &&& is_text_under(Some(h.task), entries, "task"@)
            &&& is_text_under(h.lang, entries, "lang"@)
            &&& is_text_under(h.root_id, entries, "root_id"@)
            &&& is_text_under(h.parent_id, entries, "parent_id"@)
            &&& is_text_under(h.group, entries, "group"@)
            &&& is_text_under(h.meth, entries, "meth"@)
            &&& is_text_under(h.shadow, entries, "shadow"@)
            &&& is_time_under(h.eta, entries, "eta"@)
            &&& is_time_under(h.expires, entries, "expires"@)
            &&& is_number_under(h.retries, entries, "retries"@)
            &&& are_limits_under(h.timelimit, entries, "timelimit"@)
            &&& is_text_under(h.argsrepr, entries, "argsrepr"@)
            &&& is_text_under(h.kwargsrepr, entries, "kwargsrepr"@)
            &&& is_text_under(h.origin, entries, "origin"@)
        },
{
    if let Ok(message) = message_of(properties, data) {
        let entries = properties.headers->0;
        let eta = text_entry(entries, "eta"@);
        let expires = text_entry(entries, "expires"@);
        assert(is_text_under(eta, entries, "eta"@));
        assert(is_text_under(expires, entries, "expires"@));
    }
}

/// Whether an optional number is what a table holds under a name.
pub open spec fn is_number_under(
    value: Option<u32>,
    entries: Map<Seq<char>, FieldView>,
    name: Seq<char>,
) -> bool {
    if entries.contains_key(name) {
        stands_for(entries[name], value)
    } else {
        value is None
    }
}

/// Whether two optional limits are what a table holds under a name: the two items of an array of
/// two, each by itself, and nothing otherwise.
pub open spec fn are_limits_under(
    limits: (Option<u32>, Option<u32>),
    entries: Map<Seq<char>, FieldView>,
    name: Seq<char>,
) -> bool {
    if entries.contains_key(name) && (entries[name] matches FieldView::FieldArray(items)
        && items.len() == 2) {
        let items = entries[name]->FieldArray_0;
        stands_for(items[0], limits.0) && stands_for(items[1], limits.1)
    } else {
        limits.0 is None && limits.1 is None
    }
}

/// The integer that a value holds, if it holds one of a kind that is read.
pub open spec fn integer_in(value: FieldView) -> Option<int> {
    match value {
        FieldView::ShortShortInt(n) => Some(n as int),
        FieldView::ShortShortUInt(n) => Some(n as int),
        FieldView::ShortInt(n) => Some(n as int),
        FieldView::ShortUInt(n) => Some(n as int),
        FieldView::LongInt(n) => Some(n as int),
        FieldView::LongUInt(n) => Some(n as int),
        FieldView::LongLongInt(n) => Some(n as int),
        _ => None,
    }
}

/// Whether an optional number is what a value stands for: an integer of any width stands for the
/// number itself where it fits in 32 bits, and otherwise for the number that has the same low
/// bits. Nothing else stands for a number.
pub open spec fn stands_for(value: FieldView, number: Option<u32>) -> bool {
    match integer_in(value) {
        Some(n) => number matches Some(m) && (n - m) % 0x1_0000_0000 == 0 && (0 <= n
            < 0x1_0000_0000 ==> m == n),
        None => number is None,
    }
}

/// Every value is read as the number that it stands for.
pub proof fn values_are_read_as_their_numbers(value: FieldView)
    ensures
        stands_for(value, number_of(value)),
{
    if let Some(n) = integer_in(value) {
        let m = n % 0x1_0000_0000;
        assert((n - m) % 0x1_0000_0000 == 0) by (nonlinear_arith)
            requires
                m == n % 0x1_0000_0000,
        ;
    }
}

/// A delivery holds a message if and only if it has headers, the three properties that every
/// message has, and the two headers that every message has as texts. What is missing first, in
/// this order, is named.
pub proof fn what_is_missing_is_named(properties: BasicPropertiesView, data: Seq<u8>)
    ensures
        ({
            let has_text = |name: Seq<char>|
                properties.headers matches Some(entries) && entries.contains_key(name) && (
                entries[name] is LongString || entries[name] is ShortString);
            match message_of(properties, data) {
                Ok(_) => properties.headers is Some && properties.correlation_id is Some
                    && properties.content_type is Some && properties.content_encoding is Some
                    && has_text("id"@) && has_text("task"@),
                Err(ProtocolErrorView::MissingHeaders) => properties.headers is None,
                Err(ProtocolErrorView::MissingRequiredProperty(name)) => {
                    &&& properties.headers is Some
                    &&& if properties.correlation_id is None {
                        name == "correlation_id"@
                    } else if properties.content_type is None {
                        name == "content_type"@
                    } else {
                        name == "content_encoding"@ && properties.content_encoding is None
                    }
                },
                Err(ProtocolErrorView::MissingRequiredHeader(name)) => {
                    &&& properties.headers is Some && properties.correlation_id is Some
                        && properties.content_type is Some && properties.content_encoding is Some
                    &&& if !has_text("id"@) {
                        name == "id"@
                    } else {
                        name == "task"@ && !has_text("task"@)
                    }
                },
            }
        }),
{
}

/// An entry beside is as it was.
proof fn entry_beside(
    entries: Map<Seq<char>, FieldView>,
    name: Seq<char>,
    value: FieldView,
    other: Seq<char>,
)
    requires
        other != name,
    ensures
        entry(entries.insert(name, value), other) == entry(entries, other),
        text_entry(entries.insert(name, value), other) == text_entry(entries, other),
        time_entry(entries.insert(name, value), other) == time_entry(entries, other),
        number_entry(entries.insert(name, value), other) == number_entry(entries, other),
{
}

/// Headers that are none of a message do not matter: a delivery with another one beside holds the
/// same message.
pub proof fn other_headers_do_not_matter(
    properties: BasicPropertiesView,
    data: Seq<u8>,
    name: Seq<char>,
    value: FieldView,
)
    requires
        properties.headers is Some,
        !is_header_name(name),
    ensures
        message_of(
            BasicPropertiesView {
                headers: Some(properties.headers->0.insert(name, value)),
                ..properties
            },
            data,
        ) == message_of(properties, data),
{
    let before = properties.headers->0;
    entry_beside(before, name, value, "id"@);
    entry_beside(before, name, value, "task"@);
    entry_beside(before, name, value, "lang"@);
    entry_beside(before, name, value, "root_id"@);
    entry_beside(before, name, value, "parent_id"@);
    entry_beside(before, name, value, "group"@);
    entry_beside(before, name, value, "meth"@);
    entry_beside(before, name, value, "shadow"@);
    entry_beside(before, name, value, "eta"@);
    entry_beside(before, name, value, "expires"@);
    entry_beside(before, name, value, "retries"@);
    entry_beside(before, name, value, "timelimit"@);
    entry_beside(before, name, value, "argsrepr"@);
    entry_beside(before, name, value, "kwargsrepr"@);
    entry_beside(before, name, value, "origin"@);
    let after = before.insert(name, value);
    assert(timelimit_entry(after) == timelimit_entry(before));
    let extended = BasicPropertiesView { headers: Some(after), ..properties };
    assert(message_of(extended, data) is Ok <==> message_of(properties, data) is Ok);
    if let (Ok(a), Ok(b)) = (message_of(extended, data), message_of(properties, data)) {
        assert(a.headers == b.headers);
        assert(a.properties == b.properties);
        assert(a == b);
    }
}

/// The model of an attempt to read a message says what came of it: the message, or what was
/// missing.
pub proof fn outcomes_are_told_apart(attempt: Result<Message, ProtocolError>)
    ensures
        match attempt {
            Ok(message) => outcome(attempt) matches Ok(m) && m == message@,
            Err(ProtocolError::MissingHeaders) => outcome(attempt) matches Err(e) && e
                is MissingHeaders,
            Err(ProtocolError::MissingRequiredProperty(name)) => outcome(attempt) matches Err(e)
                && (e matches ProtocolErrorView::MissingRequiredProperty(n) && n == name@),
            Err(ProtocolError::MissingRequiredHeader(name)) => outcome(attempt) matches Err(e) && (
            e matches ProtocolErrorView::MissingRequiredHeader(n) && n == name@),
        },
{
}

/// A delivery holds the message of its own properties and its own body, whatever permit it has and
/// wherever it came from, and the model of its properties leaves none out that is read.
pub proof fn deliveries_hold_what_they_carry<P>(delivery: Delivery<P>)
    ensures
        delivery.message() == message_of(delivery.item.properties@, delivery.item.data@),
        ({
            let (properties, model) = (delivery.item.properties, delivery.item.properties@);
            &&& model.correlation_id == opt_text(properties.correlation_id)
            &&& model.content_type == opt_text(properties.content_type)
            &&& model.content_encoding == opt_text(properties.content_encoding)
            &&& model.reply_to == opt_text(properties.reply_to)
            &&& model.headers is Some <==> properties.headers is Some
            &&& properties.headers matches Some(table) ==> model.headers == Some(
                table_entries(table),
            )
            &&& model.priority == properties.priority
            &&& model.delivery_mode == properties.delivery_mode
        }),
{
}

} // verus!
