//! Messages as the brokers carry them.

use vstd::prelude::*;

use crate::text::{copy_opt, opt_text};
use crate::utc_time::{opt_parts, UtcTime};

verus! {

/// Where a message was routed.
#[derive(Debug, PartialEq, Eq)]
pub struct DeliveryInfo {
    pub exchange: String,
    pub routing_key: String,
}

/// The transport properties of a message.
#[derive(Debug, PartialEq, Eq)]
pub struct MessageProperties {
    /// A unique ID associated with the task, usually the same as the task ID.
    pub correlation_id: String,
    /// The MIME type of the body.
    pub content_type: String,
    /// The encoding of the body.
    pub content_encoding: String,
    /// Where results should be sent.
    pub reply_to: Option<String>,
    /// Where the message was routed.
    pub delivery_info: Option<DeliveryInfo>,
}

/// The task headers of a message.
#[derive(Debug, PartialEq, Eq)]
pub struct MessageHeaders {
    /// A unique ID of the task.
    pub id: String,
    /// The name of the task.
    pub task: String,
    /// The programming language of the task.
    pub lang: Option<String>,
    /// The root of the workflow that the task belongs to.
    pub root_id: Option<String>,
    /// The task that called this one.
    pub parent_id: Option<String>,
    /// The group that the task belongs to.
    pub group: Option<String>,
    /// The name of the method.
    pub meth: Option<String>,
    /// An alias of the task name for logs.
    pub shadow: Option<String>,
    /// Before this time the task must not run.
    pub eta: Option<UtcTime>,
    /// After this time the task must not run.
    pub expires: Option<UtcTime>,
    /// How many times the task was retried.
    pub retries: Option<u32>,
    /// The soft and the hard time limit in seconds.
    pub timelimit: (Option<u32>, Option<u32>),
    /// A text of the arguments for logs.
    pub argsrepr: Option<String>,
    /// A text of the keyword arguments for logs.
    pub kwargsrepr: Option<String>,
    /// The name of the node that sent the task.
    pub origin: Option<String>,
}

/// A message.
#[derive(Debug, PartialEq, Eq)]
pub struct Message {
    pub properties: MessageProperties,
    pub headers: MessageHeaders,
    /// The encoded body.
    pub raw_body: Vec<u8>,
}

/// The model of [`MessageProperties`].
pub struct PropertiesView {
    pub correlation_id: Seq<char>,
    pub content_type: Seq<char>,
    pub content_encoding: Seq<char>,
    pub reply_to: Option<Seq<char>>,
    pub delivery_info: Option<(Seq<char>, Seq<char>)>,
}

impl View for MessageProperties {
    type V = PropertiesView;

    open spec fn view(&self) -> PropertiesView {
        PropertiesView {
            correlation_id: self.correlation_id@,
            content_type: self.content_type@,
            content_encoding: self.content_encoding@,
            reply_to: opt_text(self.reply_to),
            delivery_info: match self.delivery_info {
                Some(info) => Some((info.exchange@, info.routing_key@)),
                None => None,
            },
        }
    }
}

/// The model of [`MessageHeaders`].
pub struct HeadersView {
    pub id: Seq<char>,
    pub task: Seq<char>,
    pub lang: Option<Seq<char>>,
    pub root_id: Option<Seq<char>>,
    pub parent_id: Option<Seq<char>>,
    pub group: Option<Seq<char>>,
    pub meth: Option<Seq<char>>,
    pub shadow: Option<Seq<char>>,
    pub eta: Option<(i64, u32)>,
    pub expires: Option<(i64, u32)>,
    pub retries: Option<u32>,
    pub timelimit: (Option<u32>, Option<u32>),
    pub argsrepr: Option<Seq<char>>,
    pub kwargsrepr: Option<Seq<char>>,
    pub origin: Option<Seq<char>>,
}

impl View for MessageHeaders {
    type V = HeadersView;

    open spec fn view(&self) -> HeadersView {
        HeadersView {
            id: self.id@,
            task: self.task@,
            lang: opt_text(self.lang),
            root_id: opt_text(self.root_id),
            parent_id: opt_text(self.parent_id),
            group: opt_text(self.group),
            meth: opt_text(self.meth),
            shadow: opt_text(self.shadow),
            eta: opt_parts(self.eta),
            expires: opt_parts(self.expires),
            retries: self.retries,
            timelimit: self.timelimit,
            argsrepr: opt_text(self.argsrepr),
            kwargsrepr: opt_text(self.kwargsrepr),
            origin: opt_text(self.origin),
        }
    }
}

/// The model of a [`Message`].
pub struct MessageView {
    pub properties: PropertiesView,
    pub headers: HeadersView,
    pub raw_body: Seq<u8>,
}

impl View for Message {
    type V = MessageView;

    open spec fn view(&self) -> MessageView {
        MessageView {
            properties: self.properties@,
            headers: self.headers@,
            raw_body: self.raw_body@,
        }
    }
}

impl Clone for MessageProperties {
    fn clone(&self) -> (r: Self)
        ensures
            r@ == self@,
    {
        MessageProperties {
            correlation_id: self.correlation_id.clone(),
            content_type: self.content_type.clone(),
            content_encoding: self.content_encoding.clone(),
            reply_to: copy_opt(&self.reply_to),
            delivery_info: match &self.delivery_info {
                Some(info) => Some(
                    DeliveryInfo {
                        exchange: info.exchange.clone(),
                        routing_key: info.routing_key.clone(),
                    },
                ),
                None => None,
            },
        }
    }
}

impl Clone for MessageHeaders {
    fn clone(&self) -> (r: Self)
        ensures
            r@ == self@,
    {
        MessageHeaders {
            id: self.id.clone(),
            task: self.task.clone(),
            lang: copy_opt(&self.lang),
            root_id: copy_opt(&self.root_id),
            parent_id: copy_opt(&self.parent_id),
            group: copy_opt(&self.group),
            meth: copy_opt(&self.meth),
            shadow: copy_opt(&self.shadow),
            eta: self.eta,
            expires: self.expires,
            retries: self.retries,
            timelimit: (self.timelimit.0, self.timelimit.1),
            argsrepr: copy_opt(&self.argsrepr),
            kwargsrepr: copy_opt(&self.kwargsrepr),
            origin: copy_opt(&self.origin),
        }
    }
}

impl Clone for Message {
    fn clone(&self) -> (r: Self)
        ensures
            r@ == self@,
    {
        let raw_body = self.raw_body.clone();
        assert(raw_body@ =~= self.raw_body@);
        Message { properties: self.properties.clone(), headers: self.headers.clone(), raw_body }
    }
}

/// The number of retries after one more.
pub open spec fn next_retry(retries: Option<u32>) -> int {
    match retries {
        Some(n) => n + 1,
        None => 1,
    }
}

impl MessageView {
    /// The message to send when this one is to be tried again at `eta`.
    pub open spec fn retried(self, eta: Option<(i64, u32)>) -> MessageView {
        MessageView {
            headers: HeadersView {
                eta: eta,
                retries: Some(next_retry(self.headers.retries) as u32),
                ..self.headers
            },
            ..self
        }
    }
}

impl Message {
    /// Makes the message to send when this one is to be tried again: with the new ETA,
    /// and one retry more.
    pub fn retried(self, eta: Option<UtcTime>) -> (r: Message)
        requires
            self.headers.retries != Some(u32::MAX),
        ensures
            r@ == self@.retried(opt_parts(eta)),
            r.properties == self.properties,
            r.raw_body == self.raw_body,
            r.headers == (MessageHeaders { eta, retries: r.headers.retries, ..self.headers }),
            self.headers.retries matches Some(n) ==> r.headers.retries == Some((n + 1) as u32),
            self.headers.retries is None ==> r.headers.retries == Some(1u32),
    {
        let mut message = self;
        let retries: u32 = match message.headers.retries {
            Some(n) => n + 1,
            None => 1,
        };
        message.headers.eta = eta;
        message.headers.retries = Some(retries);
        message
    }
}

/// Trying a message again twice counts two retries, and the last ETA stands.
pub proof fn retries_accumulate(
    message: MessageView,
    first: Option<(i64, u32)>,
    second: Option<(i64, u32)>,
)
    requires
        next_retry(message.headers.retries) < u32::MAX,
    ensures
        message.retried(first).retried(second).headers.retries == Some(
            (next_retry(message.headers.retries) + 1) as u32,
        ),
        message.retried(first).retried(second).headers.eta == second,
        message.retried(first).retried(second).properties == message.properties,
        message.retried(first).retried(second).raw_body == message.raw_body,
{
}

/// Trying a message again changes nothing but its ETA and its number of retries: every other
/// header, every property and the body are those of the message that was received. The ETA is
/// the one given, whatever it was before, and the retries are one more, counted from none.
pub proof fn retrying_changes_only_eta_and_retries(message: MessageView, eta: Option<(i64, u32)>)
    requires
        message.headers.retries != Some(u32::MAX),
    ensures
        ({
            let again = message.retried(eta);
            let (old_headers, new_headers) = (message.headers, again.headers);
            &&& new_headers.id == old_headers.id
            &&& new_headers.task == old_headers.task
            &&& new_headers.lang == old_headers.lang
            &&& new_headers.root_id == old_headers.root_id
            &&& new_headers.parent_id == old_headers.parent_id
            &&& new_headers.group == old_headers.group
            &&& new_headers.meth == old_headers.meth
            &&& new_headers.shadow == old_headers.shadow
            &&& new_headers.expires == old_headers.expires
            &&& new_headers.timelimit == old_headers.timelimit
            &&& new_headers.argsrepr == old_headers.argsrepr
            &&& new_headers.kwargsrepr == old_headers.kwargsrepr
            &&& new_headers.origin == old_headers.origin
            &&& again.properties.correlation_id == message.properties.correlation_id
            &&& again.properties.content_type == message.properties.content_type
            &&& again.properties.content_encoding == message.properties.content_encoding
            &&& again.properties.reply_to == message.properties.reply_to
            &&& again.properties.delivery_info == message.properties.delivery_info
            &&& again.raw_body == message.raw_body
            &&& new_headers.eta == eta
            &&& new_headers.retries matches Some(n) && n >= 1 && (n == 1 ==> (
            old_headers.retries is None || old_headers.retries == Some(0u32))) && (n > 1
                ==> old_headers.retries == Some((n - 1) as u32))
        }),
{
}

/// The model of a message leaves nothing out: messages with the same model have the same parts.
pub proof fn models_tell_messages_apart(a: Message, b: Message)
    requires
        a@ == b@,
    ensures
        a.properties.correlation_id@ == b.properties.correlation_id@,
        a.properties.content_type@ == b.properties.content_type@,
        a.properties.content_encoding@ == b.properties.content_encoding@,
        opt_text(a.properties.reply_to) == opt_text(b.properties.reply_to),
        a.properties.delivery_info is Some <==> b.properties.delivery_info is Some,
        a.headers.id@ == b.headers.id@,
        a.headers.task@ == b.headers.task@,
        opt_text(a.headers.lang) == opt_text(b.headers.lang),
        opt_text(a.headers.root_id) == opt_text(b.headers.root_id),
        opt_text(a.headers.parent_id) == opt_text(b.headers.parent_id),
        opt_text(a.headers.group) == opt_text(b.headers.group),
        opt_text(a.headers.meth) == opt_text(b.headers.meth),
        opt_text(a.headers.shadow) == opt_text(b.headers.shadow),
        opt_parts(a.headers.eta) == opt_parts(b.headers.eta),
        opt_parts(a.headers.expires) == opt_parts(b.headers.expires),
        a.headers.retries == b.headers.retries,
        a.headers.timelimit == b.headers.timelimit,
        opt_text(a.headers.argsrepr) == opt_text(b.headers.argsrepr),
        opt_text(a.headers.kwargsrepr) == opt_text(b.headers.kwargsrepr),
        opt_text(a.headers.origin) == opt_text(b.headers.origin),
        a.raw_body@ == b.raw_body@,
{
}

} // verus!
