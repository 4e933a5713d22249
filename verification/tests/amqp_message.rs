use std::time::SystemTime;

use celery_brokers::broker::amqp::message::{BasicProperties, Delivery, DeliveryItem};
use celery_brokers::error::ProtocolError;
use celery_brokers::protocol::{Message, MessageHeaders, MessageProperties};
use celery_brokers::utc_time::UtcTime;
use chrono::{DateTime, SecondsFormat, Utc};
use lapin::types::{AMQPValue, FieldArray, FieldTable};

fn utc_time(t: DateTime<Utc>) -> UtcTime {
    UtcTime::new(t.timestamp(), t.timestamp_subsec_nanos()).unwrap()
}

fn full_message(time: UtcTime) -> Message {
    Message {
        properties: MessageProperties {
            correlation_id: "aaa".into(),
            content_type: "application/json".into(),
            content_encoding: "utf-8".into(),
            reply_to: Some("bbb".into()),
            delivery_info: None,
        },
        headers: MessageHeaders {
            id: "aaa".into(),
            task: "add".into(),
            lang: Some("rust".into()),
            root_id: Some("aaa".into()),
            parent_id: Some("000".into()),
            group: Some("A".into()),
            meth: Some("method_name".into()),
            shadow: Some("add-these".into()),
            eta: Some(time),
            expires: Some(time),
            retries: Some(1),
            timelimit: (Some(30), Some(60)),
            argsrepr: Some("(1)".into()),
            kwargsrepr: Some("{'y': 2}".into()),
            origin: Some("gen123@piper".into()),
        },
        raw_body: vec![],
    }
}

fn bare_message() -> Message {
    Message {
        properties: MessageProperties {
            correlation_id: "c".into(),
            content_type: "t".into(),
            content_encoding: "e".into(),
            reply_to: None,
            delivery_info: None,
        },
        headers: MessageHeaders {
            id: "i".into(),
            task: "k".into(),
            lang: None,
            root_id: None,
            parent_id: None,
            group: None,
            meth: None,
            shadow: None,
            eta: None,
            expires: None,
            retries: None,
            timelimit: (None, None),
            argsrepr: None,
            kwargsrepr: None,
            origin: None,
        },
        raw_body: vec![1, 2, 3],
    }
}

fn delivery(properties: BasicProperties, data: Vec<u8>) -> Delivery<()> {
    Delivery {
        item: DeliveryItem {
            delivery_tag: 7,
            exchange: "x".into(),
            routing_key: "celery".into(),
            redelivered: false,
            properties,
            data,
        },
        permit: None,
    }
}

fn sent(message: &Message) -> Delivery<()> {
    delivery(message.delivery_properties(), message.raw_body.clone())
}

fn with_header(name: &str, value: AMQPValue) -> Delivery<()> {
    let mut properties = bare_message().delivery_properties();
    let mut headers = properties.headers.take().unwrap();
    headers.insert(name.into(), value);
    properties.headers = Some(headers);
    delivery(properties, vec![])
}

#[test]
/// Tests conversion between Message -> Delivery -> Message.
fn test_conversion() {
    let now = DateTime::<Utc>::from(SystemTime::now());

    // HACK: round this to milliseconds because that will happen during conversion
    // from message -> delivery.
    let now_str = now.to_rfc3339_opts(SecondsFormat::Millis, false);
    let now = DateTime::<Utc>::from(DateTime::parse_from_rfc3339(&now_str).unwrap());
    let now = utc_time(now);

    let message = Message {
        properties: MessageProperties {
            correlation_id: "aaa".into(),
            content_type: "application/json".into(),
            content_encoding: "utf-8".into(),
            reply_to: Some("bbb".into()),
            delivery_info: None,
        },
        headers: MessageHeaders {
            id: "aaa".into(),
            task: "add".into(),
            lang: Some("rust".into()),
            root_id: Some("aaa".into()),
            parent_id: Some("000".into()),
            group: Some("A".into()),
            meth: Some("method_name".into()),
            shadow: Some("add-these".into()),
            eta: Some(now),
            expires: Some(now),
            retries: Some(1),
            timelimit: (Some(30), Some(60)),
            argsrepr: Some("(1)".into()),
            kwargsrepr: Some("{'y': 2}".into()),
            origin: Some("gen123@piper".into()),
        },
        raw_body: vec![],
    };

    let delivery: Delivery<()> = Delivery {
        item: DeliveryItem {
            delivery_tag: 0,
            exchange: "".into(),
            routing_key: "celery".into(),
            redelivered: false,
            properties: message.delivery_properties(),
            data: vec![],
        },
        permit: None,
    };

    let message2 = delivery.try_deserialize_message();
    assert!(message2.is_ok());

    let message2 = message2.unwrap();
    assert_eq!(message, message2);
}

#[test]
fn bare_messages_arrive_unchanged() {
    let message = bare_message();
    assert_eq!(sent(&message).try_deserialize_message(), Ok(message));
}

#[test]
fn times_arrive_to_the_millisecond() {
    let message = full_message(UtcTime::new(1_700_000_000, 123_456_789).unwrap());
    let arrived = sent(&message).try_deserialize_message().unwrap();
    assert_eq!(arrived.headers.eta, UtcTime::new(1_700_000_000, 123_000_000));
    assert_eq!(
        sent(&arrived).try_deserialize_message(),
        Ok(arrived.clone())
    );
}

#[test]
fn headers_have_their_amqp_values() {
    let message = full_message(UtcTime::new(0, 0).unwrap());
    let properties = message.delivery_properties();
    assert_eq!(properties.correlation_id.as_deref(), Some("aaa"));
    assert_eq!(properties.content_type.as_deref(), Some("application/json"));
    assert_eq!(properties.content_encoding.as_deref(), Some("utf-8"));
    assert_eq!(properties.reply_to.as_deref(), Some("bbb"));
    assert_eq!(properties.priority, Some(0));
    assert_eq!(properties.delivery_mode, Some(2));
    let headers = message.delivery_headers();
    let text = |s: &str| Some(AMQPValue::LongString(s.into()));
    let at = |name: &str| headers.inner().get(name).cloned();
    assert_eq!(headers.inner().len(), 15);
    assert_eq!(at("id"), text("aaa"));
    assert_eq!(at("task"), text("add"));
    assert_eq!(at("lang"), text("rust"));
    assert_eq!(at("root_id"), text("aaa"));
    assert_eq!(at("parent_id"), text("000"));
    assert_eq!(at("group"), text("A"));
    assert_eq!(at("meth"), text("method_name"));
    assert_eq!(at("shadow"), text("add-these"));
    assert_eq!(at("eta"), text("1970-01-01T00:00:00.000+00:00"));
    assert_eq!(at("expires"), text("1970-01-01T00:00:00.000+00:00"));
    assert_eq!(at("retries"), Some(AMQPValue::LongUInt(1)));
    let mut limits = FieldArray::default();
    limits.push(AMQPValue::LongUInt(30));
    limits.push(AMQPValue::LongUInt(60));
    assert_eq!(at("timelimit"), Some(AMQPValue::FieldArray(limits)));
    assert_eq!(at("argsrepr"), text("(1)"));
    assert_eq!(at("kwargsrepr"), text("{'y': 2}"));
    assert_eq!(at("origin"), text("gen123@piper"));
}

#[test]
fn absent_headers_are_not_sent() {
    let headers = bare_message().delivery_headers();
    let mut limits = FieldArray::default();
    limits.push(AMQPValue::Void);
    limits.push(AMQPValue::Void);
    assert_eq!(headers.inner().len(), 3);
    assert_eq!(
        headers.inner().get("timelimit"),
        Some(&AMQPValue::FieldArray(limits))
    );
}

#[test]
fn missing_parts_are_named() {
    let mut properties = bare_message().delivery_properties();
    properties.headers = None;
    assert_eq!(
        delivery(properties, vec![]).try_deserialize_message(),
        Err(ProtocolError::MissingHeaders)
    );
    let mut properties = bare_message().delivery_properties();
    properties.correlation_id = None;
    assert_eq!(
        delivery(properties, vec![]).try_deserialize_message(),
        Err(ProtocolError::MissingRequiredProperty("correlation_id".into()))
    );
    let mut properties = bare_message().delivery_properties();
    properties.content_type = None;
    assert_eq!(
        delivery(properties, vec![]).try_deserialize_message(),
        Err(ProtocolError::MissingRequiredProperty("content_type".into()))
    );
    let mut properties = bare_message().delivery_properties();
    properties.content_encoding = None;
    assert_eq!(
        delivery(properties, vec![]).try_deserialize_message(),
        Err(ProtocolError::MissingRequiredProperty("content_encoding".into()))
    );
    let mut properties = bare_message().delivery_properties();
    properties.headers = Some(FieldTable::default());
    assert_eq!(
        delivery(properties, vec![]).try_deserialize_message(),
        Err(ProtocolError::MissingRequiredHeader("id".into()))
    );
    assert_eq!(
        with_header("task", AMQPValue::LongUInt(1)).try_deserialize_message(),
        Err(ProtocolError::MissingRequiredHeader("task".into()))
    );
}

#[test]
fn texts_of_both_lengths_are_read() {
    for value in [
        AMQPValue::ShortString("rust".into()),
        AMQPValue::LongString("rust".into()),
    ] {
        let message = with_header("lang", value).try_deserialize_message().unwrap();
        assert_eq!(message.headers.lang.as_deref(), Some("rust"));
    }
    let message = with_header("lang", AMQPValue::Boolean(true))
        .try_deserialize_message()
        .unwrap();
    assert_eq!(message.headers.lang, None);
}

#[test]
fn numbers_of_all_widths_are_read() {
    let cases = [
        (AMQPValue::ShortShortInt(-1), Some(u32::MAX)),
        (AMQPValue::ShortShortUInt(200), Some(200)),
        (AMQPValue::ShortInt(-2), Some(u32::MAX - 1)),
        (AMQPValue::ShortUInt(60_000), Some(60_000)),
        (AMQPValue::LongInt(-3), Some(u32::MAX - 2)),
        (AMQPValue::LongUInt(4_000_000_000), Some(4_000_000_000)),
        (AMQPValue::LongLongInt(0x1_0000_0005), Some(5)),
        (AMQPValue::LongLongInt(-1), Some(u32::MAX)),
        (AMQPValue::LongLongInt(i64::MIN), Some(0)),
        (AMQPValue::LongString("1".into()), None),
        (AMQPValue::Void, None),
        (AMQPValue::Timestamp(5), None),
    ];
    for (value, expected) in cases {
        let message = with_header("retries", value).try_deserialize_message().unwrap();
        assert_eq!(message.headers.retries, expected);
    }
}

#[test]
fn times_that_are_no_times_are_left_out() {
    let message = with_header("eta", AMQPValue::LongString("soon".into()))
        .try_deserialize_message()
        .unwrap();
    assert_eq!(message.headers.eta, None);
    let message = with_header(
        "expires",
        AMQPValue::LongString("1970-01-01T00:00:00+00:00".into()),
    )
    .try_deserialize_message()
    .unwrap();
    assert_eq!(message.headers.expires, UtcTime::new(0, 0));
}

#[test]
fn timelimits_have_two_places() {
    let limits = |values: Vec<AMQPValue>| {
        let mut array = FieldArray::default();
        for value in values {
            array.push(value);
        }
        with_header("timelimit", AMQPValue::FieldArray(array))
            .try_deserialize_message()
            .unwrap()
            .headers
            .timelimit
    };
    assert_eq!(
        limits(vec![AMQPValue::LongUInt(1), AMQPValue::LongUInt(2)]),
        (Some(1), Some(2))
    );
    assert_eq!(
        limits(vec![AMQPValue::Void, AMQPValue::LongInt(2)]),
        (None, Some(2))
    );
    assert_eq!(limits(vec![AMQPValue::LongUInt(1)]), (None, None));
    assert_eq!(
        limits(vec![
            AMQPValue::LongUInt(1),
            AMQPValue::LongUInt(2),
            AMQPValue::LongUInt(3)
        ]),
        (None, None)
    );
    assert_eq!(
        with_header("timelimit", AMQPValue::LongUInt(1))
            .try_deserialize_message()
            .unwrap()
            .headers
            .timelimit,
        (None, None)
    );
}

#[test]
fn resending_counts_the_retries() {
    let eta = UtcTime::new(60, 0);
    let (message, queue) = sent(&bare_message()).resend(eta).unwrap();
    assert_eq!(queue, "celery");
    assert_eq!(message.headers.retries, Some(1));
    assert_eq!(message.headers.eta, eta);
    let (message, _) = sent(&message).resend(None).unwrap();
    assert_eq!(message.headers.retries, Some(2));
    assert_eq!(message.headers.eta, None);
    let mut expected = bare_message();
    expected.headers.retries = Some(2);
    assert_eq!(message, expected);
}

#[test]
fn retries_end_where_they_cannot_be_counted() {
    let mut message = bare_message();
    message.headers.retries = Some(u32::MAX);
    assert_eq!(sent(&message).try_resend(None), Ok(None));
    message.headers.retries = Some(u32::MAX - 1);
    let (message, _) = sent(&message).try_resend(None).unwrap().unwrap();
    assert_eq!(message.headers.retries, Some(u32::MAX));
    let mut properties = bare_message().delivery_properties();
    properties.headers = None;
    assert_eq!(
        delivery(properties, vec![]).try_resend(None),
        Err(ProtocolError::MissingHeaders)
    );
}

#[test]
fn deliveries_are_described() {
    assert_eq!(
        sent(&bare_message()).describe(),
        "exchange: x, queue: celery, id: 7"
    );
}

#[test]
fn times_that_run_over_arrive_as_the_next_second() {
    let message = full_message(UtcTime::new(60, 1_500_000_000).unwrap());
    let arrived = sent(&message).try_deserialize_message().unwrap();
    assert_eq!(arrived.headers.eta, UtcTime::new(61, 500_000_000));
    assert_eq!(sent(&arrived).try_deserialize_message(), Ok(arrived.clone()));
}
