use celery_brokers::broker::consumer_tag::new_consumer_tag;
use celery_brokers::broker::prefetch::clamp_prefetch;
use celery_brokers::string_map::StringMap;
use celery_brokers::task::async_result::AsyncResult;
use celery_brokers::text::{
    chars_of, parse_decimal, same_text, signed_text, text_order, unsigned_text, TextOrder,
};
use celery_brokers::utc_time::{
    UtcTime, FIRST_FOUR_DIGIT_SECOND, LAST_FOUR_DIGIT_SECOND, MAX_SECONDS, MIN_SECONDS,
};
use chrono::{DateTime, SecondsFormat, Timelike, Utc};

#[test]
fn async_result_holds_the_task_id() {
    assert_eq!(AsyncResult::new("abc").task_id, "abc");
    let result = AsyncResult::new(String::from("def"));
    assert_eq!(result.clone().task_id, "def");
}

#[test]
fn prefetch_count_is_at_least_one() {
    assert_eq!(clamp_prefetch(0), 1);
    assert_eq!(clamp_prefetch(1), 1);
    assert_eq!(clamp_prefetch(10), 10);
    assert_eq!(clamp_prefetch(u16::MAX), u16::MAX);
}

#[test]
fn consumer_tags_are_random_uuids() {
    let a = new_consumer_tag();
    let b = new_consumer_tag();
    assert_ne!(a, b);
    let chars: Vec<char> = a.chars().collect();
    assert_eq!(chars.len(), 36);
    for (i, c) in chars.iter().enumerate() {
        if i == 8 || i == 13 || i == 18 || i == 23 {
            assert_eq!(*c, '-');
        } else {
            assert!(c.is_ascii_digit() || ('a'..='f').contains(c));
        }
    }
    assert_eq!(chars[14], '4');
    assert!("89ab".contains(chars[19]));
}

#[test]
fn numbers_are_written_in_decimal() {
    assert_eq!(unsigned_text(0), "0");
    assert_eq!(unsigned_text(5672), "5672");
    assert_eq!(unsigned_text(u64::MAX), "18446744073709551615");
    assert_eq!(signed_text(0), "0");
    assert_eq!(signed_text(-60_000), "-60000");
    assert_eq!(signed_text(i64::MIN), "-9223372036854775808");
    assert_eq!(signed_text(i64::MAX), "9223372036854775807");
}

#[test]
fn numbers_are_read_from_decimal() {
    let cases = [
        ("0", Some(0)),
        ("+7", Some(7)),
        ("-7", Some(-7)),
        ("007", Some(7)),
        ("", None),
        ("+", None),
        ("-", None),
        ("1a", None),
        (" 1", None),
        ("9223372036854775807", Some(i64::MAX)),
        ("9223372036854775808", None),
        ("-9223372036854775808", Some(i64::MIN)),
        ("-9223372036854775809", None),
    ];
    for (text, expected) in cases {
        let chars = chars_of(text);
        assert_eq!(parse_decimal(&chars, chars.len()), expected, "{text:?}");
        assert_eq!(text.parse::<i64>().ok(), expected, "{text:?}");
    }
}

#[test]
fn texts_are_ordered_like_strings() {
    let words = ["", "a", "aa", "ab", "b", "Z", "\u{e4}", "\u{1f980}"];
    for a in words {
        for b in words {
            let expected = match a.cmp(b) {
                std::cmp::Ordering::Less => TextOrder::Before,
                std::cmp::Ordering::Equal => TextOrder::Same,
                std::cmp::Ordering::Greater => TextOrder::After,
            };
            assert!(text_order(a, b) == expected, "{a:?} {b:?}");
            assert_eq!(same_text(a, b), a == b);
        }
    }
}

#[test]
fn string_map_keeps_one_value_for_each_key() {
    let mut map: StringMap<u32> = StringMap::new();
    assert_eq!(map.len(), 0);
    assert!(map.get("a").is_none());
    map.insert("a".to_string(), 1);
    map.insert("b".to_string(), 2);
    map.insert("a".to_string(), 3);
    assert_eq!(map.len(), 2);
    assert_eq!(map.get("a"), Some(&3));
    assert!(map.contains_key("b"));
    assert_eq!(map.key(0), "a");
    assert_eq!(*map.value(1), 2);
    assert_eq!(map.remove("a"), Some(3));
    assert_eq!(map.remove("a"), None);
    assert_eq!(map.len(), 1);
    map.clear();
    assert_eq!(map.len(), 0);
}

#[test]
fn instants_are_written_to_the_millisecond() {
    let t = UtcTime::new(1_700_000_000, 123_456_789).unwrap();
    assert_eq!(t.seconds(), 1_700_000_000);
    assert_eq!(t.nanos(), 123_456_789);
    assert_eq!(t.to_rfc3339_millis(), "2023-11-14T22:13:20.123+00:00");
    assert_eq!(
        UtcTime::parse_rfc3339(&t.to_rfc3339_millis()),
        UtcTime::new(1_700_000_000, 123_000_000)
    );
}

#[test]
fn instants_are_read_from_rfc3339() {
    assert_eq!(
        UtcTime::parse_rfc3339("1970-01-01T00:00:01.5Z"),
        UtcTime::new(1, 500_000_000)
    );
    assert_eq!(
        UtcTime::parse_rfc3339("1970-01-01T01:00:00+01:00"),
        UtcTime::new(0, 0)
    );
    assert!(UtcTime::parse_rfc3339("").is_none());
    assert!(UtcTime::parse_rfc3339("yesterday").is_none());
    assert!(UtcTime::parse_rfc3339("1970-13-01T00:00:00Z").is_none());
}

#[test]
fn instants_have_the_range_of_chrono() {
    let min = DateTime::<Utc>::MIN_UTC.timestamp();
    let max = DateTime::<Utc>::MAX_UTC.timestamp();
    assert_eq!(MIN_SECONDS, min);
    assert_eq!(MAX_SECONDS, max);
    for seconds in [min - 1, min, -1, 0, 59, 60, 119, max, max + 1] {
        for nanos in [0, 999_999_999, 1_000_000_000, 1_999_999_999, 2_000_000_000] {
            let instant = DateTime::<Utc>::from_timestamp(seconds, 0)
                .and_then(|t| t.naive_utc().with_nanosecond(nanos));
            assert_eq!(
                UtcTime::new(seconds, nanos).is_some(),
                instant.is_some(),
                "{seconds} {nanos}"
            );
            if let Some(instant) = instant {
                let text = instant.and_utc().to_rfc3339_opts(SecondsFormat::Millis, false);
                let t = UtcTime::new(seconds, nanos).unwrap();
                assert_eq!(t.to_rfc3339_millis(), text);
            }
        }
    }
}

#[test]
fn only_years_of_four_digits_are_read_back() {
    for (seconds, back) in [
        (FIRST_FOUR_DIGIT_SECOND, true),
        (FIRST_FOUR_DIGIT_SECOND - 1, false),
        (LAST_FOUR_DIGIT_SECOND, true),
        (LAST_FOUR_DIGIT_SECOND + 1, false),
        (MIN_SECONDS, false),
        (MAX_SECONDS, false),
    ] {
        let t = UtcTime::new(seconds, 5_999_999).unwrap();
        let read = UtcTime::parse_rfc3339(&t.to_rfc3339_millis());
        if back {
            assert_eq!(read, UtcTime::new(seconds, 5_000_000));
        } else {
            assert!(read.is_none());
        }
    }
}

#[test]
fn leap_seconds_are_read_back() {
    let t = UtcTime::new(1_483_228_799, 1_500_000_000).unwrap();
    assert_eq!(t.to_rfc3339_millis(), "2016-12-31T23:59:60.500+00:00");
    assert_eq!(UtcTime::parse_rfc3339(&t.to_rfc3339_millis()), Some(t));
}

#[test]
fn numbers_are_read_as_they_were_written() {
    for n in [0, 1, -1, 42, -60_000, i64::MIN, i64::MAX] {
        let chars = chars_of(&signed_text(n));
        assert_eq!(parse_decimal(&chars, chars.len()), Some(n));
    }
}

#[test]
fn instants_that_run_over_are_read_as_the_next_second() {
    let last = LAST_FOUR_DIGIT_SECOND;
    for (seconds, back) in [(0, 1), (57, 58), (58, 59), (last - 1, last)] {
        let t = UtcTime::new(seconds, 1_234_567_890).unwrap();
        let read = UtcTime::parse_rfc3339(&t.to_rfc3339_millis());
        assert_eq!(read, UtcTime::new(back, 234_000_000));
    }
    let t = UtcTime::new(119, 1_234_567_890).unwrap();
    let read = UtcTime::parse_rfc3339(&t.to_rfc3339_millis());
    assert_eq!(read, UtcTime::new(119, 1_234_000_000));
    let t = UtcTime::new(FIRST_FOUR_DIGIT_SECOND - 2, 1_500_000_000).unwrap();
    assert!(UtcTime::parse_rfc3339(&t.to_rfc3339_millis()).is_none());
}
