use celery_brokers::broker::redis::acks::AckLog;
use celery_brokers::broker::redis::batch::{RedisStreamsBatchReader, StreamReadOptions};
use celery_brokers::broker::redis::command::StreamKeysToRedisArgs;
use celery_brokers::broker::redis::reader::{
    ReadOutcome, ReaderAction, ReaderEvent, ReaderTask,
};
use celery_brokers::broker::redis::stream::{
    trim_id_at, trim_id_now, StreamBatch, StreamEntry, StreamItem, StreamObserver, StreamValue,
};
use celery_brokers::error::BrokerError;
use celery_brokers::string_map::StringMap;

fn texts(words: &[&str]) -> Vec<String> {
    words.iter().map(|w| w.to_string()).collect()
}

fn entry(id: &str, field: &str, value: StreamValue) -> StreamEntry {
    let mut fields = StringMap::new();
    fields.insert(field.to_string(), value);
    StreamEntry { id: id.to_string(), fields }
}

fn json(id: &str, text: &str) -> StreamEntry {
    entry(id, "json", StreamValue::BulkString(text.as_bytes().to_vec()))
}

fn batch(key: &str, entries: Vec<StreamEntry>) -> StreamBatch {
    StreamBatch { key: key.to_string(), entries }
}

fn observer(key: &str, last_id: &str, callback: u8) -> StreamObserver<u8> {
    StreamObserver {
        key: key.to_string(),
        last_id: last_id.to_string(),
        callback,
    }
}

#[test]
fn stream_keys_become_arguments() {
    let keys = texts(&["a", "", "\u{e4}"]);
    let args = StreamKeysToRedisArgs(&keys);
    assert_eq!(args.iter(), vec!["a", "", "\u{e4}"]);
    assert_eq!(args.to_redis_args(), vec![vec![97], vec![], vec![0xc3, 0xa4]]);
    assert!(StreamKeysToRedisArgs(&[]).iter().is_empty());
}

#[test]
fn acknowledged_entries_come_by_stream() {
    let mut log = AckLog::new();
    assert_eq!(log.pop_first(), None);
    log.push("b".to_string(), "1".to_string());
    log.push("a".to_string(), "2".to_string());
    log.push("b".to_string(), "3".to_string());
    assert_eq!(log.pop_first(), Some(("a".to_string(), texts(&["2"]))));
    assert_eq!(log.pop_first(), Some(("b".to_string(), texts(&["1", "3"]))));
    assert_eq!(log.pop_first(), None);
}

#[test]
fn observers_get_the_items_of_entries() {
    let watcher = observer("s", "0-0", 1);
    let item = watcher.on_next(&json("5-1", "{}")).unwrap();
    assert_eq!(item.key, "s");
    assert_eq!(item.id, "5-1");
    assert_eq!(item.payload(), "{}");
    assert_eq!(item.describe(), "queue: s, id: 5-1");
    assert!(watcher.on_next(&entry("5-2", "init", StreamValue::Int(0))).is_none());
}

#[test]
fn values_are_read_as_texts() {
    let watcher = observer("s", "0-0", 1);
    let read = |value| watcher.on_next(&entry("1-0", "json", value)).unwrap();
    assert_eq!(read(StreamValue::SimpleString("x".into())).payload(), "x");
    assert_eq!(read(StreamValue::VerbatimString("v".into())).payload(), "v");
    assert_eq!(read(StreamValue::Int(-12)).payload(), "-12");
    assert_eq!(read(StreamValue::Okay).payload(), "OK");
    assert_eq!(read(StreamValue::BulkString(vec![0xc3, 0xa4])).payload(), "\u{e4}");
    let broken = read(StreamValue::BulkString(vec![0xff]));
    assert!(broken.json.is_err());
    assert_eq!(broken.payload(), "");
    let nil = read(StreamValue::Other(redis::Value::Nil)).json.unwrap_err();
    let flag = read(StreamValue::Other(redis::Value::Boolean(true))).json.unwrap_err();
    assert_ne!(nil.to_string(), flag.to_string());
    assert!(flag.to_string().contains("true"));
    assert_eq!(read(StreamValue::Other(redis::Value::Double(1.5))).payload(), "1.5");
}

#[test]
fn observers_are_told_of_errors() {
    let told = observer("s", "0-0", 1).on_error(BrokerError::NotConnected);
    assert!(matches!(told, Err(BrokerError::NotConnected)));
}

#[test]
fn streams_are_trimmed_a_minute_before_the_earliest_entry() {
    assert_eq!(trim_id_at(&texts(&["100000-0", "90000-5", "95000-1"]), 7), "30000");
    assert_eq!(trim_id_at(&texts(&["50000-0"]), 7), "-10000");
    assert_eq!(trim_id_at(&texts(&["90000"]), 7), "30000");
    assert_eq!(trim_id_at(&texts(&["x-1", "90000-0", "-"]), 7), "30000");
    assert_eq!(trim_id_at(&texts(&["x-1"]), 100_000), "40000");
    assert_eq!(trim_id_at(&[].to_vec(), 100_000), "40000");
    assert_eq!(trim_id_at(&[].to_vec(), i64::MIN), "-9223372036854775808");
    assert_eq!(trim_id_now(&texts(&["100000-0"])), "40000");
    let now: i64 = trim_id_now(&Vec::new()).parse().unwrap();
    assert!(now > 1_600_000_000_000);
}

#[test]
fn readers_are_made_for_their_kind() {
    let broadcast = RedisStreamsBatchReader::broadcast(3, 1500);
    assert_eq!(broadcast.size, 3);
    assert_eq!(
        broadcast.options,
        StreamReadOptions { count: Some(1), block: Some(1500), group: None }
    );
    assert!(broadcast.options.read_only());
    let cooperative = RedisStreamsBatchReader::cooperative(2, 500, "group", "me");
    assert_eq!(
        cooperative.options,
        StreamReadOptions {
            count: Some(1),
            block: Some(500),
            group: Some(("group".into(), "me".into())),
        }
    );
    assert!(!cooperative.options.read_only());
}

#[test]
fn subscriptions_start_where_they_are_told() {
    let reader = RedisStreamsBatchReader::broadcast(1, 0);
    let watcher = reader.subscribe("s".to_string(), None, 3u8);
    assert_eq!(watcher.key, "s");
    assert_eq!(watcher.last_id, "0-0");
    assert_eq!(watcher.callback, 3);
    assert_eq!(reader.subscribe("s".to_string(), "7-0".to_string(), ()).last_id, "7-0");
    let last_id = Some("8-0".to_string());
    assert_eq!(reader.subscribe("s".to_string(), last_id, ()).last_id, "8-0");
}

#[test]
fn acknowledgements_wait_for_the_reader() {
    let mut reader = RedisStreamsBatchReader::broadcast(1, 0);
    reader.ack("s".to_string(), "1-0".to_string());
    reader.ack("s".to_string(), "2-0".to_string());
    assert_eq!(
        reader.take_processed(),
        Some(("s".to_string(), texts(&["1-0", "2-0"])))
    );
    assert_eq!(reader.take_processed(), None);
}

type Step = (ReaderTask<u8>, ReaderAction<u8, &'static str>);

fn next(task: ReaderTask<u8>, event: ReaderEvent<u8, &'static str>) -> Step {
    task.step(event)
}

fn begin(read_only: bool, observers: Vec<StreamObserver<u8>>, limit: usize) -> Step {
    let mut state = ReaderTask::new(read_only).step(ReaderEvent::Begin { limit });
    assert!(matches!(state.1, ReaderAction::Receive));
    for watcher in observers {
        state = next(state.0, ReaderEvent::Arrived(Some(watcher)));
    }
    state
}

#[test]
fn a_reader_without_streams_stops() {
    let (_, action) = ReaderTask::<u8>::new(true).step::<&str>(ReaderEvent::Begin { limit: 0 });
    assert!(matches!(action, ReaderAction::Stop));
}

#[test]
fn a_reader_stops_when_no_observer_can_come() {
    let state = begin(true, vec![], 3);
    let (task, action) = next(state.0, ReaderEvent::Arrived(None));
    assert!(matches!(action, ReaderAction::Stop));
    assert!(task.callback("a").is_none());
}

#[test]
fn a_round_reads_and_forwards() {
    let state = begin(true, vec![observer("a", "$", 1), observer("b", "4-0", 2)], 3);
    assert!(matches!(state.1, ReaderAction::Poll));
    let state = next(state.0, ReaderEvent::Arrived(None));
    assert!(matches!(state.1, ReaderAction::TakeProcessed));
    let state = next(state.0, ReaderEvent::Processed(None));
    match &state.1 {
        ReaderAction::Read { keys, ids } => {
            assert_eq!(*keys, texts(&["a", "b"]));
            assert_eq!(*ids, texts(&["$", "4-0"]));
        }
        _ => panic!("nothing is read"),
    }
    let read = vec![
        batch("z", vec![json("9-0", "?")]),
        batch(
            "b",
            vec![
                entry("5-0", "init", StreamValue::Int(0)),
                json("6-0", "x"),
                json("7-0", "y"),
            ],
        ),
        batch("a", vec![json("8-0", "w")]),
    ];
    let mut state = next(state.0, ReaderEvent::Streams(ReadOutcome::Read(Some(read))));
    let mut forwarded = Vec::new();
    let mut lined_up = Vec::new();
    loop {
        state = match state.1 {
            ReaderAction::Forward { key, item } => {
                let to = *state.0.callback(&key).unwrap();
                forwarded.push((to, item.key.clone(), item.id.clone(), item.payload().to_string()));
                next(state.0, ReaderEvent::Forwarded(true))
            }
            ReaderAction::Probe(watcher) => {
                let closed = watcher.callback == 1;
                next(state.0, ReaderEvent::Probed { observer: watcher, closed })
            }
            ReaderAction::Reschedule(watcher) => {
                lined_up.push((watcher.callback, watcher.last_id.clone()));
                next(state.0, ReaderEvent::Rescheduled(true))
            }
            ReaderAction::Begin => break,
            _ => panic!("something else is done"),
        };
    }
    assert_eq!(
        forwarded,
        vec![
            (2, "b".to_string(), "6-0".to_string(), "x".to_string()),
            (2, "b".to_string(), "7-0".to_string(), "y".to_string()),
            (1, "a".to_string(), "8-0".to_string(), "w".to_string()),
        ]
    );
    assert_eq!(lined_up, vec![(2, "7-0".to_string())]);
}

#[test]
fn a_reader_pulls_as_many_observers_as_it_may() {
    let state = begin(true, vec![observer("a", "$", 1), observer("b", "$", 2)], 2);
    assert!(matches!(state.1, ReaderAction::TakeProcessed));
    let state = begin(true, vec![observer("a", "$", 1), observer("a", "3-0", 2)], 2);
    assert_eq!(state.0.callback("a"), Some(&2));
    assert_eq!(state.0.callback("b"), None);
}

#[test]
fn what_was_processed_is_trimmed_outside_a_group() {
    let state = begin(true, vec![observer("a", "$", 1)], 1);
    let processed = Some(("a".to_string(), texts(&["90000-0"])));
    let state = next(state.0, ReaderEvent::Processed(processed));
    match &state.1 {
        ReaderAction::Trim { key, min_id } => {
            assert_eq!(key, "a");
            assert_eq!(min_id, "30000");
        }
        _ => panic!("nothing is trimmed"),
    }
    let state = next(state.0, ReaderEvent::Done(Ok(())));
    assert!(matches!(state.1, ReaderAction::TakeProcessed));
}

#[test]
fn what_was_processed_is_acknowledged_in_a_group() {
    let state = begin(false, vec![observer("a", "90000-0", 1)], 1);
    let processed = Some(("a".to_string(), texts(&["90000-0"])));
    let state = next(state.0, ReaderEvent::Processed(processed));
    match &state.1 {
        ReaderAction::Acknowledge { key, group, ids } => {
            assert_eq!(key, "a");
            assert_eq!(group, "_celery");
            assert_eq!(*ids, texts(&["90000-0"]));
        }
        _ => panic!("nothing is acknowledged"),
    }
    let state = next(state.0, ReaderEvent::Done(Ok(())));
    match &state.1 {
        ReaderAction::Delete { key, ids } => {
            assert_eq!(key, "a");
            assert_eq!(*ids, texts(&["90000-0"]));
        }
        _ => panic!("nothing is deleted"),
    }
    let state = next(state.0, ReaderEvent::Done(Ok(())));
    let state = next(state.0, ReaderEvent::Processed(None));
    let state = next(state.0, ReaderEvent::Streams(ReadOutcome::Read(None)));
    match state.1 {
        ReaderAction::Probe(watcher) => assert_eq!(watcher.last_id, ">"),
        _ => panic!("no observer is lined up"),
    }
}

#[test]
fn a_timeout_is_no_failure() {
    let state = begin(true, vec![observer("a", "$", 1)], 1);
    let state = next(state.0, ReaderEvent::Processed(None));
    let outcome = ReadOutcome::Failed { error: "late", timeout: true };
    let state = next(state.0, ReaderEvent::Streams(outcome));
    assert!(matches!(state.1, ReaderAction::Probe(_)));
}

#[test]
fn a_failure_is_told_to_all_observers() {
    let state = begin(true, vec![observer("a", "$", 1), observer("b", "$", 2)], 2);
    let state = next(state.0, ReaderEvent::Processed(None));
    let outcome = ReadOutcome::Failed { error: "lost", timeout: false };
    let state = next(state.0, ReaderEvent::Streams(outcome));
    match state.1 {
        ReaderAction::Fail { error, observers } => {
            assert_eq!(error, "lost");
            assert_eq!(observers.len(), 2);
        }
        _ => panic!("no failure"),
    }
    let state = begin(false, vec![observer("a", "$", 1)], 1);
    let processed = Some(("a".to_string(), texts(&["1-0"])));
    let state = next(state.0, ReaderEvent::Processed(processed));
    let state = next(state.0, ReaderEvent::Done(Err("lost")));
    assert!(matches!(state.1, ReaderAction::Fail { error: "lost", .. }));
}

#[test]
fn an_observer_that_is_gone_gets_nothing_more() {
    let state = begin(true, vec![observer("a", "$", 1)], 1);
    let state = next(state.0, ReaderEvent::Processed(None));
    let read = vec![batch("a", vec![json("1-0", "x"), json("2-0", "y")])];
    let state = next(state.0, ReaderEvent::Streams(ReadOutcome::Read(Some(read))));
    assert!(matches!(state.1, ReaderAction::Forward { .. }));
    let state = next(state.0, ReaderEvent::Forwarded(false));
    assert!(matches!(state.1, ReaderAction::Begin));
    assert!(state.0.callback("a").is_none());
}

#[test]
fn lining_up_ends_where_it_fails() {
    let state = begin(true, vec![observer("a", "$", 1), observer("b", "$", 2)], 2);
    let state = next(state.0, ReaderEvent::Processed(None));
    let state = next(state.0, ReaderEvent::Streams(ReadOutcome::Read(None)));
    let watcher = match state.1 {
        ReaderAction::Probe(watcher) => watcher,
        _ => panic!("no observer is lined up"),
    };
    let state = next(state.0, ReaderEvent::Probed { observer: watcher, closed: false });
    assert!(matches!(state.1, ReaderAction::Reschedule(_)));
    let state = next(state.0, ReaderEvent::Rescheduled(false));
    assert!(matches!(state.1, ReaderAction::Begin));
    assert!(state.0.callback("b").is_none());
}

#[test]
fn items_without_a_text_have_no_payload() {
    let watcher = observer("s", "0-0", 1);
    let item: StreamItem = watcher
        .on_next(&entry("1-0", "json", StreamValue::Other(redis::Value::Nil)))
        .unwrap();
    assert_eq!(item.payload(), "");
}
