use lakesink::config::{parse_batch_size, ConfigError};
use lakesink::error::{LakeSinkError, RecordStreamError, DataLakeError};
use lakesink::pool::first_failure;
use lakesink::record_stream::{client_config, client_settings, ClientRole, KafkaRecordStream};
use lakesink::tracker::OffsetTracker;

fn offset_of(t: &OffsetTracker, topic: &str, partition: i32) -> Option<i64> {
    t.entries().iter().find(|e| e.topic == topic && e.partition == partition).map(|e| e.next_offset)
}

#[test]
fn tracker_records_next_offset() {
    let mut t = OffsetTracker::new();
    assert!(t.record("enc", 0, 5).is_ok());
    assert_eq!(offset_of(&t, "enc", 0), Some(6));
    assert!(t.record("enc", 1, 2).is_ok());
    assert!(t.record("enc", 0, 9).is_ok());
    assert_eq!(offset_of(&t, "enc", 0), Some(10));
    assert_eq!(offset_of(&t, "enc", 1), Some(3));
    assert_eq!(t.entries().len(), 2);
}

#[test]
fn tracker_never_goes_back() {
    let mut t = OffsetTracker::new();
    assert!(t.record("enc", 0, 9).is_ok());
    assert!(t.record("enc", 0, 3).is_ok());
    assert_eq!(offset_of(&t, "enc", 0), Some(10));
    assert!(t.record("enc", 0, 9).is_ok());
    assert_eq!(offset_of(&t, "enc", 0), Some(10));
}

#[test]
fn tracker_offsets_strictly_increase_per_partition() {
    let mut t = OffsetTracker::new();
    let mut seen = Vec::new();
    for off in [0i64, 1, 2, 7, 8, 20] {
        t.record("enc", 3, off).unwrap();
        seen.push(offset_of(&t, "enc", 3).unwrap());
    }
    assert!(seen.windows(2).all(|w| w[0] < w[1]));
    assert_eq!(seen, vec![1, 2, 3, 8, 9, 21]);
}

#[test]
fn tracker_keys_by_topic_and_partition() {
    let mut t = OffsetTracker::new();
    t.record("a", 0, 1).unwrap();
    t.record("b", 0, 4).unwrap();
    assert_eq!(offset_of(&t, "a", 0), Some(2));
    assert_eq!(offset_of(&t, "b", 0), Some(5));
}

#[test]
fn tracker_refuses_bad_offsets() {
    let mut t = OffsetTracker::new();
    assert!(matches!(t.record("a", 0, -1), Err(RecordStreamError::OffsetStore(_))));
    assert!(matches!(t.record("a", 0, i64::MAX), Err(RecordStreamError::OffsetStore(_))));
    assert!(t.entries().is_empty());
}

#[test]
fn accept_message_tracks_and_returns_text() {
    let mut s = KafkaRecordStream::new(false, true, "out".to_string());
    assert_eq!(s.topic(), "out");
    assert!(s.can_consume() && !s.can_produce());
    assert_eq!(s.accept_message("out", 2, 41, Some(Ok("hello".to_string()))), Ok("hello".to_string()));
    assert_eq!(offset_of(s.offsets(), "out", 2), Some(42));
    assert_eq!(s.accept_message("out", 2, 42, None), Ok(String::new()));
    assert_eq!(offset_of(s.offsets(), "out", 2), Some(43));
}

#[test]
fn accept_message_refuses_non_text_before_tracking() {
    let mut s = KafkaRecordStream::new(false, true, "out".to_string());
    assert_eq!(
        s.accept_message("out", 0, 7, Some(Err("invalid utf-8".to_string()))),
        Err(RecordStreamError::Deserialize("invalid utf-8".to_string()))
    );
    assert!(s.offsets().entries().is_empty());
}

#[test]
fn consumer_settings_disable_auto_commit() {
    let r = client_settings("k1:9092", false, ClientRole::Consumer);
    let want: Vec<(String, String)> = vec![
        ("bootstrap.servers".into(), "k1:9092".into()),
        ("group.id".into(), "star-agg".into()),
        ("enable.auto.commit".into(), "false".into()),
        ("session.timeout.ms".into(), "6000".into()),
    ];
    assert_eq!(r, want);
}

#[test]
fn producer_settings_with_plaintext() {
    let r = client_settings("k1:9092,k2:9092", true, ClientRole::Producer);
    let want: Vec<(String, String)> = vec![
        ("bootstrap.servers".into(), "k1:9092,k2:9092".into()),
        ("security.protocol".into(), "plaintext".into()),
        ("message.timeout.ms".into(), "6000".into()),
    ];
    assert_eq!(r, want);
}

#[test]
fn batch_size_parsing() {
    assert_eq!(parse_batch_size(None), Ok(1000));
    assert_eq!(parse_batch_size(Some("250")), Ok(250));
    assert_eq!(parse_batch_size(Some("+7")), Ok(7));
    assert_eq!(parse_batch_size(Some("0")), Err(ConfigError::NotPositive));
    assert_eq!(parse_batch_size(Some("000")), Err(ConfigError::NotPositive));
    assert_eq!(parse_batch_size(Some("")), Err(ConfigError::NotANumber));
    assert_eq!(parse_batch_size(Some("+")), Err(ConfigError::NotANumber));
    assert_eq!(parse_batch_size(Some("12a")), Err(ConfigError::NotANumber));
    assert_eq!(parse_batch_size(Some("-3")), Err(ConfigError::NotANumber));
    assert_eq!(parse_batch_size(Some("18446744073709551615")), Ok(usize::MAX));
    assert_eq!(parse_batch_size(Some("18446744073709551616")), Err(ConfigError::NotANumber));
    assert_eq!(parse_batch_size(Some("99999999999999999999x")), Err(ConfigError::NotANumber));
}

#[test]
fn pool_reports_first_failed_sink() {
    let ok: Vec<Result<(), LakeSinkError>> = vec![Ok(()), Ok(())];
    assert_eq!(first_failure(&ok), None);
    let err = LakeSinkError::Lake(DataLakeError { message: "x".to_string() });
    let mixed = vec![Ok(()), Err(err.clone()), Err(err)];
    assert_eq!(first_failure(&mixed), Some(1));
    assert_eq!(first_failure(&Vec::new()), None);
}

#[test]
fn consumer_config_holds_group_and_manual_commit() {
    let c = client_config("k1:9092", true, ClientRole::Consumer);
    assert_eq!(c.get("bootstrap.servers"), Some("k1:9092"));
    assert_eq!(c.get("security.protocol"), Some("plaintext"));
    assert_eq!(c.get("group.id"), Some("star-agg"));
    assert_eq!(c.get("enable.auto.commit"), Some("false"));
    assert_eq!(c.get("session.timeout.ms"), Some("6000"));
    assert_eq!(c.get("message.timeout.ms"), None);
}

#[test]
fn producer_config_without_plaintext() {
    let c = client_config("k2:9092", false, ClientRole::Producer);
    assert_eq!(c.get("bootstrap.servers"), Some("k2:9092"));
    assert_eq!(c.get("security.protocol"), None);
    assert_eq!(c.get("message.timeout.ms"), Some("6000"));
    assert_eq!(c.get("group.id"), None);
}
