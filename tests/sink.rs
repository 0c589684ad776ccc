use lakesink::error::{DataLakeError, LakeSinkError, RecordStreamError};
use lakesink::sink::{join_batch, LakeSink, SinkAction, SinkEvent, SinkPhase, FlushStage, DEFAULT_BATCH_SIZE};

fn rec(s: &str) -> SinkEvent {
    SinkEvent::Record(Ok(s.to_string()))
}

fn store(s: &str) -> SinkAction {
    SinkAction::Store(s.to_string())
}

#[test]
fn full_batch_then_cancel_flushes_remainder() {
    let mut sink = LakeSink::new(3);
    assert_eq!(sink.step(rec("a")), SinkAction::AwaitRecord);
    assert_eq!(sink.step(rec("b")), SinkAction::AwaitRecord);
    assert_eq!(sink.step(rec("c")), store("a\nb\nc"));
    assert_eq!(sink.phase(), SinkPhase::Flushing(FlushStage::Storing));
    assert_eq!(sink.step(SinkEvent::Stored(Ok(()))), SinkAction::Commit);
    assert_eq!(sink.step(SinkEvent::Committed(Ok(()))), SinkAction::AwaitRecord);
    assert_eq!(sink.buffered(), 0);
    assert_eq!(sink.step(rec("d")), SinkAction::AwaitRecord);
    assert_eq!(sink.step(SinkEvent::Cancelled), store("d"));
    assert_eq!(sink.step(SinkEvent::Stored(Ok(()))), SinkAction::Commit);
    assert_eq!(sink.step(SinkEvent::Committed(Ok(()))), SinkAction::Exit(Ok(())));
    assert_eq!(sink.phase(), SinkPhase::Done);
    assert_eq!(sink.buffered(), 0);
}

#[test]
fn few_records_then_cancel_flush_once() {
    let mut sink = LakeSink::new(1000);
    let mut stores = 0;
    for r in ["r1", "r2", "r3", "r4", "r5"] {
        match sink.step(rec(r)) {
            SinkAction::Store(_) => stores += 1,
            a => assert_eq!(a, SinkAction::AwaitRecord),
        }
    }
    assert_eq!(stores, 0);
    assert_eq!(sink.step(SinkEvent::Cancelled), store("r1\nr2\nr3\nr4\nr5"));
    assert_eq!(sink.step(SinkEvent::Stored(Ok(()))), SinkAction::Commit);
    assert_eq!(sink.step(SinkEvent::Committed(Ok(()))), SinkAction::Exit(Ok(())));
    assert_eq!(sink.step(SinkEvent::Cancelled), SinkAction::Wait);
    assert_eq!(sink.phase(), SinkPhase::Done);
}

#[test]
fn cancel_with_empty_batch_stores_nothing() {
    let mut sink = LakeSink::new(1000);
    assert_eq!(sink.step(SinkEvent::Cancelled), SinkAction::Exit(Ok(())));
    assert_eq!(sink.phase(), SinkPhase::Done);
}

#[test]
fn store_failure_is_fatal_without_commit() {
    let mut sink = LakeSink::new(2);
    sink.step(rec("x"));
    assert_eq!(sink.step(rec("y")), store("x\ny"));
    let err = DataLakeError { message: "bucket unavailable".to_string() };
    let action = sink.step(SinkEvent::Stored(Err(err.clone())));
    assert_eq!(action, SinkAction::Exit(Err(LakeSinkError::Lake(err))));
    assert_eq!(sink.phase(), SinkPhase::Failed);
    assert_eq!(sink.step(SinkEvent::Committed(Ok(()))), SinkAction::Wait);
    assert_eq!(sink.step(SinkEvent::Cancelled), SinkAction::Wait);
}

#[test]
fn drain_store_failure_is_fatal_without_commit() {
    let mut sink = LakeSink::new(10);
    sink.step(rec("x"));
    assert_eq!(sink.step(SinkEvent::Cancelled), store("x"));
    let err = DataLakeError { message: "timeout".to_string() };
    assert_eq!(sink.step(SinkEvent::Stored(Err(err.clone()))), SinkAction::Exit(Err(LakeSinkError::Lake(err))));
    assert_eq!(sink.phase(), SinkPhase::Failed);
}

#[test]
fn receive_error_is_fatal() {
    let mut sink = LakeSink::new(10);
    let e = RecordStreamError::Receive("broker down".to_string());
    assert_eq!(
        sink.step(SinkEvent::Record(Err(e.clone()))),
        SinkAction::Exit(Err(LakeSinkError::RecordStream(e)))
    );
    assert_eq!(sink.phase(), SinkPhase::Failed);
}

#[test]
fn commit_error_is_fatal() {
    let mut sink = LakeSink::new(1);
    assert_eq!(sink.step(rec("only")), store("only"));
    assert_eq!(sink.step(SinkEvent::Stored(Ok(()))), SinkAction::Commit);
    let e = RecordStreamError::Commit("rejected".to_string());
    assert_eq!(
        sink.step(SinkEvent::Committed(Err(e.clone()))),
        SinkAction::Exit(Err(LakeSinkError::RecordStream(e)))
    );
}

#[test]
fn batch_flushes_exactly_at_size() {
    let mut sink = LakeSink::new(4);
    for r in ["1", "2", "3"] {
        assert_eq!(sink.step(rec(r)), SinkAction::AwaitRecord);
        assert!(sink.buffered() < sink.batch_size());
    }
    assert_eq!(sink.step(rec("4")), store("1\n2\n3\n4"));
    assert_eq!(sink.buffered(), 4);
}

#[test]
fn batch_size_one_flushes_every_record() {
    let mut sink = LakeSink::new(1);
    assert_eq!(sink.step(rec("a")), store("a"));
    assert_eq!(sink.step(SinkEvent::Stored(Ok(()))), SinkAction::Commit);
    assert_eq!(sink.step(SinkEvent::Committed(Ok(()))), SinkAction::AwaitRecord);
    assert_eq!(sink.step(rec("b")), store("b"));
}

#[test]
fn second_cancel_changes_nothing() {
    let mut sink = LakeSink::new(5);
    sink.step(rec("a"));
    assert_eq!(sink.step(SinkEvent::Cancelled), store("a"));
    let phase = sink.phase();
    assert_eq!(sink.step(SinkEvent::Cancelled), SinkAction::Wait);
    assert_eq!(sink.phase(), phase);
    assert_eq!(sink.buffered(), 1);
}

#[test]
fn cancel_during_flush_finishes_flush_then_ends() {
    let mut sink = LakeSink::new(2);
    sink.step(rec("a"));
    assert_eq!(sink.step(rec("b")), store("a\nb"));
    assert_eq!(sink.step(SinkEvent::Cancelled), SinkAction::Wait);
    assert_eq!(sink.phase(), SinkPhase::Draining(FlushStage::Storing));
    assert_eq!(sink.step(SinkEvent::Stored(Ok(()))), SinkAction::Commit);
    assert_eq!(sink.step(SinkEvent::Committed(Ok(()))), SinkAction::Exit(Ok(())));
}

#[test]
fn records_are_ignored_while_flushing() {
    let mut sink = LakeSink::new(1);
    assert_eq!(sink.step(rec("a")), store("a"));
    assert_eq!(sink.step(rec("late")), SinkAction::Wait);
    assert_eq!(sink.buffered(), 1);
}

#[test]
fn join_of_records() {
    let v: Vec<String> = vec![];
    assert_eq!(join_batch(&v), "");
    assert_eq!(join_batch(&vec!["one".to_string()]), "one");
    assert_eq!(join_batch(&vec!["a".to_string(), "".to_string(), "c".to_string()]), "a\n\nc");
}

#[test]
fn default_batch_size() {
    assert_eq!(DEFAULT_BATCH_SIZE, 1000);
}

#[test]
fn error_description() {
    let e = LakeSinkError::Lake(DataLakeError { message: "disk full".to_string() });
    assert_eq!(e.describe(), "Lake sink error: disk full");
    let e = LakeSinkError::RecordStream(RecordStreamError::Commit("no leader".to_string()));
    assert_eq!(e.describe(), "Lake sink error: no leader");
}
