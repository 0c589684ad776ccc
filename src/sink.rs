use vstd::prelude::*;
use crate::error::{DataLakeError, LakeSinkError, RecordStreamError};

verus! {

/// The batch size used when none is configured.
pub const DEFAULT_BATCH_SIZE: usize = 1000;

/// Where a flush cycle stands: the batch is being stored, or the offsets committed.
#[derive(Debug, Clone, Copy, PartialEq, Eq, Structural)]
pub enum FlushStage {
    Storing,
    Committing,
}

/// The phase of a sink.
#[derive(Debug, Clone, Copy, PartialEq, Eq, Structural)]
pub enum SinkPhase {
    /// Consuming records into the batch.
    Running,
    /// Flushing a full batch; consumption resumes afterwards.
    Flushing(FlushStage),
    /// Flushing the last batch after cancellation; the sink ends afterwards.
    Draining(FlushStage),
    /// Ended normally.
    Done,
    /// Ended on an error.
    Failed,
}

/// What happened while the sink waited.
#[derive(Debug, PartialEq, Eq)]
pub enum SinkEvent {
    /// The stream handed over a record, or failed to.
    Record(Result<String, RecordStreamError>),
    /// Cancellation was signalled.
    Cancelled,
    /// The store finished storing the batch.
    Stored(Result<(), DataLakeError>),
    /// The stream finished committing the consumed offsets.
    Committed(Result<(), RecordStreamError>),
}

/// What the driver of a sink does next.
#[derive(Debug, PartialEq, Eq)]
pub enum SinkAction {
    /// Wait for the next record or for cancellation, whichever comes first.
    AwaitRecord,
    /// Store this blob.
    Store(String),
    /// Commit the offsets of all records consumed so far.
    Commit,
    /// Nothing new: go on waiting for what is in flight.
    Wait,
    /// Leave the loop with this result.
    Exit(Result<(), LakeSinkError>),
}

/// A sink action as a value of the model.
pub enum Effect {
    AwaitRecord,
    Store(Seq<char>),
    Commit,
    Wait,
    Exit(Result<(), LakeSinkError>),
}

impl SinkAction {
    pub open spec fn effect(&self) -> Effect {
        match self {
            SinkAction::AwaitRecord => Effect::AwaitRecord,
            SinkAction::Store(b) => Effect::Store(b@),
            SinkAction::Commit => Effect::Commit,
            SinkAction::Wait => Effect::Wait,
            SinkAction::Exit(r) => Effect::Exit(*r),
        }
    }
}

/// The state of a sink as the model sees it.
pub struct SinkModel {
    pub phase: SinkPhase,
    pub batch: Seq<Seq<char>>,
    pub batch_size: nat,
}

/// The records joined into one text, a newline between two of them.
pub open spec fn joined(b: Seq<Seq<char>>) -> Seq<char>
    decreases b.len(),
{
    if b.len() == 0 {
        Seq::empty()
    } else if b.len() == 1 {
        b[0]
    } else {
        joined(b.drop_last()) + seq!['\n'] + b.last()
    }
}

/// The same phase, at another stage of its flush.
pub open spec fn at_stage(p: SinkPhase, st: FlushStage) -> SinkPhase {
    match p {
        SinkPhase::Draining(_) => SinkPhase::Draining(st),
        _ => SinkPhase::Flushing(st),
    }
}

/// One step of a sink: its state after an event, and what it asks for next.
/// An event that the current phase does not wait for changes nothing.
pub open spec fn next(s: SinkModel, e: SinkEvent) -> (SinkModel, Effect) {
    match s.phase {
        SinkPhase::Running => match e {
            SinkEvent::Record(Ok(r)) => {
                let b = s.batch.push(r@);
                if b.len() >= s.batch_size {
                    (SinkModel { phase: SinkPhase::Flushing(FlushStage::Storing), batch: b, ..s }, Effect::Store(joined(b)))
                } else {
                    (SinkModel { batch: b, ..s }, Effect::AwaitRecord)
                }
            },
            SinkEvent::Record(Err(err)) => (
                SinkModel { phase: SinkPhase::Failed, ..s },
                Effect::Exit(Err(LakeSinkError::RecordStream(err))),
            ),
            SinkEvent::Cancelled => if s.batch.len() == 0 {
                (SinkModel { phase: SinkPhase::Done, ..s }, Effect::Exit(Ok(())))
            } else {
                (SinkModel { phase: SinkPhase::Draining(FlushStage::Storing), ..s }, Effect::Store(joined(s.batch)))
            },
            _ => (s, Effect::Wait),
        },
        SinkPhase::Flushing(st) | SinkPhase::Draining(st) => match e {
            SinkEvent::Cancelled => (SinkModel { phase: SinkPhase::Draining(st), ..s }, Effect::Wait),
            SinkEvent::Stored(res) => if st == FlushStage::Storing {
                match res {
                    Ok(()) => (SinkModel { phase: at_stage(s.phase, FlushStage::Committing), ..s }, Effect::Commit),
                    Err(err) => (
                        SinkModel { phase: SinkPhase::Failed, ..s },
                        Effect::Exit(Err(LakeSinkError::Lake(err))),
                    ),
                }
            } else {
                (s, Effect::Wait)
            },
            SinkEvent::Committed(res) => if st == FlushStage::Committing {
                match res {
                    Ok(()) => if s.phase is Draining {
                        (SinkModel { phase: SinkPhase::Done, batch: Seq::empty(), ..s }, Effect::Exit(Ok(())))
                    } else {
                        (SinkModel { phase: SinkPhase::Running, batch: Seq::empty(), ..s }, Effect::AwaitRecord)
                    },
                    Err(err) => (
                        SinkModel { phase: SinkPhase::Failed, ..s },
                        Effect::Exit(Err(LakeSinkError::RecordStream(err))),
                    ),
                }
            } else {
                (s, Effect::Wait)
            },
            _ => (s, Effect::Wait),
        },
        _ => (s, Effect::Wait),
    }
}

/// The batching sink: it buffers consumed records and flushes them, store first
/// and commit second, when the batch is full or cancellation comes.
pub struct LakeSink {
    batch: Vec<String>,
    batch_size: usize,
    phase: SinkPhase,
}

impl LakeSink {
    pub closed spec fn model(&self) -> SinkModel {
        SinkModel {
            phase: self.phase,
            batch: self.batch@.map_values(|r: String| r@),
            batch_size: self.batch_size as nat,
        }
    }

    /// The batch size is positive; a running sink holds fewer records than it,
    /// one that flushes a full batch exactly as many, a draining one at least one
    /// and no more than it, and a sink that is done holds none.
    pub open spec fn wf(&self) -> bool {
        model_wf(self.model())
    }

    /// A sink that has not consumed anything yet.
    pub fn new(batch_size: usize) -> (r: LakeSink)
        requires
            batch_size > 0,
        ensures
            r.wf(),
            r.model() == (SinkModel { phase: SinkPhase::Running, batch: Seq::empty(), batch_size: batch_size as nat }),
    {
        let r = LakeSink { batch: Vec::new(), batch_size, phase: SinkPhase::Running };
        assert(r.model().batch =~= Seq::empty());
        r
    }

    /// The current phase.
    pub fn phase(&self) -> (r: SinkPhase)
        ensures
            r == self.model().phase,
    {
        self.phase
    }

    /// The number of buffered records.
    pub fn buffered(&self) -> (r: usize)
        ensures
            r == self.model().batch.len(),
    {
        self.batch.len()
    }

    /// The configured batch size.
    pub fn batch_size(&self) -> (r: usize)
        ensures
            r == self.model().batch_size,
    {
        self.batch_size
    }
}

/// The records joined into one text, a newline between two of them.
pub fn join_batch(batch: &Vec<String>) -> (r: String)
    ensures
        r@ == joined(batch@.map_values(|s: String| s@)),
{
    let ghost b = batch@.map_values(|s: String| s@);
    let mut out = String::new();
    let mut i: usize = 0;
    while i < batch.len()
        invariant
            0 <= i <= batch@.len(),
            b == batch@.map_values(|s: String| s@),
            out@ == joined(b.take(i as int)),
        decreases batch@.len() - i,
    {
        assert(b.take(i + 1).drop_last() =~= b.take(i as int));
        if i > 0 {
            proof { reveal_strlit("\n"); }
            out.append("\n");
        } else {
            assert(b.take(0) =~= Seq::<Seq<char>>::empty());
        }
        out.append(batch[i].as_str());
        i = i + 1;
    }
    assert(b.take(batch@.len() as int) =~= b);
    out
}

impl LakeSink {
    /// Takes one event and says what to do next, as `next` describes.
    pub fn step(&mut self, e: SinkEvent) -> (r: SinkAction)
        requires
            old(self).wf(),
        ensures
            final(self).wf(),
            (final(self).model(), r.effect()) == next(old(self).model(), e),
    {
        match self.phase {
            SinkPhase::Running => match e {
                SinkEvent::Record(Ok(rec)) => {
                    self.batch.push(rec);
                    assert(self.model().batch =~= old(self).model().batch.push(rec@));
                    if self.batch.len() >= self.batch_size {
                        self.phase = SinkPhase::Flushing(FlushStage::Storing);
                        SinkAction::Store(join_batch(&self.batch))
                    } else {
                        SinkAction::AwaitRecord
                    }
                },
                SinkEvent::Record(Err(err)) => {
                    self.phase = SinkPhase::Failed;
                    SinkAction::Exit(Err(LakeSinkError::RecordStream(err)))
                },
                SinkEvent::Cancelled => {
                    if self.batch.len() == 0 {
                        self.phase = SinkPhase::Done;
                        SinkAction::Exit(Ok(()))
                    } else {
                        self.phase = SinkPhase::Draining(FlushStage::Storing);
                        SinkAction::Store(join_batch(&self.batch))
                    }
                },
                _ => SinkAction::Wait,
            },
            SinkPhase::Flushing(st) | SinkPhase::Draining(st) => {
                let draining = match self.phase {
                    SinkPhase::Draining(_) => true,
                    _ => false,
                };
                match e {
                    SinkEvent::Cancelled => {
                        self.phase = SinkPhase::Draining(st);
                        SinkAction::Wait
                    },
                    SinkEvent::Stored(res) => {
                        if st == FlushStage::Storing {
                            match res {
                                Ok(()) => {
                                    self.phase = if draining {
                                        SinkPhase::Draining(FlushStage::Committing)
                                    } else {
                                        SinkPhase::Flushing(FlushStage::Committing)
                                    };
                                    SinkAction::Commit
                                },
                                Err(err) => {
                                    self.phase = SinkPhase::Failed;
                                    SinkAction::Exit(Err(LakeSinkError::Lake(err)))
                                },
                            }
                        } else {
                            SinkAction::Wait
                        }
                    },
                    SinkEvent::Committed(res) => {
                        if st == FlushStage::Committing {
                            match res {
                                Ok(()) => {
                                    self.batch.clear();
                                    assert(self.model().batch =~= Seq::<Seq<char>>::empty());
                                    if draining {
                                        self.phase = SinkPhase::Done;
                                        SinkAction::Exit(Ok(()))
                                    } else {
                                        self.phase = SinkPhase::Running;
                                        SinkAction::AwaitRecord
                                    }
                                },
                                Err(err) => {
                                    self.phase = SinkPhase::Failed;
                                    SinkAction::Exit(Err(LakeSinkError::RecordStream(err)))
                                },
                            }
                        } else {
                            SinkAction::Wait
                        }
                    },
                    _ => SinkAction::Wait,
                }
            },
            _ => SinkAction::Wait,
        }
    }
}

pub open spec fn model_wf(s: SinkModel) -> bool {
    &&& s.batch_size > 0
    &&& match s.phase {
        SinkPhase::Running => s.batch.len() < s.batch_size,
        SinkPhase::Flushing(_) => s.batch.len() == s.batch_size,
        SinkPhase::Draining(_) => 0 < s.batch.len() <= s.batch_size,
        SinkPhase::Done => s.batch.len() == 0,
        SinkPhase::Failed => s.batch.len() <= s.batch_size,
    }
}

} // verus!
