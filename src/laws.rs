use vstd::prelude::*;
use crate::error::LakeSinkError;
use crate::sink::{next, model_wf, joined, Effect, FlushStage, SinkEvent, SinkModel, SinkPhase};
use crate::tracker::{record_spec, PartitionKey};

verus! {

/// The state of a sink after it took the events `es`, one after another, from `s`.
pub open spec fn run(s: SinkModel, es: Seq<SinkEvent>) -> SinkModel
    decreases es.len(),
{
    if es.len() == 0 {
        s
    } else {
        next(run(s, es.drop_last()), es.last()).0
    }
}

/// What the sink asked for in answer to the event `es[i]`.
pub open spec fn effect_at(s: SinkModel, es: Seq<SinkEvent>, i: int) -> Effect {
    next(run(s, es.take(i)), es[i]).1
}

/// The records that the sink took into its batch along `es`, in order.
pub open spec fn consumed(s: SinkModel, es: Seq<SinkEvent>) -> Seq<Seq<char>>
    decreases es.len(),
{
    if es.len() == 0 {
        Seq::empty()
    } else {
        let p = run(s, es.drop_last());
        consumed(s, es.drop_last()) + match es.last() {
            SinkEvent::Record(Ok(r)) => if p.phase is Running { seq![r@] } else { Seq::empty() },
            _ => Seq::empty(),
        }
    }
}

/// Whether the phase is storing a batch.
pub open spec fn is_storing(p: SinkPhase) -> bool {
    p == SinkPhase::Flushing(FlushStage::Storing) || p == SinkPhase::Draining(FlushStage::Storing)
}

/// Whether the phase is committing offsets.
pub open spec fn is_committing(p: SinkPhase) -> bool {
    p == SinkPhase::Flushing(FlushStage::Committing) || p == SinkPhase::Draining(FlushStage::Committing)
}

/// The records of the batches that the store reported stored along `es`, in order.
pub open spec fn stored(s: SinkModel, es: Seq<SinkEvent>) -> Seq<Seq<char>>
    decreases es.len(),
{
    if es.len() == 0 {
        Seq::empty()
    } else {
        let p = run(s, es.drop_last());
        stored(s, es.drop_last()) + match es.last() {
            SinkEvent::Stored(Ok(())) => if is_storing(p.phase) { p.batch } else { Seq::empty() },
            _ => Seq::empty(),
        }
    }
}

/// The records whose offsets the stream reported committed along `es`, in order.
pub open spec fn acked(s: SinkModel, es: Seq<SinkEvent>) -> Seq<Seq<char>>
    decreases es.len(),
{
    if es.len() == 0 {
        Seq::empty()
    } else {
        let p = run(s, es.drop_last());
        acked(s, es.drop_last()) + match es.last() {
            SinkEvent::Committed(Ok(())) => if is_committing(p.phase) { p.batch } else { Seq::empty() },
            _ => Seq::empty(),
        }
    }
}

/// A sink that was just created.
pub open spec fn fresh(s: SinkModel) -> bool {
    s.phase == SinkPhase::Running && s.batch.len() == 0 && s.batch_size > 0
}

/// Every record consumed is either stored or still in the batch; while offsets
/// are being committed, every record consumed is stored.
pub open spec fn accounted(s: SinkModel, es: Seq<SinkEvent>) -> bool {
    let st = run(s, es);
    if is_committing(st.phase) {
        consumed(s, es) == stored(s, es)
    } else if st.phase is Failed {
        true
    } else {
        consumed(s, es) == stored(s, es) + st.batch
    }
}

proof fn lemma_accounted(s: SinkModel, es: Seq<SinkEvent>)
    requires
        fresh(s),
    ensures
        accounted(s, es),
    decreases es.len(),
{
    if es.len() == 0 {
        assert(consumed(s, es) == stored(s, es) + s.batch);
    } else {
        let pre = es.drop_last();
        lemma_accounted(s, pre);
        let p = run(s, pre);
        let e = es.last();
        assert(run(s, es) == next(p, e).0);
        match p.phase {
            SinkPhase::Running => {
                match e {
                    SinkEvent::Record(Ok(r)) => {
                        assert(consumed(s, es) == consumed(s, pre) + seq![r@]);
                        assert(stored(s, es) == stored(s, pre) + Seq::<Seq<char>>::empty());
                        assert(stored(s, es) + p.batch.push(r@) =~= consumed(s, es));
                    },
                    _ => {
                        assert(consumed(s, es) =~= consumed(s, pre));
                        assert(stored(s, es) =~= stored(s, pre));
                    },
                }
            },
            _ => {
                assert(consumed(s, es) =~= consumed(s, pre));
                match e {
                    SinkEvent::Stored(Ok(())) => {
                        if is_storing(p.phase) {
                            assert(stored(s, es) == stored(s, pre) + p.batch);
                        } else {
                            assert(stored(s, es) =~= stored(s, pre));
                        }
                    },
                    SinkEvent::Committed(Ok(())) => {
                        assert(stored(s, es) =~= stored(s, pre));
                        assert(stored(s, es) + Seq::<Seq<char>>::empty() =~= stored(s, es));
                    },
                    _ => {
                        assert(stored(s, es) =~= stored(s, pre));
                    },
                }
            },
        }
    }
}

/// Store before commit: from a fresh sink, along any sequence of events, the sink
/// asks for a commit only when every record it has consumed so far is in a batch
/// that the store reported stored.
pub proof fn lemma_store_before_commit(s: SinkModel, es: Seq<SinkEvent>, i: int)
    requires
        fresh(s),
        0 <= i < es.len(),
        effect_at(s, es, i) is Commit,
    ensures
        consumed(s, es.take(i + 1)) == stored(s, es.take(i + 1)),
{
    let pre = es.take(i);
    let cur = es.take(i + 1);
    assert(cur.drop_last() =~= pre);
    assert(cur.last() == es[i]);
    lemma_accounted(s, pre);
    let p = run(s, pre);
    assert(is_storing(p.phase));
    assert(consumed(s, cur) =~= consumed(s, pre));
    assert(stored(s, cur) == stored(s, pre) + p.batch);
}

/// Where a sink stands once cancellation has come to it while running with the
/// batch `b`.
pub open spec fn drained(s: SinkModel, es: Seq<SinkEvent>, b: Seq<Seq<char>>) -> bool {
    let f = run(s, es);
    &&& consumed(s, es) == Seq::<Seq<char>>::empty()
    &&& match f.phase {
        SinkPhase::Draining(FlushStage::Storing) => stored(s, es) == Seq::<Seq<char>>::empty()
            && acked(s, es) == Seq::<Seq<char>>::empty() && f.batch == b,
        SinkPhase::Draining(FlushStage::Committing) => stored(s, es) == b
            && acked(s, es) == Seq::<Seq<char>>::empty() && f.batch == b,
        SinkPhase::Done => stored(s, es) == b && acked(s, es) == b,
        SinkPhase::Failed => acked(s, es) == Seq::<Seq<char>>::empty(),
        _ => false,
    }
}

proof fn lemma_drained(s: SinkModel, es: Seq<SinkEvent>)
    requires
        model_wf(s),
        s.phase is Running,
        es.len() >= 1,
        es[0] is Cancelled,
    ensures
        drained(s, es, s.batch),
    decreases es.len(),
{
    let pre = es.drop_last();
    let e = es.last();
    if es.len() == 1 {
        assert(pre =~= Seq::<SinkEvent>::empty());
        assert(e == es[0]);
        assert(e is Cancelled);
        assert(run(s, pre) == s);
        assert(run(s, es) == next(s, e).0);
        assert(consumed(s, pre) == Seq::<Seq<char>>::empty());
        assert(stored(s, pre) == Seq::<Seq<char>>::empty());
        assert(acked(s, pre) == Seq::<Seq<char>>::empty());
        assert(consumed(s, es) =~= Seq::<Seq<char>>::empty());
        assert(stored(s, es) =~= Seq::<Seq<char>>::empty());
        assert(acked(s, es) =~= Seq::<Seq<char>>::empty());
        if s.batch.len() == 0 {
            assert(s.batch =~= Seq::<Seq<char>>::empty());
        }
    } else {
        assert(pre[0] == es[0]);
        lemma_drained(s, pre);
        let p = run(s, pre);
        assert(run(s, es) == next(p, e).0);
        assert(consumed(s, es) =~= consumed(s, pre));
        match e {
            SinkEvent::Stored(Ok(())) => {
                assert(acked(s, es) =~= acked(s, pre));
                if is_storing(p.phase) {
                    assert(stored(s, es) =~= stored(s, pre) + p.batch);
                } else {
                    assert(stored(s, es) =~= stored(s, pre));
                }
            },
            SinkEvent::Committed(Ok(())) => {
                assert(stored(s, es) =~= stored(s, pre));
                if is_committing(p.phase) {
                    assert(acked(s, es) =~= acked(s, pre) + p.batch);
                } else {
                    assert(acked(s, es) =~= acked(s, pre));
                }
            },
            _ => {
                assert(stored(s, es) =~= stored(s, pre));
                assert(acked(s, es) =~= acked(s, pre));
            },
        }
    }
}

/// No loss on graceful shutdown: once cancellation comes to a running sink that
/// holds the batch `b`, the sink reads no further record, and along any sequence
/// of events it either ends having stored and committed exactly `b`, or fails
/// with no commit of `b` reported.
pub proof fn lemma_drain_on_cancel(s: SinkModel, es: Seq<SinkEvent>)
    requires
        model_wf(s),
        s.phase is Running,
        es.len() >= 1,
        es[0] is Cancelled,
    ensures
        forall|i: int| 0 <= i < es.len() ==> !(#[trigger] effect_at(s, es, i) is AwaitRecord),
        consumed(s, es) == Seq::<Seq<char>>::empty(),
        run(s, es).phase is Done ==> stored(s, es) == s.batch && acked(s, es) == s.batch,
        run(s, es).phase is Failed ==> acked(s, es) == Seq::<Seq<char>>::empty(),
        run(s, es).phase is Done || run(s, es).phase is Failed || run(s, es).phase is Draining,
{
    lemma_drained(s, es);
    assert forall|i: int| 0 <= i < es.len() implies !(#[trigger] effect_at(s, es, i) is AwaitRecord) by {
        if i > 0 {
            let pre = es.take(i);
            assert(pre[0] == es[0]);
            lemma_drained(s, pre);
        } else {
            assert(es.take(0) =~= Seq::<SinkEvent>::empty());
        }
    }
}

/// Idempotent cancellation: signalling cancellation a second time changes nothing
/// and asks for nothing new.
pub proof fn lemma_cancel_idempotent(s: SinkModel)
    ensures
        next(next(s, SinkEvent::Cancelled).0, SinkEvent::Cancelled).0 == next(s, SinkEvent::Cancelled).0,
        next(next(s, SinkEvent::Cancelled).0, SinkEvent::Cancelled).1 is Wait,
{
}

/// Batch boundary: a running sink that takes a record asks for a store exactly
/// when the batch then holds `batch_size` records, and never holds more.
pub proof fn lemma_batch_boundary(s: SinkModel, e: SinkEvent)
    requires
        model_wf(s),
    ensures
        model_wf(next(s, e).0),
        s.phase is Running && e is Record && (e->Record_0 is Ok) ==> (
            (next(s, e).1 is Store <==> s.batch.len() + 1 == s.batch_size)
            && next(s, e).0.batch.len() == s.batch.len() + 1),
        next(s, e).0.batch.len() <= s.batch_size,
{
}

/// Offset monotonicity: recording a consumed position never lowers the offset
/// tracked for any partition, and a value that changes only goes up.
pub proof fn lemma_offsets_increase(m: Map<PartitionKey, i64>, k: PartitionKey, offset: i64, q: PartitionKey)
    requires
        0 <= offset < i64::MAX,
    ensures
        record_spec(m, k, offset).contains_key(k),
        record_spec(m, k, offset)[k] >= offset + 1,
        m.contains_key(q) ==> record_spec(m, k, offset).contains_key(q)
            && record_spec(m, k, offset)[q] >= m[q],
        m.contains_key(q) && record_spec(m, k, offset)[q] != m[q] ==> record_spec(m, k, offset)[q] > m[q],
{
}

} // verus!
