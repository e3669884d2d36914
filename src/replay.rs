use vstd::prelude::*;

use crate::frame::{Frame, FrameNo};
use crate::injector::{
    after_commit, after_flush_report, commit_frame_no_spec, drained_view, initial_view,
    inject_action_spec, pushed_view, EngineResult, FlushStep, InjectAction, InjectError,
    InjectorView, LIBSQL_INJECT_FATAL, LIBSQL_INJECT_OK, LIBSQL_INJECT_OK_TXN,
};

verus! {

/// What an interceptor that writes every frame of a batch reports: committed when the
/// batch ends with a closing frame, open otherwise.
pub open spec fn faithful_flush_report(batch: Seq<Frame>) -> EngineResult {
    if batch.last().closes_txn_spec() {
        EngineResult::SqliteError(LIBSQL_INJECT_OK)
    } else {
        EngineResult::SqliteError(LIBSQL_INJECT_OK_TXN)
    }
}

/// One `inject_frame` against an engine whose interceptor writes every frame and whose
/// `BEGIN`, schema reset and `COMMIT` succeed: the new state, the result, and the frames
/// written to the log.
pub open spec fn inject_step(s: InjectorView, f: Frame) -> (
    InjectorView,
    Result<Option<FrameNo>, InjectError>,
    Seq<Frame>,
) {
    if inject_action_spec(s, f) == InjectAction::Buffered {
        (pushed_view(s, f), Ok(None), Seq::empty())
    } else {
        let batch = pushed_view(s, f).buffer;
        let (s2, step) = after_flush_report(
            drained_view(pushed_view(s, f)),
            faithful_flush_report(batch),
        );
        match step {
            Ok(FlushStep::Commit) => {
                let (s3, r) = after_commit(s2, EngineResult::Succeeded, commit_frame_no_spec(batch));
                (s3, r, batch)
            },
            Ok(FlushStep::TxnOpen) => (s2, Ok(None), batch),
            Ok(FlushStep::HookNotCalled) => (s2, Err(InjectError::FatalInjectError), batch),
            Err(e) => (s2, Err(e), batch),
        }
    }
}

/// The outcome of injecting a sequence of frames one by one.
pub struct Replay {
    pub state: InjectorView,
    pub results: Seq<Result<Option<FrameNo>, InjectError>>,
    /// Every frame written to the log, in order.
    pub written: Seq<Frame>,
}

pub open spec fn replay(s: InjectorView, frames: Seq<Frame>) -> Replay
    decreases frames.len(),
{
    if frames.len() == 0 {
        Replay { state: s, results: Seq::empty(), written: Seq::empty() }
    } else {
        let prev = replay(s, frames.drop_last());
        let (s2, r, w) = inject_step(prev.state, frames.last());
        Replay { state: s2, results: prev.results.push(r), written: prev.written + w }
    }
}

/// `frames` is exactly one transaction: only its last frame closes it.
pub open spec fn is_one_txn(frames: Seq<Frame>) -> bool {
    &&& frames.len() > 0
    &&& frames.last().closes_txn_spec()
    &&& forall|i: int| 0 <= i < frames.len() - 1 ==> !(#[trigger] frames[i]).closes_txn_spec()
}

pub open spec fn is_ascending(frames: Seq<Frame>) -> bool {
    forall|i: int, j: int|
        0 <= i <= j < frames.len() ==> (#[trigger] frames[i]).frame_no_spec()
            <= (#[trigger] frames[j]).frame_no_spec()
}

pub open spec fn is_descending(frames: Seq<Frame>) -> bool {
    forall|i: int, j: int|
        0 <= i <= j < frames.len() ==> (#[trigger] frames[i]).frame_no_spec()
            >= (#[trigger] frames[j]).frame_no_spec()
}

/// After the first `k` frames, none of which closes a transaction, the buffer holds the
/// frames since the last flush (`j`), every earlier frame is written, and nothing is returned.
proof fn lemma_open_prefix(frames: Seq<Frame>, capacity: nat, k: nat) -> (j: nat)
    requires
        k <= frames.len(),
        forall|i: int| 0 <= i < k ==> !(#[trigger] frames[i]).closes_txn_spec(),
    ensures
        ({
            let r = replay(initial_view(capacity), frames.subrange(0, k as int));
            &&& j <= k
            &&& (k - j < capacity || j == k)
            &&& (k < capacity ==> j == 0)
            &&& r.state.buffer == frames.subrange(j as int, k as int)
            &&& r.state.capacity == capacity
            &&& r.state.is_txn == (j > 0)
            &&& r.written == frames.subrange(0, j as int)
            &&& r.results.len() == k
            &&& forall|i: int| 0 <= i < k ==> #[trigger] r.results[i] == Ok::<Option<FrameNo>, InjectError>(None)
        }),
    decreases k,
{
    let s0 = initial_view(capacity);
    if k == 0 {
        assert(frames.subrange(0, 0) =~= Seq::<Frame>::empty());
        0
    } else {
        let jp = lemma_open_prefix(frames, capacity, (k - 1) as nat);
        let pre = frames.subrange(0, k as int);
        assert(pre.drop_last() =~= frames.subrange(0, k - 1));
        let prev = replay(s0, frames.subrange(0, k - 1));
        let f = frames[k - 1];
        assert(pre.last() == f);
        let r = replay(s0, pre);
        assert(prev.state.buffer.push(f) =~= frames.subrange(jp as int, k as int));
        if k - jp < capacity {
            assert(r.written =~= prev.written + Seq::<Frame>::empty());
            assert(r.written =~= frames.subrange(0, jp as int));
            jp
        } else {
            assert(r.state.buffer =~= Seq::<Frame>::empty());
            assert(frames.subrange(k as int, k as int) =~= Seq::<Frame>::empty());
            assert(r.written =~= frames.subrange(0, k as int));
            k
        }
    }
}

/// A whole transaction injected into a fresh injector: every frame of it is written, in
/// order, and the injector ends where it began; the last frame reports the commit frame
/// number of the batch that the last flush handed over, which starts at `j`.
proof fn lemma_one_txn(frames: Seq<Frame>, capacity: nat) -> (j: nat)
    requires
        is_one_txn(frames),
    ensures
        ({
            let r = replay(initial_view(capacity), frames);
            let n = frames.len() as int;
            &&& j < n
            &&& (n - 1 < capacity ==> j == 0)
            &&& r.written == frames
            &&& r.state == initial_view(capacity)
            &&& r.results.len() == n
            &&& forall|i: int| 0 <= i < n - 1 ==> #[trigger] r.results[i] == Ok::<Option<FrameNo>, InjectError>(None)
            &&& r.results[n - 1] == Ok::<Option<FrameNo>, InjectError>(
                Some(commit_frame_no_spec(frames.subrange(j as int, n))),
            )
        }),
{
    let n = frames.len() as int;
    let k = (n - 1) as nat;
    let jp = lemma_open_prefix(frames, capacity, k);
    assert(frames.subrange(0, n) =~= frames);
    assert(frames.drop_last() =~= frames.subrange(0, k as int));
    let prev = replay(initial_view(capacity), frames.subrange(0, k as int));
    let batch = prev.state.buffer.push(frames.last());
    assert(batch =~= frames.subrange(jp as int, n));
    let r = replay(initial_view(capacity), frames);
    assert(r.written =~= frames.subrange(0, jp as int) + frames.subrange(jp as int, n));
    assert(r.written =~= frames);
    assert(r.state.buffer =~= Seq::<Frame>::empty());
    jp
}

/// A single transaction injected into a fresh injector returns nothing for every frame but
/// the closing one, which returns the largest frame number of the transaction. This holds
/// for any capacity when frame numbers ascend, and for descending frame numbers when the
/// whole transaction fits in one flush.
pub proof fn lemma_one_txn_reports_max(frames: Seq<Frame>, capacity: nat)
    requires
        is_one_txn(frames),
        1 <= capacity <= frames.len(),
        is_ascending(frames) || (is_descending(frames) && capacity == frames.len()),
    ensures
        ({
            let r = replay(initial_view(capacity), frames);
            &&& r.results.len() == frames.len()
            &&& forall|i: int| 0 <= i < frames.len() - 1 ==> #[trigger] r.results[i] == Ok::<Option<FrameNo>, InjectError>(None)
            &&& exists|m: int|
                0 <= m < frames.len() && r.results[frames.len() - 1] == Ok::<Option<FrameNo>, InjectError>(
                    Some(frames[m].frame_no_spec()),
                ) && forall|i: int| 0 <= i < frames.len() ==> (#[trigger] frames[i]).frame_no_spec() <= frames[m].frame_no_spec()
        }),
{
    let n = frames.len() as int;
    let j = lemma_one_txn(frames, capacity);
    let batch = frames.subrange(j as int, n);
    assert(batch[0] == frames[j as int]);
    assert(batch.last() == frames[n - 1]);
    if is_ascending(frames) {
        assert(frames[j as int].frame_no_spec() <= frames[n - 1].frame_no_spec());
        assert(forall|i: int| 0 <= i < n ==> (#[trigger] frames[i]).frame_no_spec() <= frames[n - 1].frame_no_spec());
    } else {
        assert(j == 0);
        assert(frames[0].frame_no_spec() >= frames[n - 1].frame_no_spec());
        assert(forall|i: int| 0 <= i < n ==> (#[trigger] frames[i]).frame_no_spec() <= frames[0].frame_no_spec());
    }
}

/// Whatever the buffer capacity, a transaction injected into a fresh injector writes
/// exactly its frames to the log, in order, and leaves no transaction open and nothing
/// buffered: the end state does not depend on the capacity.
pub proof fn lemma_end_state_independent_of_capacity(frames: Seq<Frame>, c1: nat, c2: nat)
    requires
        is_one_txn(frames),
    ensures
        replay(initial_view(c1), frames).written == frames,
        replay(initial_view(c2), frames).written == frames,
        replay(initial_view(c1), frames).state == initial_view(c1),
        replay(initial_view(c2), frames).state == initial_view(c2),
{
    lemma_one_txn(frames, c1);
    lemma_one_txn(frames, c2);
}

/// Frames of a transaction whose closing frame has not arrived yet commit nothing: every
/// injection returns `None`, and when they fit under the capacity none of them even
/// reaches the log; they all wait in the buffer.
pub proof fn lemma_partial_txn_uncommitted(frames: Seq<Frame>, capacity: nat)
    requires
        forall|i: int| 0 <= i < frames.len() ==> !(#[trigger] frames[i]).closes_txn_spec(),
    ensures
        ({
            let r = replay(initial_view(capacity), frames);
            &&& r.results.len() == frames.len()
            &&& forall|i: int| 0 <= i < frames.len() ==> #[trigger] r.results[i] == Ok::<Option<FrameNo>, InjectError>(None)
            &&& frames.len() < capacity ==> r.written.len() == 0 && r.state.buffer == frames
                && !r.state.is_txn
        }),
{
    lemma_open_prefix(frames, capacity, frames.len());
    assert(frames.subrange(0, frames.len() as int) =~= frames);
    assert(frames.subrange(0, 0) =~= Seq::<Frame>::empty());
}

/// Clearing the buffer of an injector with no open transaction and injecting frames from
/// scratch ends exactly as injecting them into a fresh injector does.
pub proof fn lemma_clear_then_replay(s: InjectorView, frames: Seq<Frame>)
    requires
        !s.is_txn,
    ensures
        replay(drained_view(s), frames) == replay(initial_view(s.capacity), frames),
{
    assert(drained_view(s) == initial_view(s.capacity));
}

/// A fatal report from the interceptor, or an error without a result code, surfaces as
/// `FatalInjectError` and changes nothing.
pub proof fn lemma_fatal_report_is_error(s: InjectorView, report: EngineResult)
    requires
        report == EngineResult::SqliteError(LIBSQL_INJECT_FATAL) || report == EngineResult::OtherError,
    ensures
        after_flush_report(s, report) == (s, Err::<FlushStep, InjectError>(InjectError::FatalInjectError)),
{
}

/// For ascending and for descending frame numbers, the commit frame number of a batch is
/// its largest frame number.
pub proof fn lemma_commit_frame_no_is_max(buf: Seq<Frame>)
    requires
        buf.len() > 0,
        is_ascending(buf) || is_descending(buf),
    ensures
        forall|i: int| 0 <= i < buf.len() ==> (#[trigger] buf[i]).frame_no_spec() <= commit_frame_no_spec(buf),
        commit_frame_no_spec(buf) == buf[0].frame_no_spec() || commit_frame_no_spec(buf)
            == buf.last().frame_no_spec(),
{
    let n = buf.len() as int;
    assert(forall|i: int| 0 <= i < n ==> (#[trigger] buf[i]).frame_no_spec() <= buf[0].frame_no_spec()
        || (#[trigger] buf[i]).frame_no_spec() <= buf[n - 1].frame_no_spec()) by {
        assert forall|i: int| 0 <= i < n implies (#[trigger] buf[i]).frame_no_spec() <= buf[0].frame_no_spec()
            || buf[i].frame_no_spec() <= buf[n - 1].frame_no_spec() by {
            if is_ascending(buf) {
                assert(buf[i].frame_no_spec() <= buf[n - 1].frame_no_spec());
            } else {
                assert(buf[0].frame_no_spec() >= buf[i].frame_no_spec());
            }
        }
    }
}

} // verus!
