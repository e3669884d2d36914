use vstd::prelude::*;

use crate::frame::{Frame, FrameNo};

verus! {

/// Extended result code by which the write interceptor reports an unrecoverable failure.
pub const LIBSQL_INJECT_FATAL: i32 = 200;

/// Extended result code by which the write interceptor reports that the frames were
/// written and the transaction is still open.
pub const LIBSQL_INJECT_OK_TXN: i32 = 201;

/// Extended result code by which the write interceptor reports that the frames were
/// written and the transaction is committed.
pub const LIBSQL_INJECT_OK: i32 = 202;

/// Extended result code of an outer `COMMIT` that found no transaction left to close;
/// such a failure is tolerated.
pub const COMMIT_NO_TXN_CODE: i32 = 201;

/// Errors surfaced by the injector.
#[derive(Clone, Copy, Debug, PartialEq, Eq, Structural)]
pub enum InjectError {
    /// The engine failed to open or create the database file.
    OpenError,
    /// A statement failed to prepare or execute.
    StatementError,
    /// The interceptor reported a fatal failure, the outer `COMMIT` failed, or the
    /// engine reported an unrecognised error while flushing. The injector is then unusable.
    FatalInjectError,
}

/// What an engine operation reported back.
#[derive(Clone, Copy, Debug, PartialEq, Eq, Structural)]
pub enum EngineResult {
    /// The operation succeeded.
    Succeeded,
    /// The operation failed with this extended result code.
    SqliteError(i32),
    /// The operation failed without a result code of the engine.
    OtherError,
}

/// What the caller of `inject_frame` has to do next.
#[derive(Clone, Copy, Debug, PartialEq, Eq, Structural)]
pub enum InjectAction {
    /// The frame was buffered; the injection result is `Ok(None)`.
    Buffered,
    /// A flush is due, and no transaction is open: begin one, then flush.
    BeginAndFlush,
    /// A flush is due within the open transaction.
    Flush,
}

/// How a forced flush was answered by the write interceptor.
#[derive(Clone, Copy, Debug, PartialEq, Eq, Structural)]
pub enum FlushStep {
    /// The forced write succeeded: the interceptor is not wired to the engine.
    HookNotCalled,
    /// All frames were written and the transaction closed: reset the schema and `COMMIT`.
    Commit,
    /// The frames were written and the transaction stays open; the result is `Ok(None)`.
    TxnOpen,
}

/// The frames handed to the write interceptor by one flush, in FIFO order.
pub struct FlushBatch {
    /// The frame number that a commit of this batch reports.
    pub commit_frame_no: FrameNo,
    pub frames: Vec<Frame>,
}

/// Abstract state of an injector.
pub struct InjectorView {
    pub is_txn: bool,
    pub buffer: Seq<Frame>,
    pub capacity: nat,
}

/// Replays an ordered stream of frames, buffering them until a transaction closes or the
/// buffer reaches its capacity, and then driving a flush through the write interceptor.
pub struct Injector {
    /// A transaction is open, awaiting its closing frame.
    is_txn: bool,
    /// Frames not yet handed to the write interceptor, in arrival order.
    buffer: Vec<Frame>,
    /// Buffer length at which a flush is forced (advisory).
    capacity: usize,
}

impl View for Injector {
    type V = InjectorView;

    closed spec fn view(&self) -> InjectorView {
        InjectorView { is_txn: self.is_txn, buffer: self.buffer@, capacity: self.capacity as nat }
    }
}

/// The frame number reported for a commit of `buf`: the larger of its first and last.
pub open spec fn commit_frame_no_spec(buf: Seq<Frame>) -> FrameNo
    recommends
        buf.len() > 0,
{
    let first = buf[0].frame_no_spec();
    let last = buf.last().frame_no_spec();
    if first >= last {
        first
    } else {
        last
    }
}

/// State of a fresh injector.
pub open spec fn initial_view(capacity: nat) -> InjectorView {
    InjectorView { is_txn: false, buffer: Seq::empty(), capacity }
}

pub open spec fn pushed_view(s: InjectorView, f: Frame) -> InjectorView {
    InjectorView { buffer: s.buffer.push(f), ..s }
}

pub open spec fn drained_view(s: InjectorView) -> InjectorView {
    InjectorView { buffer: Seq::empty(), ..s }
}

/// Pushing `f` forces a flush when it closes a transaction or the buffer reaches capacity.
pub open spec fn needs_flush(s: InjectorView, f: Frame) -> bool {
    f.closes_txn_spec() || s.buffer.len() + 1 >= s.capacity
}

pub open spec fn inject_action_spec(s: InjectorView, f: Frame) -> InjectAction {
    if !needs_flush(s, f) {
        InjectAction::Buffered
    } else if s.is_txn {
        InjectAction::Flush
    } else {
        InjectAction::BeginAndFlush
    }
}

/// Decoding of what the forced write of a flush reported.
pub open spec fn after_flush_report(s: InjectorView, report: EngineResult) -> (
    InjectorView,
    Result<FlushStep, InjectError>,
) {
    match report {
        EngineResult::Succeeded => (s, Ok(FlushStep::HookNotCalled)),
        EngineResult::SqliteError(code) => if code == LIBSQL_INJECT_OK {
            (s, Ok(FlushStep::Commit))
        } else if code == LIBSQL_INJECT_OK_TXN {
            (InjectorView { is_txn: true, ..s }, Ok(FlushStep::TxnOpen))
        } else {
            (s, Err(InjectError::FatalInjectError))
        },
        EngineResult::OtherError => (s, Err(InjectError::FatalInjectError)),
    }
}

/// Outcome of the outer `COMMIT` that follows a committed flush.
pub open spec fn after_commit(s: InjectorView, report: EngineResult, commit_frame_no: FrameNo) -> (
    InjectorView,
    Result<Option<FrameNo>, InjectError>,
) {
    if report == EngineResult::Succeeded || report == EngineResult::SqliteError(COMMIT_NO_TXN_CODE) {
        (InjectorView { is_txn: false, ..s }, Ok(Some(commit_frame_no)))
    } else {
        (s, Err(InjectError::FatalInjectError))
    }
}

impl Injector {
    /// A fresh injector with an empty buffer and no open transaction.
    pub fn new(buffer_capacity: usize) -> (r: Injector)
        ensures
            r@ == initial_view(buffer_capacity as nat),
    {
        Injector { is_txn: false, buffer: Vec::new(), capacity: buffer_capacity }
    }

    pub fn is_txn(&self) -> (r: bool)
        ensures
            r == self@.is_txn,
    {
        self.is_txn
    }

    pub fn capacity(&self) -> (r: usize)
        ensures
            r as nat == self@.capacity,
    {
        self.capacity
    }

    pub fn buffered_len(&self) -> (r: usize)
        ensures
            r as nat == self@.buffer.len(),
    {
        self.buffer.len()
    }

    /// Appends `frame` to the buffer and says whether a flush is now due.
    pub fn inject_frame(&mut self, frame: Frame) -> (r: InjectAction)
        ensures
            final(self)@ == pushed_view(old(self)@, frame),
            r == inject_action_spec(old(self)@, frame),
    {
        let closes = frame.closes_txn();
        self.buffer.push(frame);
        if closes || self.buffer.len() >= self.capacity {
            if self.is_txn {
                InjectAction::Flush
            } else {
                InjectAction::BeginAndFlush
            }
        } else {
            InjectAction::Buffered
        }
    }

    /// Starts a flush: hands over every buffered frame, with the frame number that a commit
    /// of them reports. With nothing buffered there is nothing to flush.
    pub fn take_batch(&mut self) -> (r: Option<FlushBatch>)
        ensures
            final(self)@ == drained_view(old(self)@),
            r is None <==> old(self)@.buffer.len() == 0,
            r is Some ==> r->Some_0.frames@ == old(self)@.buffer && r->Some_0.commit_frame_no
                == commit_frame_no_spec(old(self)@.buffer),
    {
        if self.buffer.len() == 0 {
            assert(self.buffer@ =~= Seq::empty());
            return None;
        }
        let first = self.buffer[0].header().frame_no;
        let last = self.buffer[self.buffer.len() - 1].header().frame_no;
        let commit_frame_no = if first >= last {
            first
        } else {
            last
        };
        let mut frames: Vec<Frame> = Vec::new();
        std::mem::swap(&mut frames, &mut self.buffer);
        Some(FlushBatch { commit_frame_no, frames })
    }

    /// Interprets what the forced write of a flush reported.
    pub fn on_flush_report(&mut self, report: EngineResult) -> (r: Result<FlushStep, InjectError>)
        requires
            old(self)@.buffer.len() == 0,
        ensures
            (final(self)@, r) == after_flush_report(old(self)@, report),
    {
        match report {
            EngineResult::Succeeded => Ok(FlushStep::HookNotCalled),
            EngineResult::SqliteError(code) => {
                if code == LIBSQL_INJECT_OK {
                    Ok(FlushStep::Commit)
                } else if code == LIBSQL_INJECT_OK_TXN {
                    self.is_txn = true;
                    Ok(FlushStep::TxnOpen)
                } else {
                    Err(InjectError::FatalInjectError)
                }
            },
            EngineResult::OtherError => Err(InjectError::FatalInjectError),
        }
    }

    /// Interprets what the outer `COMMIT` after a committed flush reported.
    pub fn on_commit(&mut self, report: EngineResult, commit_frame_no: FrameNo) -> (r: Result<
        Option<FrameNo>,
        InjectError,
    >)
        requires
            old(self)@.buffer.len() == 0,
        ensures
            (final(self)@, r) == after_commit(old(self)@, report, commit_frame_no),
    {
        let tolerated = match report {
            EngineResult::Succeeded => true,
            EngineResult::SqliteError(code) => code == COMMIT_NO_TXN_CODE,
            EngineResult::OtherError => false,
        };
        if tolerated {
            self.is_txn = false;
            Ok(Some(commit_frame_no))
        } else {
            Err(InjectError::FatalInjectError)
        }
    }

    /// Discards every buffered frame, leaving the transaction state alone.
    pub fn clear_buffer(&mut self)
        ensures
            final(self)@ == drained_view(old(self)@),
    {
        self.buffer.clear();
    }
}

} // verus!
