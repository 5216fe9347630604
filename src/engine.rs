use vstd::prelude::*;
use vstd::arithmetic::div_mod::lemma_div_by_multiple;
use vstd::arithmetic::div_mod::lemma_div_is_ordered;
use vstd::arithmetic::mul::lemma_mul_inequality;
use vstd::string::StringExecFns;

use crate::request::TransferRequest;
use crate::request::ValidationError;
use crate::request::validate;
use crate::request::validation_error;

verus! {

/// Bytes asked for in one read.
pub const CHUNK_SIZE: usize = 4 * 1024 * 1024;

/// Progress is counted in millionths of the transfer; this is all of it.
pub const FULL_PROGRESS: u32 = 1000000;

/// Why a transfer ended without completing.
#[derive(Clone, Copy, Debug, PartialEq, Eq, Structural)]
pub enum TransferError {
    OpenError,
    ReadError,
    WriteError,
    Cancelled,
}

/// A failure as reported to whoever polls the engine.
#[derive(Clone, Debug)]
pub struct TransferFailure {
    pub kind: TransferError,
    pub message: String,
}

/// Where the engine stands. `Opening`, `Reading` and `Writing` are the
/// running phases; `Completed`, `Failed` and `Cancelled` end a transfer.
#[derive(Clone, Copy, Debug, PartialEq, Eq, Structural)]
pub enum Phase {
    Idle,
    Opening,
    Reading,
    Writing,
    Completed,
    Failed(TransferError),
    Cancelled,
}

/// What the driver of a transfer observed after carrying out the last action.
#[derive(Debug)]
pub enum Event {
    /// Source and destination are open; the source length, if known.
    Opened(Option<u64>),
    OpenFailed(String),
    /// A read returned these bytes; an empty chunk means end of input.
    Read(Vec<u8>),
    ReadFailed(String),
    /// The chunk handed out last was written in full.
    Written,
    WriteFailed(String),
}

/// What the driver is to do next.
#[derive(Debug)]
pub enum Action {
    /// Read at most this many bytes from the source.
    Read(usize),
    /// Write these bytes in full to the destination.
    Write(Vec<u8>),
    /// The transfer is over.
    Stop,
}

/// Why `start` refused.
#[derive(Clone, Copy, Debug, PartialEq, Eq, Structural)]
pub enum StartError {
    /// A transfer is already in flight.
    Busy,
    Invalid(ValidationError),
}

/// What one poll of the engine observes.
#[derive(Debug)]
pub struct Snapshot {
    /// In millionths, up to `FULL_PROGRESS`.
    pub progress: u32,
    pub running: bool,
    pub last_error: Option<TransferFailure>,
}

pub enum EventView {
    Opened(Option<u64>),
    OpenFailed(Seq<char>),
    Read(Seq<u8>),
    ReadFailed(Seq<char>),
    Written,
    WriteFailed(Seq<char>),
}

pub enum ActionView {
    Read(nat),
    Write(Seq<u8>),
    Stop,
}

/// The abstract state of the engine. `read` is every byte the source has
/// produced in this transfer, `written` every byte confirmed written, and
/// `pending` the chunk handed out for writing and not yet confirmed.
pub struct EngineView {
    pub phase: Phase,
    pub done: nat,
    pub total: Option<u64>,
    pub progress: nat,
    pub error: Option<(TransferError, Seq<char>)>,
    pub cancel: bool,
    pub read: Seq<u8>,
    pub written: Seq<u8>,
    pub pending: Seq<u8>,
}

impl View for Event {
    type V = EventView;

    open spec fn view(&self) -> EventView {
        match self {
            Event::Opened(t) => EventView::Opened(*t),
            Event::OpenFailed(m) => EventView::OpenFailed(m@),
            Event::Read(b) => EventView::Read(b@),
            Event::ReadFailed(m) => EventView::ReadFailed(m@),
            Event::Written => EventView::Written,
            Event::WriteFailed(m) => EventView::WriteFailed(m@),
        }
    }
}

impl View for Action {
    type V = ActionView;

    open spec fn view(&self) -> ActionView {
        match self {
            Action::Read(n) => ActionView::Read(*n as nat),
            Action::Write(b) => ActionView::Write(b@),
            Action::Stop => ActionView::Stop,
        }
    }
}

pub open spec fn failure_view(f: Option<TransferFailure>) -> Option<(TransferError, Seq<char>)> {
    match f {
        Some(f) => Some((f.kind, f.message@)),
        None => None,
    }
}

pub open spec fn is_running(p: Phase) -> bool {
    p is Opening || p is Reading || p is Writing
}

/// A count of bytes capped at what a `u64` holds.
pub open spec fn capped(n: nat) -> nat {
    if n > u64::MAX {
        u64::MAX as nat
    } else {
        n
    }
}

/// The share of `total` that `done` bytes make, in millionths.
pub open spec fn ratio(done: nat, total: nat) -> nat {
    if total == 0 {
        0
    } else {
        let d = if done <= total {
            done
        } else {
            total
        };
        (d * FULL_PROGRESS as nat) / total
    }
}

/// Progress while running: nothing is known while the length is unknown
/// or zero.
pub open spec fn progress_of(done: nat, total: Option<u64>) -> nat {
    match total {
        Some(t) => ratio(done, t as nat),
        None => 0,
    }
}

pub open spec fn failure_prefix(kind: TransferError) -> Seq<char> {
    match kind {
        TransferError::OpenError => "could not open: "@,
        TransferError::ReadError => "read failed: "@,
        TransferError::WriteError => "write failed: "@,
        TransferError::Cancelled => "transfer cancelled"@,
    }
}

/// The text recorded for a failure: its kind's prefix, then the system's
/// own words.
pub open spec fn failure_text(kind: TransferError, detail: Seq<char>) -> Seq<char> {
    failure_prefix(kind) + detail
}

pub open spec fn engine_wf(s: EngineView) -> bool {
    &&& s.progress <= FULL_PROGRESS
    &&& s.done == capped(s.written.len())
    &&& is_running(s.phase) ==> s.progress == progress_of(s.done, s.total) && s.error is None
    &&& s.phase is Opening ==> s.read.len() == 0 && s.written.len() == 0 && s.total is None
    &&& s.phase is Reading ==> s.read == s.written
    &&& s.phase is Writing ==> s.read == s.written + s.pending && s.pending.len() > 0
    &&& s.phase is Completed ==> s.progress == FULL_PROGRESS && s.read == s.written
}

/// The state of an engine that has run nothing yet.
pub open spec fn idle() -> EngineView {
    EngineView { phase: Phase::Idle, ..started() }
}

/// The state right after a transfer was accepted.
pub open spec fn started() -> EngineView {
    EngineView {
        phase: Phase::Opening,
        done: 0,
        total: None,
        progress: 0,
        error: None,
        cancel: false,
        read: Seq::empty(),
        written: Seq::empty(),
        pending: Seq::empty(),
    }
}

pub open spec fn failed(s: EngineView, kind: TransferError, detail: Seq<char>) -> EngineView {
    EngineView {
        phase: Phase::Failed(kind),
        error: Some((kind, failure_text(kind, detail))),
        cancel: false,
        ..s
    }
}

/// One step of the engine: the state after `e` and the action it asks for.
/// An event that the current phase does not wait for changes nothing.
pub open spec fn step(s: EngineView, e: EventView) -> (EngineView, ActionView) {
    match (s.phase, e) {
        (Phase::Opening, EventView::Opened(t)) => (
            EngineView { phase: Phase::Reading, total: t, progress: progress_of(s.done, t), ..s },
            ActionView::Read(CHUNK_SIZE as nat),
        ),
        (Phase::Opening, EventView::OpenFailed(m)) => (
            failed(s, TransferError::OpenError, m),
            ActionView::Stop,
        ),
        (Phase::Reading, EventView::Read(b)) => if b.len() == 0 {
            (
                EngineView {
                    phase: Phase::Completed,
                    progress: FULL_PROGRESS as nat,
                    cancel: false,
                    ..s
                },
                ActionView::Stop,
            )
        } else {
            (
                EngineView { phase: Phase::Writing, read: s.read + b, pending: b, ..s },
                ActionView::Write(b),
            )
        },
        (Phase::Reading, EventView::ReadFailed(m)) => (
            failed(s, TransferError::ReadError, m),
            ActionView::Stop,
        ),
        (Phase::Writing, EventView::Written) => {
            let done = capped(s.done + s.pending.len());
            let moved = EngineView {
                done: done,
                progress: progress_of(done, s.total),
                written: s.written + s.pending,
                pending: Seq::empty(),
                ..s
            };
            if s.cancel {
                (
                    EngineView {
                        phase: Phase::Cancelled,
                        error: Some(
                            (TransferError::Cancelled, failure_prefix(TransferError::Cancelled)),
                        ),
                        cancel: false,
                        ..moved
                    },
                    ActionView::Stop,
                )
            } else {
                (EngineView { phase: Phase::Reading, ..moved }, ActionView::Read(CHUNK_SIZE as nat))
            }
        },
        (Phase::Writing, EventView::WriteFailed(m)) => (
            failed(s, TransferError::WriteError, m),
            ActionView::Stop,
        ),
        _ => (s, ActionView::Stop),
    }
}

/// The state after a sequence of events.
pub open spec fn run(s: EngineView, es: Seq<EventView>) -> EngineView
    decreases es.len(),
{
    if es.len() == 0 {
        s
    } else {
        step(run(s, es.drop_last()), es.last()).0
    }
}

proof fn lemma_ratio_bounded(done: nat, total: nat)
    ensures
        ratio(done, total) <= FULL_PROGRESS,
{
    if total > 0 {
        let d = if done <= total {
            done
        } else {
            total
        };
        lemma_mul_inequality(d as int, total as int, FULL_PROGRESS as int);
        lemma_div_is_ordered(d * FULL_PROGRESS, total * FULL_PROGRESS, total as int);
        lemma_div_by_multiple(FULL_PROGRESS as int, total as int);
        assert(total * FULL_PROGRESS == FULL_PROGRESS * total) by (nonlinear_arith);
    }
}

proof fn lemma_ratio_monotone(a: nat, b: nat, total: nat)
    requires
        a <= b,
    ensures
        ratio(a, total) <= ratio(b, total),
{
    if total > 0 {
        let da = if a <= total {
            a
        } else {
            total
        };
        let db = if b <= total {
            b
        } else {
            total
        };
        lemma_mul_inequality(da as int, db as int, FULL_PROGRESS as int);
        lemma_div_is_ordered(da * FULL_PROGRESS, db * FULL_PROGRESS, total as int);
    }
}

/// One step keeps the engine well formed and never lowers its progress.
pub proof fn lemma_step(s: EngineView, e: EventView)
    requires
        engine_wf(s),
    ensures
        engine_wf(step(s, e).0),
        s.progress <= step(s, e).0.progress,
{
    let n = step(s, e).0;
    lemma_ratio_bounded(n.done, 0);
    match n.total {
        Some(t) => lemma_ratio_bounded(n.done, t as nat),
        None => {},
    }
    match (s.phase, e) {
        (Phase::Opening, EventView::Opened(t)) => {
            assert(s.done == 0);
            assert(progress_of(s.done, t) == 0);
            assert(s.read =~= s.written);
        },
        (Phase::Reading, EventView::Read(b)) => {
            if b.len() > 0 {
                assert(n.read == n.written + n.pending);
            }
        },
        (Phase::Writing, EventView::Written) => {
            assert(n.written == s.written + s.pending);
            match s.total {
                Some(t) => lemma_ratio_monotone(s.done, n.done, t as nat),
                None => {},
            }
            assert(n.done == capped(n.written.len()));
        },
        _ => {},
    }
}

/// Whatever events arrive, the engine stays well formed, and progress seen
/// at an earlier moment is never above progress seen at a later one.
pub proof fn lemma_progress_never_decreases(s: EngineView, es: Seq<EventView>, i: int, j: int)
    requires
        engine_wf(s),
        0 <= i <= j <= es.len(),
    ensures
        engine_wf(run(s, es.take(j))),
        run(s, es.take(i)).progress <= run(s, es.take(j)).progress,
    decreases j,
{
    if j > 0 {
        assert(es.take(j).drop_last() =~= es.take(j - 1));
        if i == j {
            lemma_progress_never_decreases(s, es, i - 1, j - 1);
            lemma_step(run(s, es.take(j - 1)), es.take(j).last());
        } else {
            lemma_progress_never_decreases(s, es, i, j - 1);
            lemma_step(run(s, es.take(j - 1)), es.take(j).last());
        }
    }
}

/// A transfer that completed has full progress, and what was written is
/// exactly, byte for byte, what was read from the source up to its end.
pub proof fn lemma_completed_copy_exact(s: EngineView, es: Seq<EventView>)
    requires
        engine_wf(s),
        run(s, es).phase is Completed,
    ensures
        run(s, es).progress == FULL_PROGRESS,
        run(s, es).written == run(s, es).read,
        run(s, es).written.len() == run(s, es).read.len(),
        !is_running(run(s, es).phase),
{
    assert(es.take(es.len() as int) =~= es);
    lemma_progress_never_decreases(s, es, 0, es.len() as int);
}

/// A failed open, read or write during a transfer ends it: the engine is
/// no longer running and holds a non-empty error of the matching kind.
pub proof fn lemma_failure_reported(s: EngineView, e: EventView)
    requires
        engine_wf(s),
        is_running(s.phase),
        e is OpenFailed && s.phase is Opening || e is ReadFailed && s.phase is Reading
            || e is WriteFailed && s.phase is Writing,
    ensures
        !is_running(step(s, e).0.phase),
        step(s, e).0.phase is Failed,
        step(s, e).0.error matches Some((k, m)) && Phase::Failed(k) == step(s, e).0.phase && m.len()
            > 0,
        step(s, e).1 is Stop,
{
    reveal_strlit("could not open: ");
    reveal_strlit("read failed: ");
    reveal_strlit("write failed: ");
}

/// Drives one transfer at a time. It never touches a file: whoever drives
/// it carries out each `Action` it returns and reports what happened as the
/// next `Event`. Polled through `snapshot`.
pub struct TransferEngine {
    phase: Phase,
    done: u64,
    total: Option<u64>,
    progress: u32,
    last_error: Option<TransferFailure>,
    cancel_requested: bool,
    pending_len: u64,
    read: Ghost<Seq<u8>>,
    written: Ghost<Seq<u8>>,
    pending: Ghost<Seq<u8>>,
}

impl View for TransferEngine {
    type V = EngineView;

    closed spec fn view(&self) -> EngineView {
        EngineView {
            phase: self.phase,
            done: self.done as nat,
            total: self.total,
            progress: self.progress as nat,
            error: failure_view(self.last_error),
            cancel: self.cancel_requested,
            read: self.read@,
            written: self.written@,
            pending: self.pending@,
        }
    }
}

fn prefix_str(kind: TransferError) -> (r: &'static str)
    ensures
        r@ == failure_prefix(kind),
{
    match kind {
        TransferError::OpenError => "could not open: ",
        TransferError::ReadError => "read failed: ",
        TransferError::WriteError => "write failed: ",
        TransferError::Cancelled => "transfer cancelled",
    }
}

fn failure(kind: TransferError, detail: &str) -> (r: TransferFailure)
    ensures
        r.kind == kind,
        r.message@ == failure_text(kind, detail@),
{
    let mut text = String::from_str(prefix_str(kind));
    text.append(detail);
    TransferFailure { kind, message: text }
}

/// Progress in millionths for `done` bytes of `total`.
pub fn progress_for(done: u64, total: Option<u64>) -> (r: u32)
    ensures
        r as nat == progress_of(done as nat, total),
        r <= FULL_PROGRESS,
{
    match total {
        Some(t) => {
            if t == 0 {
                0
            } else {
                let d: u64 = if done <= t {
                    done
                } else {
                    t
                };
                proof {
                    lemma_ratio_bounded(done as nat, t as nat);
                    assert((d as nat) * (FULL_PROGRESS as nat) <= (u64::MAX as nat) * 1000000) by (nonlinear_arith)
                        requires
                            d <= u64::MAX,
                    ;
                }
                let p: u128 = (d as u128) * (FULL_PROGRESS as u128) / (t as u128);
                p as u32
            }
        },
        None => 0,
    }
}

impl TransferEngine {
    /// Agreement between the fields kept for running and the abstract state.
    pub closed spec fn consistent(&self) -> bool {
        self.pending_len == self.pending@.len()
    }

    pub open spec fn wf(&self) -> bool {
        engine_wf(self@) && self.consistent()
    }

    /// An idle engine: no progress, not running, no error.
    pub fn new() -> (r: TransferEngine)
        ensures
            r.wf(),
            r@ == idle(),
    {
        let r = TransferEngine {
            phase: Phase::Idle,
            done: 0,
            total: None,
            progress: 0,
            last_error: None,
            cancel_requested: false,
            pending_len: 0,
            read: Ghost(Seq::empty()),
            written: Ghost(Seq::empty()),
            pending: Ghost(Seq::empty()),
        };
        assert(r@ == idle());
        r
    }

    pub fn phase(&self) -> (r: Phase)
        ensures
            r == self@.phase,
    {
        self.phase
    }

    /// Whether a transfer is in flight.
    pub fn is_running(&self) -> (r: bool)
        ensures
            r == is_running(self@.phase),
    {
        match self.phase {
            Phase::Opening | Phase::Reading | Phase::Writing => true,
            _ => false,
        }
    }

    /// Progress in millionths.
    pub fn progress(&self) -> (r: u32)
        ensures
            r as nat == self@.progress,
    {
        self.progress
    }

    /// Accepts a transfer unless one is in flight or the request is invalid;
    /// `source_readable` is whether the source resolved to a readable file.
    /// A refusal changes nothing. On acceptance the previous outcome, error
    /// and progress are cleared and the engine waits for the files to open.
    pub fn start(&mut self, source_path: &str, target: &str, source_readable: bool) -> (r: Result<
        TransferRequest,
        StartError,
    >)
        requires
            old(self).wf(),
        ensures
            final(self).wf(),
            is_running(old(self)@.phase) ==> r == Err::<TransferRequest, StartError>(StartError::Busy)
                && final(self)@ == old(self)@,
            !is_running(old(self)@.phase) ==> match validation_error(
                source_path@,
                target@,
                source_readable,
            ) {
                Some(e) => r == Err::<TransferRequest, StartError>(StartError::Invalid(e))
                    && final(self)@ == old(self)@,
                None => final(self)@ == started() && (r matches Ok(req) && req.source_view()
                    == source_path@ && req.target_view() == target@),
            },
    {
        if self.is_running() {
            return Err(StartError::Busy);
        }
        match validate(source_path, target, source_readable) {
            Err(e) => Err(StartError::Invalid(e)),
            Ok(req) => {
                self.phase = Phase::Opening;
                self.done = 0;
                self.total = None;
                self.progress = 0;
                self.last_error = None;
                self.cancel_requested = false;
                self.pending_len = 0;
                self.read = Ghost(Seq::empty());
                self.written = Ghost(Seq::empty());
                self.pending = Ghost(Seq::empty());
                assert(self@ == started());
                Ok(req)
            },
        }
    }

    /// Asks a transfer in flight to stop at the next chunk boundary.
    pub fn request_cancel(&mut self)
        requires
            old(self).wf(),
        ensures
            final(self).wf(),
            final(self)@ == (if is_running(old(self)@.phase) {
                EngineView { cancel: true, ..old(self)@ }
            } else {
                old(self)@
            }),
    {
        if self.is_running() {
            self.cancel_requested = true;
        }
    }

    /// One poll: progress, whether a transfer is in flight, and the error of
    /// the last transfer, which is handed out once and then cleared.
    pub fn snapshot(&mut self) -> (r: Snapshot)
        requires
            old(self).wf(),
        ensures
            final(self).wf(),
            r.progress as nat == old(self)@.progress,
            r.running == is_running(old(self)@.phase),
            failure_view(r.last_error) == old(self)@.error,
            final(self)@ == (EngineView { error: None, ..old(self)@ }),
    {
        let running = self.is_running();
        let last_error = self.last_error.take();
        Snapshot { progress: self.progress, running, last_error }
    }

    fn fail(&mut self, kind: TransferError, detail: &str)
        requires
            old(self).wf(),
            is_running(old(self)@.phase),
        ensures
            final(self).consistent(),
            final(self)@ == failed(old(self)@, kind, detail@),
    {
        self.phase = Phase::Failed(kind);
        self.last_error = Some(failure(kind, detail));
        self.cancel_requested = false;
    }

    /// Takes what the driver observed and says what it is to do next. An
    /// event that the current phase does not wait for changes nothing and
    /// asks the driver to stop.
    pub fn on_event(&mut self, event: Event) -> (a: Action)
        requires
            old(self).wf(),
        ensures
            final(self).wf(),
            final(self)@ == step(old(self)@, event@).0,
            a@ == step(old(self)@, event@).1,
    {
        proof {
            lemma_step(self@, event@);
        }
        match event {
            Event::Opened(t) => {
                if self.phase == Phase::Opening {
                    self.phase = Phase::Reading;
                    self.total = t;
                    self.progress = progress_for(self.done, t);
                    Action::Read(CHUNK_SIZE)
                } else {
                    Action::Stop
                }
            },
            Event::OpenFailed(m) => {
                if self.phase == Phase::Opening {
                    self.fail(TransferError::OpenError, m.as_str());
                }
                Action::Stop
            },
            Event::Read(bytes) => {
                if self.phase == Phase::Reading {
                    if bytes.len() == 0 {
                        self.phase = Phase::Completed;
                        self.progress = FULL_PROGRESS;
                        self.cancel_requested = false;
                        Action::Stop
                    } else {
                        self.phase = Phase::Writing;
                        self.read = Ghost(self.read@ + bytes@);
                        self.pending = Ghost(bytes@);
                        self.pending_len = bytes.len() as u64;
                        Action::Write(bytes)
                    }
                } else {
                    Action::Stop
                }
            },
            Event::ReadFailed(m) => {
                if self.phase == Phase::Reading {
                    self.fail(TransferError::ReadError, m.as_str());
                }
                Action::Stop
            },
            Event::Written => {
                if self.phase == Phase::Writing {
                    let done: u64 = if self.done > u64::MAX - self.pending_len {
                        u64::MAX
                    } else {
                        self.done + self.pending_len
                    };
                    self.done = done;
                    self.progress = progress_for(done, self.total);
                    self.written = Ghost(self.written@ + self.pending@);
                    self.pending = Ghost(Seq::empty());
                    self.pending_len = 0;
                    if self.cancel_requested {
                        self.phase = Phase::Cancelled;
                        self.last_error = Some(
                            TransferFailure {
                                kind: TransferError::Cancelled,
                                message: String::from_str(prefix_str(TransferError::Cancelled)),
                            },
                        );
                        self.cancel_requested = false;
                        Action::Stop
                    } else {
                        self.phase = Phase::Reading;
                        Action::Read(CHUNK_SIZE)
                    }
                } else {
                    Action::Stop
                }
            },
            Event::WriteFailed(m) => {
                if self.phase == Phase::Writing {
                    self.fail(TransferError::WriteError, m.as_str());
                }
                Action::Stop
            },
        }
    }
}

} // verus!
