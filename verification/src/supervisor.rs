//! The ingestion supervisor, as a pure state machine.
//!
//! The supervisor owns one external log-producing process and drives a read
//! loop over its standard output: poll the cancellation signal, read one
//! line, parse it, emit the record. All decisions of that loop live here as
//! the total transition function [`step`]; the surrounding runtime only
//! performs the action that `step` demands (read, emit, yield, kill) and
//! hands the observed outcome back as the next event.
//!
//! States: `Running` (reading lines), `Draining` (a kill of the subprocess
//! is owed before the loop may return), `Stopped` (terminal, no further
//! read). The `fatal` flag records whether the run must be reported as a
//! failure once stopped.

use vstd::prelude::*;

use crate::logcat_line::LogcatLine;
use crate::logcat_line::LogcatLineModel;
use crate::logcat_line::spec_parse;

verus! {

/// Supervisor control state.
#[derive(Clone, Copy, Debug, Eq, PartialEq, Structural)]
pub enum SupState {
    /// Reading lines from the live subprocess.
    Running,
    /// Shutdown begun: the subprocess must still be killed.
    Draining { fatal: bool },
    /// Terminal: no further event is admitted.
    Stopped { fatal: bool },
}

/// One observation handed to the supervisor by its runtime.
#[derive(Debug, Eq, PartialEq)]
pub enum SupEvent {
    /// The cancellation signal was observed closed at a poll.
    CancelClosed,
    /// A blocking read yielded a non-empty line.
    LineRead(String),
    /// A read yielded no bytes and the exit probe reported the process gone.
    NoDataExited,
    /// A read yielded no bytes but the process is still alive.
    NoDataStillRunning,
    /// A read yielded no bytes and the exit probe itself failed.
    NoDataProbeFailed,
    /// The demanded kill of the subprocess succeeded.
    KillOk,
    /// The demanded kill of the subprocess failed.
    KillFailed,
}

/// What the runtime must do next.
#[derive(Debug, Eq, PartialEq)]
pub enum SupAction {
    /// Deliver this record to the telemetry sink, yield, then read on.
    Emit(LogcatLine),
    /// The line did not match the grammar: discard it and read on.
    Discard,
    /// No data and the process is alive: yield, then read on.
    Yield,
    /// Kill the subprocess and report the outcome as the next event.
    Kill,
    /// The loop is finished; the run ends cleanly.
    Finish,
    /// The loop is finished; the run must be reported as failed.
    Fail,
}

/// Mathematical image of a [`SupEvent`].
pub ghost enum SupEventModel {
    CancelClosed,
    LineRead(Seq<char>),
    NoDataExited,
    NoDataStillRunning,
    NoDataProbeFailed,
    KillOk,
    KillFailed,
}

/// Mathematical image of a [`SupAction`].
pub ghost enum SupActionModel {
    Emit(LogcatLineModel),
    Discard,
    Yield,
    Kill,
    Finish,
    Fail,
}

impl View for SupEvent {
    type V = SupEventModel;

    open spec fn view(&self) -> SupEventModel {
        match self {
            SupEvent::CancelClosed => SupEventModel::CancelClosed,
            SupEvent::LineRead(line) => SupEventModel::LineRead(line@),
            SupEvent::NoDataExited => SupEventModel::NoDataExited,
            SupEvent::NoDataStillRunning => SupEventModel::NoDataStillRunning,
            SupEvent::NoDataProbeFailed => SupEventModel::NoDataProbeFailed,
            SupEvent::KillOk => SupEventModel::KillOk,
            SupEvent::KillFailed => SupEventModel::KillFailed,
        }
    }
}

impl View for SupAction {
    type V = SupActionModel;

    open spec fn view(&self) -> SupActionModel {
        match self {
            SupAction::Emit(line) => SupActionModel::Emit(line@),
            SupAction::Discard => SupActionModel::Discard,
            SupAction::Yield => SupActionModel::Yield,
            SupAction::Kill => SupActionModel::Kill,
            SupAction::Finish => SupActionModel::Finish,
            SupAction::Fail => SupActionModel::Fail,
        }
    }
}

/// Which events a state can observe. `Running` sees polls and reads;
/// `Draining` sees only the outcome of the kill it demanded; `Stopped` is
/// terminal and sees nothing — in particular, no further read.
pub open spec fn event_admitted(st: SupState, ev: SupEventModel) -> bool {
    match st {
        SupState::Running => !(ev is KillOk) && !(ev is KillFailed),
        SupState::Draining { .. } => ev is KillOk || ev is KillFailed,
        SupState::Stopped { .. } => false,
    }
}

/// The successor state of one observation.
pub open spec fn spec_next(st: SupState, ev: SupEventModel) -> SupState {
    match (st, ev) {
        (SupState::Running, SupEventModel::CancelClosed) => SupState::Draining { fatal: false },
        (SupState::Running, SupEventModel::LineRead(_)) => SupState::Running,
        (SupState::Running, SupEventModel::NoDataExited) => SupState::Stopped { fatal: false },
        (SupState::Running, SupEventModel::NoDataStillRunning) => SupState::Running,
        (SupState::Running, SupEventModel::NoDataProbeFailed) => SupState::Draining {
            fatal: true,
        },
        (SupState::Draining { fatal }, SupEventModel::KillOk) => SupState::Stopped { fatal },
        (SupState::Draining { .. }, SupEventModel::KillFailed) => SupState::Stopped {
            fatal: true,
        },
        (_, _) => st,
    }
}

/// The action one observation demands of the runtime.
pub open spec fn spec_action(st: SupState, ev: SupEventModel) -> SupActionModel {
    match (st, ev) {
        (SupState::Running, SupEventModel::CancelClosed) => SupActionModel::Kill,
        (SupState::Running, SupEventModel::LineRead(line)) => match spec_parse(line) {
            Some(rec) => SupActionModel::Emit(rec),
            None => SupActionModel::Discard,
        },
        (SupState::Running, SupEventModel::NoDataExited) => SupActionModel::Finish,
        (SupState::Running, SupEventModel::NoDataStillRunning) => SupActionModel::Yield,
        (SupState::Running, SupEventModel::NoDataProbeFailed) => SupActionModel::Kill,
        (SupState::Draining { fatal }, SupEventModel::KillOk) => if fatal {
            SupActionModel::Fail
        } else {
            SupActionModel::Finish
        },
        (SupState::Draining { .. }, SupEventModel::KillFailed) => SupActionModel::Fail,
        (_, _) => SupActionModel::Finish,
    }
}

/// One transition of the supervisor: from the current state and the
/// observed event, the next state and the demanded action. A well-formed
/// line read in `Running` is emitted as its record; a malformed one is
/// discarded and the loop goes on.
pub fn step(state: SupState, event: SupEvent) -> (r: (SupState, SupAction))
    requires
        event_admitted(state, event@),
    ensures
        r.0 == spec_next(state, event@),
        r.1@ == spec_action(state, event@),
{
    match (state, event) {
        (SupState::Running, SupEvent::CancelClosed) => (
            SupState::Draining { fatal: false },
            SupAction::Kill,
        ),
        (SupState::Running, SupEvent::LineRead(line)) => match LogcatLine::from_str(
            line.as_str(),
        ) {
            Ok(rec) => (SupState::Running, SupAction::Emit(rec)),
            Err(_) => (SupState::Running, SupAction::Discard),
        },
        (SupState::Running, SupEvent::NoDataExited) => (
            SupState::Stopped { fatal: false },
            SupAction::Finish,
        ),
        (SupState::Running, SupEvent::NoDataStillRunning) => (SupState::Running, SupAction::Yield),
        (SupState::Running, SupEvent::NoDataProbeFailed) => (
            SupState::Draining { fatal: true },
            SupAction::Kill,
        ),
        (SupState::Draining { fatal }, SupEvent::KillOk) => (
            SupState::Stopped { fatal },
            if fatal {
                SupAction::Fail
            } else {
                SupAction::Finish
            },
        ),
        (SupState::Draining { .. }, SupEvent::KillFailed) => (
            SupState::Stopped { fatal: true },
            SupAction::Fail,
        ),
        (_, _) => (SupState::Stopped { fatal: true }, SupAction::Fail),
    }
}

/// `Stopped` is terminal: it admits no event at all, so once the loop has
/// stopped no further read (nor any other observation) can drive it.
pub proof fn lemma_stopped_terminal(st: SupState, ev: SupEventModel)
    requires
        st is Stopped,
    ensures
        !event_admitted(st, ev),
{
}

/// The state reached after observing a whole sequence of events.
pub open spec fn run_state(st: SupState, evs: Seq<SupEventModel>) -> SupState
    decreases evs.len(),
{
    if evs.len() == 0 {
        st
    } else {
        run_state(spec_next(st, evs[0]), evs.drop_first())
    }
}

/// Whether every event of the sequence is admitted in the state it meets.
pub open spec fn run_admitted(st: SupState, evs: Seq<SupEventModel>) -> bool
    decreases evs.len(),
{
    if evs.len() == 0 {
        true
    } else {
        event_admitted(st, evs[0]) && run_admitted(spec_next(st, evs[0]), evs.drop_first())
    }
}

/// How many of the demanded actions along a run are kills.
pub open spec fn kill_count(st: SupState, evs: Seq<SupEventModel>) -> nat
    decreases evs.len(),
{
    if evs.len() == 0 {
        0
    } else {
        (if spec_action(st, evs[0]) is Kill {
            1nat
        } else {
            0nat
        }) + kill_count(spec_next(st, evs[0]), evs.drop_first())
    }
}

/// Once the supervisor has left `Running`, it never demands another kill.
pub proof fn lemma_no_kill_after_running(st: SupState, evs: Seq<SupEventModel>)
    requires
        run_admitted(st, evs),
        !(st is Running),
    ensures
        kill_count(st, evs) == 0,
    decreases evs.len(),
{
    if evs.len() > 0 {
        lemma_no_kill_after_running(spec_next(st, evs[0]), evs.drop_first());
    }
}

/// Along any admitted run the supervisor demands the kill of its subprocess
/// at most once: a kill is demanded only when leaving `Running`, and every
/// state after that is `Draining` or `Stopped`.
pub proof fn lemma_kill_at_most_once(st: SupState, evs: Seq<SupEventModel>)
    requires
        run_admitted(st, evs),
    ensures
        kill_count(st, evs) <= 1,
    decreases evs.len(),
{
    if evs.len() > 0 {
        if spec_action(st, evs[0]) is Kill {
            lemma_no_kill_after_running(spec_next(st, evs[0]), evs.drop_first());
        } else {
            lemma_kill_at_most_once(spec_next(st, evs[0]), evs.drop_first());
        }
    }
}

} // verus!
