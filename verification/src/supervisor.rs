//! The lifecycle of the one supervised process: the slot that holds its
//! handle, the bounded wait for its health, and what each command answers.

use vstd::prelude::*;
use vstd::string::*;
use crate::logtail::{no_log_text, read_log_tail, tail_of, BOOT_TAIL_LINES};
use crate::runtime::{spawn_error_text, SpawnError};
use crate::text::{contains_seq, contains_text, decimal, decimal_text, lossy_text, utf8_lossy};

verus! {

/// The loopback port on which the backend serves.
pub const ENGINE_PORT: u16 = 8765;

/// How long a start waits for the backend's health, in milliseconds.
pub const HEALTH_WAIT_MILLIS: u64 = 12000;

/// How long the wait rests between two rounds, in milliseconds.
pub const POLL_INTERVAL_MILLIS: u64 = 500;

/// What a non-blocking look at the process found.
#[derive(Debug, Clone, PartialEq, Eq)]
pub enum ExitCheck {
    /// It is still running.
    Running,
    /// It has exited, with this status as text.
    Exited(String),
    /// The look itself failed, with this error as text.
    Failed(String),
}

/// How a start ended.
#[derive(Debug, Clone, PartialEq, Eq)]
pub enum StartOutcome {
    /// The backend answered its health check.
    Healthy,
    /// The wait ran out while the process was alive and silent.
    Unconfirmed,
    /// The process exited before it became healthy, with this status.
    ExitedEarly(String),
    /// The process could not be looked at, with this error.
    CheckFailed(String),
}

/// What the wait asks of its caller next.
#[derive(Debug, Clone, Copy, PartialEq, Eq)]
pub enum PollState {
    /// Tell how long the wait has lasted.
    ReadClock,
    /// Look whether the process has exited.
    CheckExit,
    /// Probe the port.
    ProbePort,
    /// Fetch the health page.
    FetchHealth,
    /// Rest for one interval.
    Pause,
}

/// What a health request came back with.
#[derive(Debug, Clone, PartialEq, Eq)]
pub struct HealthReply {
    /// Whether the request ended well: the backend was reached and answered
    /// with a status of success.
    pub success: bool,
    /// The bytes of the answer's body.
    pub output: Vec<u8>,
    /// The bytes that the request wrote about what went wrong.
    pub complaint: Vec<u8>,
}

/// The caller's answer to what the wait asked.
#[derive(Debug, Clone, PartialEq, Eq)]
pub enum PollEvent {
    /// The wait has lasted this many milliseconds.
    Elapsed(u64),
    /// The look at the process gave this.
    Exit(ExitCheck),
    /// Whether the port accepts connections.
    Port(bool),
    /// What the health request came back with, or nothing where it could
    /// not be made.
    Health(Option<HealthReply>),
    /// The rest is over.
    Paused,
}

/// One step of the wait.
#[derive(Debug, Clone, PartialEq, Eq)]
pub enum PollStep {
    /// The wait goes on with this request.
    Continue(PollState),
    /// The wait is over.
    Finish(StartOutcome),
}

/// The mark of a healthy backend in the body of its health page.
pub open spec fn health_marker() -> Seq<char> {
    "healthy"@
}

/// A body that holds the mark anywhere counts as healthy.
pub open spec fn is_healthy(body: Seq<char>) -> bool {
    contains_seq(body, health_marker())
}

/// Whether a health page's body shows a healthy backend.
pub fn is_healthy_body(body: &str) -> (ok: bool)
    ensures
        ok == is_healthy(body@),
{
    contains_text(body, "healthy")
}

/// An answer confirms health only where the request ended with a status of
/// success and the body holds the mark.
pub open spec fn confirms_health(success: bool, body: Seq<char>) -> bool {
    success && is_healthy(body)
}

/// Whether an answer with this body confirms health.
pub fn is_healthy_answer(success: bool, body: &str) -> (ok: bool)
    ensures
        ok == confirms_health(success, body@),
{
    success && is_healthy_body(body)
}

/// The step that the wait takes from `state` on `event`. Each round looks at
/// the clock, then at the process, then at the port, then at the health
/// page, and rests. An answer to a question that was not asked changes
/// nothing.
pub open spec fn poll_step(state: PollState, event: PollEvent) -> PollStep {
    match (state, event) {
        (PollState::ReadClock, PollEvent::Elapsed(millis)) => if millis < HEALTH_WAIT_MILLIS {
            PollStep::Continue(PollState::CheckExit)
        } else {
            PollStep::Finish(StartOutcome::Unconfirmed)
        },
        (PollState::CheckExit, PollEvent::Exit(ExitCheck::Running)) => PollStep::Continue(
            PollState::ProbePort,
        ),
        (PollState::CheckExit, PollEvent::Exit(ExitCheck::Exited(status))) => PollStep::Finish(
            StartOutcome::ExitedEarly(status),
        ),
        (PollState::CheckExit, PollEvent::Exit(ExitCheck::Failed(error))) => PollStep::Finish(
            StartOutcome::CheckFailed(error),
        ),
        (PollState::ProbePort, PollEvent::Port(occupied)) => if occupied {
            PollStep::Continue(PollState::FetchHealth)
        } else {
            PollStep::Continue(PollState::Pause)
        },
        (PollState::FetchHealth, PollEvent::Health(Some(reply))) => if confirms_health(
            reply.success,
            utf8_lossy(reply.output@),
        ) {
            PollStep::Finish(StartOutcome::Healthy)
        } else {
            PollStep::Continue(PollState::Pause)
        },
        (PollState::FetchHealth, PollEvent::Health(None)) => PollStep::Continue(PollState::Pause),
        (PollState::Pause, PollEvent::Paused) => PollStep::Continue(PollState::ReadClock),
        (waiting, _) => PollStep::Continue(waiting),
    }
}

/// The request with which every wait begins.
pub fn poll_start() -> (state: PollState)
    ensures
        state == PollState::ReadClock,
{
    PollState::ReadClock
}

/// Takes one step of the wait.
pub fn poll_next(state: PollState, event: PollEvent) -> (step: PollStep)
    ensures
        step == poll_step(state, event),
{
    match state {
        PollState::ReadClock => match event {
            PollEvent::Elapsed(millis) => {
                if millis < HEALTH_WAIT_MILLIS {
                    PollStep::Continue(PollState::CheckExit)
                } else {
                    PollStep::Finish(StartOutcome::Unconfirmed)
                }
            },
            _ => PollStep::Continue(state),
        },
        PollState::CheckExit => match event {
            PollEvent::Exit(ExitCheck::Running) => PollStep::Continue(PollState::ProbePort),
            PollEvent::Exit(ExitCheck::Exited(status)) => PollStep::Finish(
                StartOutcome::ExitedEarly(status),
            ),
            PollEvent::Exit(ExitCheck::Failed(error)) => PollStep::Finish(
                StartOutcome::CheckFailed(error),
            ),
            _ => PollStep::Continue(state),
        },
        PollState::ProbePort => match event {
            PollEvent::Port(occupied) => {
                if occupied {
                    PollStep::Continue(PollState::FetchHealth)
                } else {
                    PollStep::Continue(PollState::Pause)
                }
            },
            _ => PollStep::Continue(state),
        },
        PollState::FetchHealth => match event {
            PollEvent::Health(Some(reply)) => {
                let text = lossy_text(&reply.output);
                if is_healthy_answer(reply.success, text.as_str()) {
                    PollStep::Finish(StartOutcome::Healthy)
                } else {
                    PollStep::Continue(PollState::Pause)
                }
            },
            PollEvent::Health(None) => PollStep::Continue(PollState::Pause),
            _ => PollStep::Continue(state),
        },
        PollState::Pause => match event {
            PollEvent::Paused => PollStep::Continue(PollState::ReadClock),
            _ => PollStep::Continue(state),
        },
    }
}

/// What a start asks of its caller next.
#[derive(Debug, Clone, Copy, PartialEq, Eq)]
pub enum StartState {
    /// Kill the process that was held, under this identifier, and wait for
    /// its exit.
    Terminate(u32),
    /// Probe the port, before anything is spawned.
    ProbeBefore,
    /// Kill whatever occupies the port, and let it settle.
    Reclaim,
    /// Probe the port once more.
    ProbeAfter,
    /// Spawn the backend.
    Spawn,
    /// Wait for the health of the process spawned under this identifier.
    Wait(u32, PollState),
}

/// The caller's answer to what the start asked.
#[derive(Debug, PartialEq, Eq)]
pub enum StartEvent {
    /// The process that was held has exited.
    Terminated,
    /// Whether the port accepts connections.
    Port(bool),
    /// The occupants of the port were killed, as far as that went.
    Reclaimed,
    /// The backend runs under this identifier, or could not be spawned.
    Spawned(Result<u32, SpawnError>),
    /// An answer to what the wait asked.
    Wait(PollEvent),
}

/// How a start ended.
#[derive(Debug, Clone, PartialEq, Eq)]
pub enum StartEnd {
    /// No process was spawned.
    NotSpawned(SpawnError),
    /// A process was spawned under `pid`, and the wait for it ended with
    /// `outcome`.
    Spawned { pid: u32, outcome: StartOutcome },
}

/// One step of a start.
#[derive(Debug, Clone, PartialEq, Eq)]
pub enum StartStep {
    /// The start goes on with this request.
    Continue(StartState),
    /// The start is over.
    Finish(StartEnd),
}

/// The request with which a start begins, given what the slot held: a
/// process that was held is terminated first.
pub open spec fn start_entry(held: Option<u32>) -> StartState {
    match held {
        Some(pid) => StartState::Terminate(pid),
        None => StartState::ProbeBefore,
    }
}

/// The step that a start takes from `state` on `event`. The process that
/// was held is terminated; the port is probed and, only where it is
/// occupied, reclaimed and probed again, after which the start goes on
/// whatever the second probe found; the backend is spawned; then the wait
/// runs. An answer to a question that was not asked changes nothing.
pub open spec fn start_step(state: StartState, event: StartEvent) -> StartStep {
    match (state, event) {
        (StartState::Terminate(_), StartEvent::Terminated) => StartStep::Continue(
            StartState::ProbeBefore,
        ),
        (StartState::ProbeBefore, StartEvent::Port(occupied)) => if occupied {
            StartStep::Continue(StartState::Reclaim)
        } else {
            StartStep::Continue(StartState::Spawn)
        },
        (StartState::Reclaim, StartEvent::Reclaimed) => StartStep::Continue(
            StartState::ProbeAfter,
        ),
        (StartState::ProbeAfter, StartEvent::Port(_)) => StartStep::Continue(StartState::Spawn),
        (StartState::Spawn, StartEvent::Spawned(Ok(pid))) => StartStep::Continue(
            StartState::Wait(pid, PollState::ReadClock),
        ),
        (StartState::Spawn, StartEvent::Spawned(Err(error))) => StartStep::Finish(
            StartEnd::NotSpawned(error),
        ),
        (StartState::Wait(pid, waiting), StartEvent::Wait(answer)) => match poll_step(
            waiting,
            answer,
        ) {
            PollStep::Continue(next) => StartStep::Continue(StartState::Wait(pid, next)),
            PollStep::Finish(outcome) => StartStep::Finish(StartEnd::Spawned { pid, outcome }),
        },
        (asking, _) => StartStep::Continue(asking),
    }
}

/// Takes one step of a start.
pub fn start_next(state: StartState, event: StartEvent) -> (step: StartStep)
    ensures
        step == start_step(state, event),
{
    match state {
        StartState::Terminate(_) => match event {
            StartEvent::Terminated => StartStep::Continue(StartState::ProbeBefore),
            _ => StartStep::Continue(state),
        },
        StartState::ProbeBefore => match event {
            StartEvent::Port(occupied) => {
                if occupied {
                    StartStep::Continue(StartState::Reclaim)
                } else {
                    StartStep::Continue(StartState::Spawn)
                }
            },
            _ => StartStep::Continue(state),
        },
        StartState::Reclaim => match event {
            StartEvent::Reclaimed => StartStep::Continue(StartState::ProbeAfter),
            _ => StartStep::Continue(state),
        },
        StartState::ProbeAfter => match event {
            StartEvent::Port(_) => StartStep::Continue(StartState::Spawn),
            _ => StartStep::Continue(state),
        },
        StartState::Spawn => match event {
            StartEvent::Spawned(Ok(pid)) => StartStep::Continue(
                StartState::Wait(pid, poll_start()),
            ),
            StartEvent::Spawned(Err(error)) => StartStep::Finish(StartEnd::NotSpawned(error)),
            _ => StartStep::Continue(state),
        },
        StartState::Wait(pid, waiting) => match event {
            StartEvent::Wait(answer) => match poll_next(waiting, answer) {
                PollStep::Continue(next) => StartStep::Continue(StartState::Wait(pid, next)),
                PollStep::Finish(outcome) => StartStep::Finish(StartEnd::Spawned { pid, outcome }),
            },
            _ => StartStep::Continue(state),
        },
    }
}

/// The answer to a start that left a process running.
pub open spec fn started_text(pid: u32) -> Seq<char> {
    "Engine started (pid "@ + decimal(pid as nat) + ")"@
}

/// The error of a start whose process exited at once.
pub open spec fn early_exit_text(status: Seq<char>, tail: Seq<char>) -> Seq<char> {
    "Engine exited immediately with status: "@ + status + ".\nLast log lines:\n"@ + tail
}

/// The error of a start whose process could not be looked at.
pub open spec fn check_failed_text(error: Seq<char>) -> Seq<char> {
    "Failed to check engine status: "@ + error
}

/// The error of a stop whose process could not be killed.
pub open spec fn kill_failed_text(error: Seq<char>) -> Seq<char> {
    "Failed to kill engine: "@ + error
}

/// The tail of the boot log that an early exit is reported with.
pub open spec fn boot_tail(log: Option<&str>) -> Seq<char> {
    match log {
        Some(content) => tail_of(content@, BOOT_TAIL_LINES as nat),
        None => no_log_text(),
    }
}

/// What a start answers: the message on success, the error on failure.
pub open spec fn start_answer(end: StartEnd, log: Option<&str>) -> Result<Seq<char>, Seq<char>> {
    match end {
        StartEnd::NotSpawned(error) => Err(spawn_error_text(error)),
        StartEnd::Spawned { pid, outcome } => match outcome {
            StartOutcome::Healthy => Ok(started_text(pid)),
            StartOutcome::Unconfirmed => Ok(started_text(pid)),
            StartOutcome::ExitedEarly(status) => Err(early_exit_text(status@, boot_tail(log))),
            StartOutcome::CheckFailed(error) => Err(check_failed_text(error@)),
        },
    }
}

/// The end of a start whose process exited before it was healthy.
pub open spec fn early_exit(pid: u32, status: String) -> StartEnd {
    StartEnd::Spawned { pid, outcome: StartOutcome::ExitedEarly(status) }
}

/// What a stop answers.
pub open spec fn stop_answer(slot: Option<u32>, kill_error: Option<String>) -> Result<
    Seq<char>,
    Seq<char>,
> {
    match slot {
        None => Ok("No engine process to stop"@),
        Some(_) => match kill_error {
            None => Ok("Engine stopped"@),
            Some(error) => Err(kill_failed_text(error@)),
        },
    }
}

/// An answer by the characters of its text.
pub open spec fn answer_view(answer: Result<String, String>) -> Result<Seq<char>, Seq<char>> {
    match answer {
        Ok(text) => Ok(text@),
        Err(text) => Err(text@),
    }
}

/// Whether the process runs, and under which identifier it is or was known.
#[derive(Debug, Clone, Copy, PartialEq, Eq)]
pub struct Liveness {
    pub running: bool,
    pub pid: Option<u32>,
}

/// The slot that holds the identifier of the supervised process, at most
/// one at any time.
#[derive(Debug, Clone, Copy, PartialEq, Eq)]
pub struct Supervisor {
    pub slot: Option<u32>,
}

impl Supervisor {
    /// The supervisor once the slot has been cleared for a new start.
    pub open spec fn cleared(self) -> Supervisor {
        Supervisor { slot: None }
    }

    /// The supervisor once the process `pid` has been spawned: it holds
    /// that process, from before the wait for its health.
    pub open spec fn installed(self, pid: u32) -> Supervisor {
        Supervisor { slot: Some(pid) }
    }

    /// The supervisor once a start has ended. A process that exited early,
    /// or that could not be looked at, leaves the slot if it still holds
    /// it; in every other case the slot stays as it is.
    pub open spec fn after_start(self, end: StartEnd) -> Supervisor {
        match end {
            StartEnd::Spawned { pid, outcome } => if !Supervisor::leaves_process(outcome)
                && self.slot == Some(pid) {
                Supervisor { slot: None }
            } else {
                self
            },
            StartEnd::NotSpawned(_) => self,
        }
    }

    /// The supervisor once a stop has been answered: the slot is empty
    /// unless a process was held and the kill failed.
    pub open spec fn after_stop(self, kill_error: Option<String>) -> Supervisor {
        match kill_error {
            None => Supervisor { slot: None },
            Some(_) => self,
        }
    }

    /// Whether the wait ended with the process running.
    pub open spec fn leaves_process(outcome: StartOutcome) -> bool {
        outcome is Healthy || outcome is Unconfirmed
    }

    /// What a status query reports of the process, given a look at it.
    pub open spec fn liveness(self, check: ExitCheck) -> Liveness {
        match self.slot {
            None => Liveness { running: false, pid: None },
            Some(pid) => match check {
                ExitCheck::Running => Liveness { running: true, pid: Some(pid) },
                ExitCheck::Exited(_) => Liveness { running: false, pid: Some(pid) },
                ExitCheck::Failed(_) => Liveness { running: false, pid: None },
            },
        }
    }

    /// The supervisor once a status query has looked at the process: a
    /// process that has exited leaves the slot.
    pub open spec fn after_observe(self, check: ExitCheck) -> Supervisor {
        match check {
            ExitCheck::Exited(_) => Supervisor { slot: None },
            _ => self,
        }
    }

    /// A supervisor with an empty slot.
    pub fn new() -> (s: Supervisor)
        ensures
            s.slot is None,
    {
        Supervisor { slot: None }
    }

    /// Whether a process is held.
    pub fn is_holding(&self) -> (held: bool)
        ensures
            held == self.slot is Some,
    {
        self.slot.is_some()
    }

    /// Begins a start: clears the slot and hands out the first request. Where
    /// a process was held, that is to kill it and wait for its exit, before
    /// anything else is done.
    pub fn begin_start(&mut self) -> (state: StartState)
        ensures
            state == start_entry(old(self).slot),
            *final(self) == old(self).cleared(),
    {
        let previous = self.slot;
        self.slot = None;
        match previous {
            Some(pid) => StartState::Terminate(pid),
            None => StartState::ProbeBefore,
        }
    }

    /// Takes in the process that was just spawned, before the wait for its
    /// health begins, so that a status query sees it and another start
    /// terminates it. Hands out what the slot held, which is nothing unless
    /// another start got in between: the caller terminates that process.
    pub fn spawned(&mut self, pid: u32) -> (replaced: Option<u32>)
        ensures
            replaced == old(self).slot,
            *final(self) == old(self).installed(pid),
    {
        let replaced = self.slot;
        self.slot = Some(pid);
        replaced
    }

    /// Ends a start. A process that is healthy, or alive when the wait ran
    /// out, stays in the slot, and the answer names it. A process that
    /// exited early, or that could not be looked at, leaves the slot, and
    /// the answer is an error; for an early exit it holds the status and the
    /// last lines of the boot log `log` (a fixed notice where it could not
    /// be read). Where nothing was spawned the slot stays as it was and the
    /// answer is the reason.
    pub fn finish_start(&mut self, end: StartEnd, log: Option<&str>) -> (answer: Result<
        String,
        String,
    >)
        ensures
            answer_view(answer) == start_answer(end, log),
            *final(self) == old(self).after_start(end),
    {
        let (pid, outcome) = match end {
            StartEnd::NotSpawned(error) => {
                return Err(error.message());
            },
            StartEnd::Spawned { pid, outcome } => (pid, outcome),
        };
        match outcome {
            StartOutcome::Healthy | StartOutcome::Unconfirmed => {
                let mut text = String::from_str("Engine started (pid ");
                let digits = decimal_text(pid);
                text.append(digits.as_str());
                text.append(")");
                Ok(text)
            },
            StartOutcome::ExitedEarly(status) => {
                self.release(pid);
                let tail = read_log_tail(log, BOOT_TAIL_LINES);
                let mut text = String::from_str("Engine exited immediately with status: ");
                text.append(status.as_str());
                text.append(".\nLast log lines:\n");
                text.append(tail.as_str());
                Err(text)
            },
            StartOutcome::CheckFailed(error) => {
                self.release(pid);
                let mut text = String::from_str("Failed to check engine status: ");
                text.append(error.as_str());
                Err(text)
            },
        }
    }

    /// Empties the slot if it holds the process `pid`.
    fn release(&mut self, pid: u32)
        ensures
            *final(self) == (if old(self).slot == Some(pid) {
                Supervisor { slot: None }
            } else {
                *old(self)
            }),
    {
        match self.slot {
            Some(held) => {
                if held == pid {
                    self.slot = None;
                }
            },
            None => {},
        }
    }

    /// Answers a stop. With an empty slot there is nothing to stop, which is
    /// no error. With a process held, the caller has sent it the kill and
    /// passes the error of that, if any: without one the slot is cleared
    /// (the caller waits for the exit), with one the process stays held and
    /// the answer is the error.
    pub fn stop(&mut self, kill_error: Option<String>) -> (answer: Result<String, String>)
        ensures
            answer_view(answer) == stop_answer(old(self).slot, kill_error),
            *final(self) == old(self).after_stop(kill_error),
    {
        match self.slot {
            None => Ok(String::from_str("No engine process to stop")),
            Some(_) => match kill_error {
                None => {
                    self.slot = None;
                    Ok(String::from_str("Engine stopped"))
                },
                Some(error) => {
                    let mut text = String::from_str("Failed to kill engine: ");
                    text.append(error.as_str());
                    Err(text)
                },
            },
        }
    }

    /// Reports whether the process runs, given a fresh look at it, and
    /// releases a process that has exited. With an empty slot the look is
    /// not read.
    pub fn observe(&mut self, check: &ExitCheck) -> (live: Liveness)
        ensures
            live == old(self).liveness(*check),
            *final(self) == old(self).after_observe(*check),
    {
        match self.slot {
            None => Liveness { running: false, pid: None },
            Some(pid) => match check {
                ExitCheck::Running => Liveness { running: true, pid: Some(pid) },
                ExitCheck::Exited(_) => {
                    self.slot = None;
                    Liveness { running: false, pid: Some(pid) }
                },
                ExitCheck::Failed(_) => Liveness { running: false, pid: None },
            },
        }
    }
}


/// Two starts in a row never leave two processes held. The first start
/// installs its process when it is spawned and keeps it when the wait ends
/// with it running; the second start clears the slot and begins by
/// terminating exactly that process; after it the slot holds the second
/// process if that start left it running, and nothing otherwise.
pub proof fn lemma_restart_replaces(
    s: Supervisor,
    first: StartOutcome,
    first_pid: u32,
    second: StartOutcome,
    second_pid: u32,
)
    requires
        Supervisor::leaves_process(first),
    ensures
        s.cleared().slot is None,
        s.cleared().installed(first_pid).after_start(
            StartEnd::Spawned { pid: first_pid, outcome: first },
        ).slot == Some(first_pid),
        start_entry(Some(first_pid)) == StartState::Terminate(first_pid),
        s.cleared().installed(first_pid).after_start(
            StartEnd::Spawned { pid: first_pid, outcome: first },
        ).cleared().installed(second_pid).after_start(
            StartEnd::Spawned { pid: second_pid, outcome: second },
        ).slot == (if Supervisor::leaves_process(second) {
            Some(second_pid)
        } else {
            None
        }),
{
}

/// While a start waits for the health of its process, the slot holds that
/// process: a status query reports it as it finds it, and another start
/// begins by terminating it.
pub proof fn lemma_wait_holds_process(s: Supervisor, pid: u32)
    ensures
        s.cleared().installed(pid).slot == Some(pid),
        s.cleared().installed(pid).liveness(ExitCheck::Running) == (Liveness {
            running: true,
            pid: Some(pid),
        }),
        start_entry(s.cleared().installed(pid).slot) == StartState::Terminate(pid),
{
}

/// A health answer with a status that is no success never ends the wait,
/// whatever its body holds.
pub proof fn lemma_failed_answer_confirms_nothing(reply: HealthReply)
    requires
        !reply.success,
    ensures
        poll_step(PollState::FetchHealth, PollEvent::Health(Some(reply))) == PollStep::Continue(
            PollState::Pause,
        ),
{
}

/// While a start asks for the old process to be terminated, nothing but the
/// news of its exit moves the start on, and then the port is probed: no step
/// leads from there to a spawn. A spawn is asked for only after a probe of
/// the port.
pub proof fn lemma_spawn_follows_termination(state: StartState, event: StartEvent)
    ensures
        state is Terminate ==> start_step(state, event) == (if event is Terminated {
            StartStep::Continue(StartState::ProbeBefore)
        } else {
            StartStep::Continue(state)
        }),
        start_step(state, event) == StartStep::Continue(StartState::Spawn) && !(state is Spawn)
            ==> (state is ProbeBefore || state is ProbeAfter) && event is Port,
{
}

/// A process that exits while its start waits ends the start at once: it
/// leaves the slot, and the start fails with an error that is never empty
/// and holds the exit status, whatever the boot log holds.
pub proof fn lemma_early_exit_fails(s: Supervisor, pid: u32, status: String, log: Option<&str>)
    ensures
        s.installed(pid).after_start(early_exit(pid, status)).slot is None,
        poll_step(PollState::CheckExit, PollEvent::Exit(ExitCheck::Exited(status)))
            == PollStep::Finish(StartOutcome::ExitedEarly(status)),
        start_step(
            StartState::Wait(pid, PollState::CheckExit),
            StartEvent::Wait(PollEvent::Exit(ExitCheck::Exited(status))),
        ) == StartStep::Finish(early_exit(pid, status)),
        start_answer(early_exit(pid, status), log) is Err,
        start_answer(early_exit(pid, status), log)->Err_0.len() > 0,
        contains_seq(start_answer(early_exit(pid, status), log)->Err_0, status@),
        contains_seq(start_answer(early_exit(pid, status), log)->Err_0, "exited"@),
{
    let head = "Engine exited immediately with status: "@;
    let text = early_exit_text(status@, boot_tail(log));
    reveal_strlit("Engine exited immediately with status: ");
    reveal_strlit(".\nLast log lines:\n");
    reveal_strlit("exited");
    assert(text.subrange(head.len() as int, (head.len() + status@.len()) as int) =~= status@);
    assert(crate::text::occurs_at(text, status@, head.len() as int));
    assert(text.subrange(7, 13) =~= "exited"@);
    assert(crate::text::occurs_at(text, "exited"@, 7));
}

/// A wait that runs out is no failure: the start answers with the process
/// and the process takes the slot.
pub proof fn lemma_timeout_keeps_process(s: Supervisor, millis: u64, pid: u32, log: Option<&str>)
    requires
        millis >= HEALTH_WAIT_MILLIS,
    ensures
        start_step(
            StartState::Wait(pid, PollState::ReadClock),
            StartEvent::Wait(PollEvent::Elapsed(millis)),
        ) == StartStep::Finish(StartEnd::Spawned { pid, outcome: StartOutcome::Unconfirmed }),
        start_answer(StartEnd::Spawned { pid, outcome: StartOutcome::Unconfirmed }, log) == Ok::<
            Seq<char>,
            Seq<char>,
        >(started_text(pid)),
        s.installed(pid).after_start(
            StartEnd::Spawned { pid, outcome: StartOutcome::Unconfirmed },
        ).slot == Some(pid),
{
}

/// A port that is found free is left alone: the start goes straight on to
/// the spawn, and nothing is killed. A port that is found occupied is
/// reclaimed and probed again, and the start goes on whatever that probe
/// finds.
pub proof fn lemma_reclaim_only_when_occupied(occupied: bool, still_occupied: bool)
    ensures
        start_step(StartState::ProbeBefore, StartEvent::Port(occupied)) == StartStep::Continue(
            if occupied {
                StartState::Reclaim
            } else {
                StartState::Spawn
            },
        ),
        start_step(StartState::Reclaim, StartEvent::Reclaimed) == StartStep::Continue(
            StartState::ProbeAfter,
        ),
        start_step(StartState::ProbeAfter, StartEvent::Port(still_occupied))
            == StartStep::Continue(StartState::Spawn),
{
}

/// The place of a request in one round of the wait.
pub open spec fn round_place(state: PollState) -> int {
    match state {
        PollState::ReadClock => 0,
        PollState::CheckExit => 1,
        PollState::ProbePort => 2,
        PollState::FetchHealth => 3,
        PollState::Pause => 4,
    }
}

/// Whether `event` answers what `state` asks.
pub open spec fn answers(state: PollState, event: PollEvent) -> bool {
    match state {
        PollState::ReadClock => event is Elapsed,
        PollState::CheckExit => event is Exit,
        PollState::ProbePort => event is Port,
        PollState::FetchHealth => event is Health,
        PollState::Pause => event is Paused,
    }
}

/// The wait is bounded by the clock. An answer to what was asked ends the
/// wait or moves it forward within the round; only the rest at the end of a
/// round leads back to the clock; and at the clock the wait ends once the
/// limit is reached. So the clock is read again after at most five answers,
/// and there is no round after the limit.
pub proof fn lemma_wait_is_bounded(state: PollState, event: PollEvent)
    requires
        answers(state, event),
    ensures
        match poll_step(state, event) {
            PollStep::Finish(_) => true,
            PollStep::Continue(next) => if state is Pause {
                next is ReadClock
            } else {
                round_place(next) > round_place(state)
            },
        },
        state is ReadClock && event->Elapsed_0 >= HEALTH_WAIT_MILLIS ==> poll_step(state, event)
            is Finish,
{
}

/// The wait ends in failure only on a look at the process that did not find
/// it running.
pub proof fn lemma_failure_needs_exit(state: PollState, event: PollEvent)
    requires
        poll_step(state, event) matches PollStep::Finish(outcome) && !Supervisor::leaves_process(
            outcome,
        ),
    ensures
        state == PollState::CheckExit,
        event matches PollEvent::Exit(check) && !(check is Running),
{
}

/// A start fails only where the backend could not be spawned, where it
/// exited before it was healthy, or where it could not be looked at. The
/// boot log is never a reason: whether it could be read changes the text of
/// an early exit's error and nothing else.
pub proof fn lemma_start_fails_only_for_cause(end: StartEnd, log: Option<&str>)
    ensures
        start_answer(end, log) is Err <==> (match end {
            StartEnd::NotSpawned(_) => true,
            StartEnd::Spawned { pid, outcome } => !Supervisor::leaves_process(outcome),
        }),
        start_answer(end, log) is Err <==> start_answer(end, None) is Err,
{
}

/// A stop that follows a stop that did not fail finds nothing to stop, and
/// says so without an error.
pub proof fn lemma_second_stop_is_idle(s: Supervisor, kill_error: Option<String>)
    ensures
        stop_answer(s.after_stop(None).slot, kill_error) == Ok::<Seq<char>, Seq<char>>(
            "No engine process to stop"@,
        ),
        s.after_stop(None).after_stop(kill_error) == s.after_stop(None),
{
}

} // verus!
