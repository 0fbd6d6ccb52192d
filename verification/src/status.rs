//! The snapshot that a status query answers with: liveness, a fresh health
//! probe and the tail of the boot log, side by side.

use vstd::prelude::*;
use crate::logtail::{no_log_text, read_log_tail, tail_of, STATUS_TAIL_LINES};
use crate::supervisor::{
    confirms_health, is_healthy_answer, ExitCheck, HealthReply, Liveness, Supervisor,
};
use crate::text::{lossy_text, text_view, utf8_lossy};

verus! {

/// What one health probe found.
#[derive(Debug, Clone, PartialEq, Eq)]
pub struct HealthSnapshot {
    /// The backend answered and the answer shows it healthy.
    pub reachable: bool,
    /// The body of the answer, where there was one.
    pub body: Option<String>,
    /// What the probe complained of, where it did not show health.
    pub error: Option<String>,
}

/// The answer to a status query.
#[derive(Debug, Clone, PartialEq, Eq)]
pub struct EngineStatus {
    pub running: bool,
    pub pid: Option<u32>,
    pub health_ok: bool,
    pub health_body: Option<String>,
    pub health_error: Option<String>,
    pub log_tail: String,
    pub log_path: String,
}

/// Judges a probe that was answered with `body`, with `complaint` on its
/// error stream: healthy where the status was a success and the body holds
/// the mark, and then without an error; else with the complaint as the
/// error.
pub fn judge_health(success: bool, body: String, complaint: String) -> (snap: HealthSnapshot)
    ensures
        snap.reachable == confirms_health(success, body@),
        snap.body == Some(body),
        snap.reachable ==> snap.error is None,
        !snap.reachable ==> snap.error == Some(complaint),
{
    if is_healthy_answer(success, body.as_str()) {
        HealthSnapshot { reachable: true, body: Some(body), error: None }
    } else {
        HealthSnapshot { reachable: false, body: Some(body), error: Some(complaint) }
    }
}

/// Whether a health of `ok`, `body` and `error` is what the probe `fetch`
/// found. A probe that was answered holds whether the status was a success
/// and the bytes of the body and of the error stream: the body is reported
/// as text, health holds only on success with the mark in the body, and the
/// error stream is reported only where health does not hold. A probe that
/// could not be made at all holds its error: then there is no health and no
/// body, and that error is reported.
pub open spec fn describes(
    ok: bool,
    body: Option<String>,
    error: Option<String>,
    fetch: Result<HealthReply, String>,
) -> bool {
    match fetch {
        Ok(reply) => {
            &&& ok == confirms_health(reply.success, utf8_lossy(reply.output@))
            &&& text_view(body) == Some(utf8_lossy(reply.output@))
            &&& text_view(error) == (if ok {
                None
            } else {
                Some(utf8_lossy(reply.complaint@))
            })
        },
        Err(failure) => {
            &&& !ok
            &&& body is None
            &&& error == Some(failure)
        },
    }
}

/// The snapshot of one probe.
pub fn health_snapshot(fetch: Result<HealthReply, String>) -> (snap: HealthSnapshot)
    ensures
        describes(snap.reachable, snap.body, snap.error, fetch),
{
    match fetch {
        Ok(reply) => {
            let body = lossy_text(&reply.output);
            let stderr = lossy_text(&reply.complaint);
            judge_health(reply.success, body, stderr)
        },
        Err(failure) => HealthSnapshot { reachable: false, body: None, error: Some(failure) },
    }
}

/// Puts a snapshot together: the liveness and the health as they were
/// found, neither corrected by the other, the last thirty lines of the boot
/// log `log` (a fixed notice where it could not be read), and the log's
/// path.
pub fn assemble_status(
    live: Liveness,
    health: HealthSnapshot,
    log: Option<&str>,
    log_path: String,
) -> (status: EngineStatus)
    ensures
        status.running == live.running,
        status.pid == live.pid,
        status.health_ok == health.reachable,
        status.health_body == health.body,
        status.health_error == health.error,
        status.log_path == log_path,
        status.log_tail@ == (match log {
            Some(content) => tail_of(content@, STATUS_TAIL_LINES as nat),
            None => no_log_text(),
        }),
{
    let log_tail = read_log_tail(log, STATUS_TAIL_LINES);
    EngineStatus {
        running: live.running,
        pid: live.pid,
        health_ok: health.reachable,
        health_body: health.body,
        health_error: health.error,
        log_tail,
        log_path,
    }
}

/// Answers a status query from three fresh observations: a look at the
/// process `check` (not read where none is held), a health probe `fetch`,
/// and the boot log `log`. Liveness and health are reported as each was
/// found, also where they disagree. A process that has exited leaves the
/// slot, and is still named in this answer.
pub fn engine_status(
    supervisor: &mut Supervisor,
    check: &ExitCheck,
    fetch: Result<HealthReply, String>,
    log: Option<&str>,
    log_path: String,
) -> (status: EngineStatus)
    ensures
        *final(supervisor) == old(supervisor).after_observe(*check),
        status.running == old(supervisor).liveness(*check).running,
        status.pid == old(supervisor).liveness(*check).pid,
        describes(status.health_ok, status.health_body, status.health_error, fetch),
        status.log_path == log_path,
        status.log_tail@ == (match log {
            Some(content) => tail_of(content@, STATUS_TAIL_LINES as nat),
            None => no_log_text(),
        }),
{
    let live = supervisor.observe(check);
    let health = health_snapshot(fetch);
    assemble_status(live, health, log, log_path)
}

/// After a stop that did not fail, a status query reports that nothing runs
/// and names no process, whatever a look at a process would have given.
pub proof fn lemma_status_after_stop(s: Supervisor, check: ExitCheck)
    ensures
        s.after_stop(None).liveness(check) == (Liveness { running: false, pid: None }),
        s.after_stop(None).after_observe(check).slot is None,
{
}

} // verus!
