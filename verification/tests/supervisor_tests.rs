use engine_supervisor::runtime::SpawnError;
use engine_supervisor::supervisor::{
    is_healthy_answer, is_healthy_body, poll_next, poll_start, start_next, ExitCheck,
    HealthReply, Liveness, PollEvent, PollState, PollStep, StartEnd, StartEvent, StartOutcome,
    StartState, StartStep, Supervisor, ENGINE_PORT, HEALTH_WAIT_MILLIS, POLL_INTERVAL_MILLIS,
};

fn page(success: bool, body: &[u8]) -> HealthReply {
    HealthReply { success, output: body.to_vec(), complaint: Vec::new() }
}

fn spawned(pid: u32, outcome: StartOutcome) -> StartEnd {
    StartEnd::Spawned { pid, outcome }
}

fn healthy_page() -> HealthReply {
    page(true, b"{\"status\":\"healthy\"}")
}

/// Runs the wait against a scripted process: `exit_at` is the round at
/// which it exits, `healthy_at` the round from which it answers.
fn run_wait(exit_at: Option<u32>, healthy_at: Option<u32>) -> (StartOutcome, u32) {
    let mut state = poll_start();
    let mut round: u32 = 0;
    let mut elapsed: u64 = 0;
    loop {
        let event = match state {
            PollState::ReadClock => PollEvent::Elapsed(elapsed),
            PollState::CheckExit => match exit_at {
                Some(at) if round >= at => {
                    PollEvent::Exit(ExitCheck::Exited("exit status: 1".to_string()))
                }
                _ => PollEvent::Exit(ExitCheck::Running),
            },
            PollState::ProbePort => PollEvent::Port(matches!(healthy_at, Some(at) if round >= at)),
            PollState::FetchHealth => PollEvent::Health(Some(healthy_page())),
            PollState::Pause => {
                elapsed += POLL_INTERVAL_MILLIS;
                round += 1;
                PollEvent::Paused
            }
        };
        match poll_next(state, event) {
            PollStep::Continue(next) => state = next,
            PollStep::Finish(outcome) => return (outcome, round),
        }
    }
}

#[test]
fn constants_of_the_wait() {
    assert_eq!(ENGINE_PORT, 8765);
    assert_eq!(HEALTH_WAIT_MILLIS, 12000);
    assert_eq!(POLL_INTERVAL_MILLIS, 500);
}

#[test]
fn healthy_body_is_a_substring_match() {
    assert!(is_healthy_body("{\"status\":\"healthy\"}"));
    assert!(is_healthy_body("unhealthy"));
    assert!(!is_healthy_body("{\"status\":\"starting\"}"));
    assert!(!is_healthy_body(""));
}

#[test]
fn wait_begins_with_the_clock() {
    assert_eq!(poll_start(), PollState::ReadClock);
}

#[test]
fn wait_steps_in_order() {
    assert_eq!(
        poll_next(PollState::ReadClock, PollEvent::Elapsed(0)),
        PollStep::Continue(PollState::CheckExit)
    );
    assert_eq!(
        poll_next(PollState::CheckExit, PollEvent::Exit(ExitCheck::Running)),
        PollStep::Continue(PollState::ProbePort)
    );
    assert_eq!(
        poll_next(PollState::ProbePort, PollEvent::Port(true)),
        PollStep::Continue(PollState::FetchHealth)
    );
    assert_eq!(
        poll_next(PollState::ProbePort, PollEvent::Port(false)),
        PollStep::Continue(PollState::Pause)
    );
    assert_eq!(
        poll_next(PollState::FetchHealth, PollEvent::Health(None)),
        PollStep::Continue(PollState::Pause)
    );
    assert_eq!(
        poll_next(PollState::FetchHealth, PollEvent::Health(Some(page(true, b"starting")))),
        PollStep::Continue(PollState::Pause)
    );
    assert_eq!(
        poll_next(PollState::Pause, PollEvent::Paused),
        PollStep::Continue(PollState::ReadClock)
    );
}

#[test]
fn wait_ends_at_once_on_health() {
    assert_eq!(
        poll_next(PollState::FetchHealth, PollEvent::Health(Some(healthy_page()))),
        PollStep::Finish(StartOutcome::Healthy)
    );
}

#[test]
fn wait_ends_at_the_deadline() {
    assert_eq!(
        poll_next(PollState::ReadClock, PollEvent::Elapsed(11999)),
        PollStep::Continue(PollState::CheckExit)
    );
    assert_eq!(
        poll_next(PollState::ReadClock, PollEvent::Elapsed(12000)),
        PollStep::Finish(StartOutcome::Unconfirmed)
    );
    assert_eq!(
        poll_next(PollState::ReadClock, PollEvent::Elapsed(u64::MAX)),
        PollStep::Finish(StartOutcome::Unconfirmed)
    );
}

#[test]
fn wait_fails_on_exit_and_on_failed_look() {
    assert_eq!(
        poll_next(
            PollState::CheckExit,
            PollEvent::Exit(ExitCheck::Exited("exit status: 1".to_string()))
        ),
        PollStep::Finish(StartOutcome::ExitedEarly("exit status: 1".to_string()))
    );
    assert_eq!(
        poll_next(PollState::CheckExit, PollEvent::Exit(ExitCheck::Failed("boom".to_string()))),
        PollStep::Finish(StartOutcome::CheckFailed("boom".to_string()))
    );
}

#[test]
fn wait_ignores_answers_it_did_not_ask_for() {
    assert_eq!(
        poll_next(PollState::ReadClock, PollEvent::Paused),
        PollStep::Continue(PollState::ReadClock)
    );
    assert_eq!(
        poll_next(PollState::CheckExit, PollEvent::Elapsed(99999)),
        PollStep::Continue(PollState::CheckExit)
    );
    assert_eq!(
        poll_next(PollState::Pause, PollEvent::Health(Some(healthy_page()))),
        PollStep::Continue(PollState::Pause)
    );
    assert_eq!(
        poll_next(PollState::ProbePort, PollEvent::Exit(ExitCheck::Exited("1".to_string()))),
        PollStep::Continue(PollState::ProbePort)
    );
    assert_eq!(
        poll_next(PollState::FetchHealth, PollEvent::Port(true)),
        PollStep::Continue(PollState::FetchHealth)
    );
}

#[test]
fn start_of_a_backend_that_turns_healthy() {
    let (outcome, round) = run_wait(None, Some(3));
    assert_eq!(outcome, StartOutcome::Healthy);
    assert_eq!(round, 3);
    let mut s = Supervisor::new();
    assert_eq!(s.begin_start(), StartState::ProbeBefore);
    assert_eq!(s.spawned(4242), None);
    let answer = s.finish_start(spawned(4242, outcome), Some("ready\n"));
    assert_eq!(answer, Ok("Engine started (pid 4242)".to_string()));
    assert_eq!(s.slot, Some(4242));
}

#[test]
fn start_of_a_backend_that_exits_at_once() {
    let (outcome, round) = run_wait(Some(0), None);
    assert_eq!(outcome, StartOutcome::ExitedEarly("exit status: 1".to_string()));
    assert_eq!(round, 0);
    let mut s = Supervisor::new();
    assert_eq!(s.begin_start(), StartState::ProbeBefore);
    assert_eq!(s.spawned(4242), None);
    assert_eq!(s.slot, Some(4242));
    let answer = s.finish_start(spawned(4242, outcome), Some("Traceback\nImportError: no module\n"));
    let message = answer.unwrap_err();
    assert_eq!(
        message,
        "Engine exited immediately with status: exit status: 1.\nLast log lines:\nTraceback\nImportError: no module"
    );
    assert!(message.contains("exited"));
    assert!(message.contains("1"));
    assert_eq!(s.slot, None);
}

#[test]
fn early_exit_with_empty_log_still_names_status() {
    let mut s = Supervisor::new();
    let answer = s.finish_start(
        spawned(9, StartOutcome::ExitedEarly("exit status: 3".to_string())),
        Some(""),
    );
    assert_eq!(
        answer,
        Err("Engine exited immediately with status: exit status: 3.\nLast log lines:\n".to_string())
    );
    let answer =
        s.finish_start(spawned(9, StartOutcome::ExitedEarly("exit status: 3".to_string())), None);
    assert_eq!(
        answer,
        Err("Engine exited immediately with status: exit status: 3.\nLast log lines:\n(no log file found)"
            .to_string())
    );
}

#[test]
fn early_exit_reports_last_twenty_lines() {
    let mut log = String::new();
    for i in 0..30 {
        log.push_str(&format!("l{}\n", i));
    }
    let mut s = Supervisor::new();
    let message = s
        .finish_start(spawned(1, StartOutcome::ExitedEarly("exit status: 1".to_string())), Some(&log))
        .unwrap_err();
    let tail = message.split("Last log lines:\n").nth(1).unwrap();
    let lines: Vec<&str> = tail.split('\n').collect();
    assert_eq!(lines.len(), 20);
    assert_eq!(lines[0], "l10");
    assert_eq!(lines[19], "l29");
}

#[test]
fn start_of_a_slow_backend_is_no_failure() {
    let (outcome, round) = run_wait(None, None);
    assert_eq!(outcome, StartOutcome::Unconfirmed);
    assert_eq!(round, 24);
    let mut s = Supervisor::new();
    assert_eq!(s.spawned(77), None);
    let answer = s.finish_start(spawned(77, outcome), None);
    assert_eq!(answer, Ok("Engine started (pid 77)".to_string()));
    assert_eq!(s.slot, Some(77));
}

#[test]
fn failed_look_fails_the_start() {
    let mut s = Supervisor { slot: Some(5) };
    let answer = s.finish_start(spawned(6, StartOutcome::CheckFailed("EPERM".to_string())), None);
    assert_eq!(answer, Err("Failed to check engine status: EPERM".to_string()));
    assert_eq!(s.slot, Some(5));
    let answer = s.finish_start(spawned(5, StartOutcome::CheckFailed("EPERM".to_string())), None);
    assert_eq!(answer, Err("Failed to check engine status: EPERM".to_string()));
    assert_eq!(s.slot, None);
}

#[test]
fn second_start_terminates_the_first() {
    let mut s = Supervisor::new();
    assert!(!s.is_holding());
    assert_eq!(s.begin_start(), StartState::ProbeBefore);
    assert_eq!(s.spawned(100), None);
    assert_eq!(s.finish_start(spawned(100, StartOutcome::Healthy), None).is_ok(), true);
    assert!(s.is_holding());
    assert_eq!(s.slot, Some(100));
    assert_eq!(s.begin_start(), StartState::Terminate(100));
    assert_eq!(s.slot, None);
    assert_eq!(s.spawned(200), None);
    assert_eq!(
        s.finish_start(spawned(200, StartOutcome::Unconfirmed), None),
        Ok("Engine started (pid 200)".to_string())
    );
    assert_eq!(s.slot, Some(200));
}

#[test]
fn stop_of_a_held_process() {
    let mut s = Supervisor { slot: Some(11) };
    assert_eq!(s.stop(None), Ok("Engine stopped".to_string()));
    assert_eq!(s.slot, None);
}

#[test]
fn second_stop_finds_nothing() {
    let mut s = Supervisor { slot: Some(11) };
    assert_eq!(s.stop(None), Ok("Engine stopped".to_string()));
    assert_eq!(s.stop(None), Ok("No engine process to stop".to_string()));
    assert_eq!(s.slot, None);
}

#[test]
fn stop_with_nothing_held_is_no_error() {
    let mut s = Supervisor::new();
    assert_eq!(s.stop(None), Ok("No engine process to stop".to_string()));
    assert_eq!(s.stop(Some("ignored".to_string())), Ok("No engine process to stop".to_string()));
}

#[test]
fn failed_kill_keeps_the_process() {
    let mut s = Supervisor { slot: Some(11) };
    assert_eq!(
        s.stop(Some("Operation not permitted".to_string())),
        Err("Failed to kill engine: Operation not permitted".to_string())
    );
    assert_eq!(s.slot, Some(11));
}

#[test]
fn status_after_stop_names_no_process() {
    let mut s = Supervisor { slot: Some(11) };
    assert!(s.stop(None).is_ok());
    assert_eq!(s.observe(&ExitCheck::Running), Liveness { running: false, pid: None });
    assert_eq!(
        s.observe(&ExitCheck::Exited("exit status: 0".to_string())),
        Liveness { running: false, pid: None }
    );
}

#[test]
fn status_of_a_running_process() {
    let mut s = Supervisor { slot: Some(31) };
    assert_eq!(s.observe(&ExitCheck::Running), Liveness { running: true, pid: Some(31) });
    assert_eq!(s.slot, Some(31));
}

#[test]
fn status_of_an_exited_process_releases_it() {
    let mut s = Supervisor { slot: Some(31) };
    assert_eq!(
        s.observe(&ExitCheck::Exited("exit status: 0".to_string())),
        Liveness { running: false, pid: Some(31) }
    );
    assert_eq!(s.slot, None);
    assert_eq!(s.observe(&ExitCheck::Running), Liveness { running: false, pid: None });
}

#[test]
fn status_of_a_process_that_cannot_be_looked_at() {
    let mut s = Supervisor { slot: Some(31) };
    assert_eq!(
        s.observe(&ExitCheck::Failed("EPERM".to_string())),
        Liveness { running: false, pid: None }
    );
    assert_eq!(s.slot, Some(31));
}

/// A scripted machine: what the port, the spawn and the backend do.
struct World {
    occupied_before: bool,
    occupied_after: bool,
    spawn: Result<u32, SpawnError>,
    exit_at: Option<u32>,
    healthy_at: Option<u32>,
}

/// Runs a whole start against the world and records what was asked.
fn run_start(first: StartState, world: World) -> (StartEnd, Vec<StartState>) {
    let mut asked = Vec::new();
    let mut state = first;
    let mut round: u32 = 0;
    let mut elapsed: u64 = 0;
    loop {
        if !matches!(state, StartState::Wait(_, _)) {
            asked.push(state);
        }
        let event = match state {
            StartState::Terminate(_) => StartEvent::Terminated,
            StartState::ProbeBefore => StartEvent::Port(world.occupied_before),
            StartState::Reclaim => StartEvent::Reclaimed,
            StartState::ProbeAfter => StartEvent::Port(world.occupied_after),
            StartState::Spawn => StartEvent::Spawned(world.spawn.clone()),
            StartState::Wait(_, waiting) => StartEvent::Wait(match waiting {
                PollState::ReadClock => PollEvent::Elapsed(elapsed),
                PollState::CheckExit => match world.exit_at {
                    Some(at) if round >= at => {
                        PollEvent::Exit(ExitCheck::Exited("exit status: 1".to_string()))
                    }
                    _ => PollEvent::Exit(ExitCheck::Running),
                },
                PollState::ProbePort => {
                    PollEvent::Port(matches!(world.healthy_at, Some(at) if round >= at))
                }
                PollState::FetchHealth => PollEvent::Health(Some(healthy_page())),
                PollState::Pause => {
                    elapsed += POLL_INTERVAL_MILLIS;
                    round += 1;
                    PollEvent::Paused
                }
            }),
        };
        match start_next(state, event) {
            StartStep::Continue(next) => state = next,
            StartStep::Finish(end) => return (end, asked),
        }
    }
}

#[test]
fn whole_start_on_a_free_port() {
    let mut s = Supervisor::new();
    let first = s.begin_start();
    let (end, asked) = run_start(
        first,
        World {
            occupied_before: false,
            occupied_after: false,
            spawn: Ok(4242),
            exit_at: None,
            healthy_at: Some(2),
        },
    );
    assert_eq!(asked, vec![StartState::ProbeBefore, StartState::Spawn]);
    assert_eq!(end, spawned(4242, StartOutcome::Healthy));
    assert_eq!(s.spawned(4242), None);
    let answer = s.finish_start(end, None).unwrap();
    assert_eq!(answer, "Engine started (pid 4242)");
    assert!(answer.contains("4242"));
    assert_eq!(s.slot, Some(4242));
}

#[test]
fn whole_restart_terminates_then_reclaims_then_spawns() {
    let mut s = Supervisor { slot: Some(7) };
    let first = s.begin_start();
    assert_eq!(s.slot, None);
    let (end, asked) = run_start(
        first,
        World {
            occupied_before: true,
            occupied_after: true,
            spawn: Ok(8),
            exit_at: None,
            healthy_at: None,
        },
    );
    assert_eq!(
        asked,
        vec![
            StartState::Terminate(7),
            StartState::ProbeBefore,
            StartState::Reclaim,
            StartState::ProbeAfter,
            StartState::Spawn
        ]
    );
    assert_eq!(end, spawned(8, StartOutcome::Unconfirmed));
    assert_eq!(s.spawned(8), None);
    assert_eq!(s.finish_start(end, None), Ok("Engine started (pid 8)".to_string()));
    assert_eq!(s.slot, Some(8));
}

#[test]
fn whole_start_of_a_backend_that_exits() {
    let mut s = Supervisor::new();
    let first = s.begin_start();
    let (end, _) = run_start(
        first,
        World {
            occupied_before: false,
            occupied_after: false,
            spawn: Ok(55),
            exit_at: Some(1),
            healthy_at: None,
        },
    );
    assert_eq!(end, spawned(55, StartOutcome::ExitedEarly("exit status: 1".to_string())));
    assert_eq!(s.spawned(55), None);
    let message = s.finish_start(end, Some("")).unwrap_err();
    assert!(!message.is_empty());
    assert!(message.contains("exited"));
    assert!(message.contains("exit status: 1"));
    assert_eq!(s.slot, None);
}

#[test]
fn start_that_cannot_spawn_fails_with_the_reason() {
    let mut s = Supervisor::new();
    let first = s.begin_start();
    let (end, asked) = run_start(
        first,
        World {
            occupied_before: false,
            occupied_after: false,
            spawn: Err(SpawnError::Spawn { via_launcher: true, error: "ENOENT".to_string() }),
            exit_at: None,
            healthy_at: None,
        },
    );
    assert_eq!(asked, vec![StartState::ProbeBefore, StartState::Spawn]);
    assert_eq!(s.finish_start(end, None), Err("Failed to spawn engine via uv: ENOENT".to_string()));
    assert_eq!(s.slot, None);
    assert_eq!(
        s.finish_start(StartEnd::NotSpawned(SpawnError::NoEngineDir), None),
        Err("Could not find engine directory".to_string())
    );
}

#[test]
fn start_ignores_answers_it_did_not_ask_for() {
    assert_eq!(
        start_next(StartState::Terminate(3), StartEvent::Spawned(Ok(4))),
        StartStep::Continue(StartState::Terminate(3))
    );
    assert_eq!(
        start_next(StartState::Terminate(3), StartEvent::Port(false)),
        StartStep::Continue(StartState::Terminate(3))
    );
    assert_eq!(
        start_next(StartState::Spawn, StartEvent::Terminated),
        StartStep::Continue(StartState::Spawn)
    );
    assert_eq!(
        start_next(StartState::Reclaim, StartEvent::Port(false)),
        StartStep::Continue(StartState::Reclaim)
    );
    assert_eq!(
        start_next(StartState::Wait(9, PollState::Pause), StartEvent::Reclaimed),
        StartStep::Continue(StartState::Wait(9, PollState::Pause))
    );
    assert_eq!(
        start_next(StartState::Wait(9, PollState::Pause), StartEvent::Wait(PollEvent::Port(true))),
        StartStep::Continue(StartState::Wait(9, PollState::Pause))
    );
}

#[test]
fn spawn_begins_the_wait_at_the_clock() {
    assert_eq!(
        start_next(StartState::Spawn, StartEvent::Spawned(Ok(4))),
        StartStep::Continue(StartState::Wait(4, PollState::ReadClock))
    );
    assert_eq!(
        start_next(StartState::ProbeAfter, StartEvent::Port(true)),
        StartStep::Continue(StartState::Spawn)
    );
    assert_eq!(
        start_next(StartState::ProbeAfter, StartEvent::Port(false)),
        StartStep::Continue(StartState::Spawn)
    );
}

#[test]
fn answer_without_success_never_ends_the_wait() {
    assert_eq!(
        poll_next(
            PollState::FetchHealth,
            PollEvent::Health(Some(page(false, b"{\"status\":\"healthy\"}")))
        ),
        PollStep::Continue(PollState::Pause)
    );
    assert!(is_healthy_answer(true, "healthy"));
    assert!(!is_healthy_answer(false, "healthy"));
    assert!(!is_healthy_answer(true, "starting"));
    assert!(!is_healthy_answer(false, "starting"));
}

#[test]
fn process_is_held_during_the_wait() {
    let mut s = Supervisor::new();
    assert_eq!(s.begin_start(), StartState::ProbeBefore);
    assert_eq!(s.spawned(41), None);
    assert!(s.is_holding());
    assert_eq!(s.observe(&ExitCheck::Running), Liveness { running: true, pid: Some(41) });
    // Another start that comes in during the wait terminates it first.
    assert_eq!(s.begin_start(), StartState::Terminate(41));
    assert_eq!(s.spawned(42), None);
    // The first start then finds its process gone, and leaves the slot to the second.
    let answer =
        s.finish_start(spawned(41, StartOutcome::ExitedEarly("signal: 9".to_string())), None);
    assert!(answer.is_err());
    assert_eq!(s.slot, Some(42));
}

#[test]
fn spawn_hands_out_what_the_slot_held() {
    let mut s = Supervisor { slot: Some(7) };
    assert_eq!(s.spawned(8), Some(7));
    assert_eq!(s.slot, Some(8));
}
