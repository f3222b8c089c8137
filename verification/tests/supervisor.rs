use orderly::cli::parse_command_line;
use orderly::decimal::Decimal;
use orderly::machine::{
    Action, CommandKind, CommandOutcome, Event, ExitWait, HookKind, KillOutcome, Phase, Signal,
    SleepOutcome, WaitOutcome,
};
use orderly::specs::{ProcSpecBuilder, SupervisorSpec, SupervisorSpecBuilder};
use orderly::supervisor::{decimal_string, Supervisor};

fn args(text: &str) -> Vec<String> {
    text.split_whitespace().map(|s| s.to_string()).collect()
}

fn env_value(env: &[(String, String)], key: &str) -> String {
    env.iter().find(|(k, _)| k == key).map(|(_, v)| v.clone()).unwrap_or_else(|| "-".to_string())
}

fn kind_word(kind: &CommandKind) -> &'static str {
    match kind {
        CommandKind::WaitStarted => "wait-started",
        CommandKind::Check => "check",
        CommandKind::Shutdown => "shutdown",
        CommandKind::Cleanup => "cleanup",
        CommandKind::PostStart => "post",
    }
}

fn hook_word(kind: &HookKind) -> &'static str {
    match kind {
        HookKind::StartComplete => "start-complete",
        HookKind::Restart => "restart",
        HookKind::Failure => "failure",
        HookKind::Shutdown => "on-shutdown",
    }
}

/// A command is shown with its `ORDERLY_ACTION` and `ORDERLY_RUN_PID`.
fn describe(sup: &Supervisor, a: &Action) -> String {
    let name = |i: usize| sup.spec().procs[i].name.clone();
    match a {
        Action::PollSignal => "poll".to_string(),
        Action::Sleep { millis } => format!("sleep {}", millis),
        Action::Terminate { index } => format!("terminate {}", name(*index)),
        Action::Kill { index } => format!("kill {}", name(*index)),
        Action::Reap { index } => format!("reap {}", name(*index)),
        Action::WaitExit { index, .. } => format!("waitexit {}", name(*index)),
        Action::Spawn { index, command, env } => {
            format!("spawn {} {} {}", name(*index), command, env_value(env, "ORDERLY_ACTION"))
        }
        Action::TryWait { index } => format!("trywait {}", name(*index)),
        Action::RunCommand { index, kind, env, .. } => format!(
            "{} {} {} {}",
            kind_word(kind),
            name(*index),
            env_value(env, "ORDERLY_ACTION"),
            env_value(env, "ORDERLY_RUN_PID")
        ),
        Action::RunHook { kind, env, .. } => format!("hook {} {}", hook_word(kind), env_value(env, "ORDERLY_ACTION")),
        Action::WriteStatus { status, .. } => format!("status {}", status),
        Action::Exit { code } => format!("exit {}", code),
    }
}

/// Answers each action as a healthy world would, except that the first
/// wait between checks receives `stop`.
fn healthy(a: &Action, pid_base: u32, stop: Option<Signal>) -> Event {
    match a {
        Action::PollSignal => Event::SignalPolled(None),
        Action::Sleep { .. } => match stop {
            Some(s) => Event::Slept(SleepOutcome::Received(s)),
            None => Event::Slept(SleepOutcome::Elapsed),
        },
        Action::Terminate { .. } => Event::Killed(KillOutcome::Killed),
        Action::Kill { .. } => Event::Killed(KillOutcome::Killed),
        Action::Reap { .. } => Event::Reaped(true),
        Action::WaitExit { .. } => Event::ExitWaited(ExitWait::Exited),
        Action::Spawn { index, .. } => Event::Spawned(Some(pid_base + *index as u32)),
        Action::TryWait { .. } => Event::Polled(WaitOutcome::StillRunning),
        Action::RunCommand { .. } => Event::CommandDone(CommandOutcome::Succeeded),
        Action::RunHook { .. } => Event::CommandDone(CommandOutcome::Succeeded),
        Action::WriteStatus { .. } => Event::StatusWritten(true),
        Action::Exit { .. } => panic!("no event after exit"),
    }
}

fn run(sup: &mut Supervisor, mut answer: impl FnMut(&Action) -> Event, limit: usize) -> Vec<String> {
    let mut log = Vec::new();
    let mut ev = Event::Start;
    for _ in 0..limit {
        assert!(sup.accepts(&ev));
        let a = sup.step(ev);
        log.push(describe(sup, &a));
        if let Action::Exit { .. } = a {
            return log;
        }
        ev = answer(&a);
    }
    log
}

fn man_page_spec() -> SupervisorSpec {
    parse_command_line(&args(
        "orderly -- -name sv1 -all-commands ./sv -- -name sv2 -all-commands ./sv -- -name sv3 -all-commands ./sv",
    ))
    .unwrap()
}

fn interesting(log: &[String]) -> Vec<String> {
    log.iter().filter(|l| !l.starts_with("poll") && !l.starts_with("trywait")).cloned().collect()
}

fn one_proc(configure: impl FnOnce(&mut ProcSpecBuilder), tokens: i64) -> SupervisorSpec {
    let mut b = ProcSpecBuilder::new();
    b.set_name("p".to_string());
    b.set_run("./p".to_string());
    configure(&mut b);
    let mut sb = SupervisorSpecBuilder::new();
    sb.set_max_restart_tokens(Decimal { micros: tokens * 1_000_000 });
    sb.set_restart_tokens_per_second(Decimal { micros: 0 });
    sb.add_proc_spec(b.build().unwrap());
    sb.build().unwrap()
}

#[test]
fn man_page_example_order() {
    let mut sup = Supervisor::new(man_page_spec(), 1);
    let log = run(&mut sup, |a| healthy(a, 100, Some(Signal::Shutdown)), 1000);
    let expected = vec![
        "cleanup sv3 CLEANUP -",
        "cleanup sv2 CLEANUP -",
        "cleanup sv1 CLEANUP -",
        "spawn sv1 ./sv RUN",
        "wait-started sv1 WAIT_STARTED 100",
        "spawn sv2 ./sv RUN",
        "wait-started sv2 WAIT_STARTED 101",
        "spawn sv3 ./sv RUN",
        "wait-started sv3 WAIT_STARTED 102",
        "check sv1 CHECK 100",
        "check sv2 CHECK 101",
        "check sv3 CHECK 102",
        "sleep 5000",
        "shutdown sv3 SHUTDOWN 102",
        "waitexit sv3",
        "cleanup sv3 CLEANUP -",
        "shutdown sv2 SHUTDOWN 101",
        "waitexit sv2",
        "cleanup sv2 CLEANUP -",
        "shutdown sv1 SHUTDOWN 100",
        "waitexit sv1",
        "cleanup sv1 CLEANUP -",
        "exit 0",
    ];
    assert_eq!(interesting(&log), expected);
    assert_eq!(sup.control().phase, Phase::Exited);
}

#[test]
fn command_environment() {
    let mut sup = Supervisor::new(man_page_spec(), 4242);
    let mut envs: Vec<(String, Vec<(String, String)>)> = Vec::new();
    run(
        &mut sup,
        |a| {
            match a {
                Action::Spawn { env, .. } => envs.push(("spawn".to_string(), env.clone())),
                Action::RunCommand { kind, env, .. } => envs.push((kind_word(kind).to_string(), env.clone())),
                _ => {}
            }
            healthy(a, 100, Some(Signal::Shutdown))
        },
        1000,
    );
    let pair = |k: &str, v: &str| (k.to_string(), v.to_string());
    let check = envs.iter().find(|(k, _)| k == "check").unwrap();
    assert_eq!(
        check.1,
        vec![
            pair("ORDERLY_SERVICE_NAME", "sv1"),
            pair("ORDERLY_ACTION", "CHECK"),
            pair("ORDERLY_SUPERVISOR_PID", "4242"),
            pair("ORDERLY_RUN_PID", "100"),
        ]
    );
    let spawn = envs.iter().find(|(k, _)| k == "spawn").unwrap();
    assert_eq!(
        spawn.1,
        vec![pair("ORDERLY_SERVICE_NAME", "sv1"), pair("ORDERLY_ACTION", "RUN"), pair("ORDERLY_SUPERVISOR_PID", "4242")]
    );
    let cleanup = envs.iter().find(|(k, _)| k == "cleanup").unwrap();
    assert_eq!(
        cleanup.1,
        vec![
            pair("ORDERLY_SERVICE_NAME", "sv3"),
            pair("ORDERLY_ACTION", "CLEANUP"),
            pair("ORDERLY_SUPERVISOR_PID", "4242"),
        ]
    );
}

#[test]
fn terminate_signal_also_shuts_down_gracefully() {
    let mut sup = Supervisor::new(man_page_spec(), 1);
    let log = run(&mut sup, |a| healthy(a, 7, Some(Signal::Terminate)), 1000);
    assert_eq!(log.last().unwrap(), "exit 0");
    assert!(log.contains(&"shutdown sv1 SHUTDOWN 7".to_string()));
}

#[test]
fn timeouts_reach_the_commands() {
    let spec = parse_command_line(&args(
        "orderly -- -name a -run ./a -check ./c -check-timeout 2.5 -terminate-timeout -1 -wait-started ./w",
    ))
    .unwrap();
    let mut sup = Supervisor::new(spec, 1);
    let mut seen: Vec<(String, Option<u64>)> = Vec::new();
    run(
        &mut sup,
        |a| {
            match a {
                Action::RunCommand { kind, timeout_millis, .. } => seen.push((kind_word(kind).to_string(), *timeout_millis)),
                Action::WaitExit { timeout_millis, .. } => seen.push(("waitexit".to_string(), *timeout_millis)),
                _ => {}
            }
            match a {
                Action::Sleep { .. } => Event::Slept(SleepOutcome::Received(Signal::Shutdown)),
                Action::Terminate { .. } => Event::Killed(KillOutcome::Killed),
                other => healthy(other, 9, None),
            }
        },
        1000,
    );
    assert_eq!(
        seen,
        vec![
            ("wait-started".to_string(), Some(120_000)),
            ("check".to_string(), Some(2_500)),
            ("waitexit".to_string(), None),
        ]
    );
}

#[test]
fn no_shutdown_command_sends_sigterm_then_sigkill() {
    let spec = one_proc(|_| {}, 5);
    let mut sup = Supervisor::new(spec, 1);
    let log = run(
        &mut sup,
        |a| match a {
            Action::WaitExit { timeout_millis, .. } => {
                assert_eq!(*timeout_millis, Some(10_000));
                Event::ExitWaited(ExitWait::TimedOut)
            }
            other => healthy(other, 3, Some(Signal::Shutdown)),
        },
        1000,
    );
    let log = interesting(&log);
    assert_eq!(&log[log.len() - 6..], &["sleep 5000", "terminate p", "waitexit p", "kill p", "reap p", "exit 0"]);
}

#[test]
fn wait_started_must_succeed_before_post_start() {
    let spec = one_proc(
        |b| {
            b.set_wait_started("./w".to_string());
            b.set_post_start("./post".to_string());
        },
        5,
    );
    let mut sup = Supervisor::new(spec, 1);
    let mut waits = 0;
    let log = run(
        &mut sup,
        |a| match a {
            Action::RunCommand { kind: CommandKind::WaitStarted, .. } => {
                waits += 1;
                if waits == 1 {
                    Event::CommandDone(CommandOutcome::TimedOut)
                } else {
                    Event::CommandDone(CommandOutcome::Succeeded)
                }
            }
            other => healthy(other, 20, Some(Signal::Shutdown)),
        },
        1000,
    );
    let log = interesting(&log);
    assert_eq!(
        &log[..8],
        &[
            "spawn p ./p RUN",
            "wait-started p WAIT_STARTED 20",
            "kill p",
            "reap p",
            "spawn p ./p RUN",
            "wait-started p WAIT_STARTED 20",
            "post p POST_START 20",
            "sleep 5000",
        ]
    );
}

#[test]
fn failed_check_restarts_until_the_pool_is_empty() {
    let spec = one_proc(|b| b.set_check("./check".to_string()), 2);
    let mut sup = Supervisor::new(spec, 1);
    let log = run(
        &mut sup,
        |a| match a {
            Action::RunCommand { kind: CommandKind::Check, .. } => Event::CommandDone(CommandOutcome::Failed),
            other => healthy(other, 9, None),
        },
        1000,
    );
    let log = interesting(&log);
    // Two starts are paid for; the third is refused and the child is killed
    // before the supervisor exits with code 1.
    assert_eq!(log.iter().filter(|l| l.starts_with("spawn")).count(), 2);
    assert_eq!(&log[log.len() - 3..], &["kill p", "reap p", "exit 1"]);
}

#[test]
fn timed_out_check_restarts() {
    let spec = one_proc(|b| b.set_check("./check".to_string()), 2);
    let mut sup = Supervisor::new(spec, 1);
    let log = run(
        &mut sup,
        |a| match a {
            Action::RunCommand { kind: CommandKind::Check, .. } => Event::CommandDone(CommandOutcome::TimedOut),
            other => healthy(other, 9, None),
        },
        1000,
    );
    assert_eq!(interesting(&log).iter().filter(|l| l.starts_with("spawn")).count(), 2);
    assert_eq!(log.last().unwrap(), "exit 1");
}

#[test]
fn empty_start_pool_refuses_the_first_start() {
    let spec = one_proc(|b| b.set_cleanup("./clean".to_string()), 0);
    let mut sup = Supervisor::new(spec, 1);
    let log = run(&mut sup, |a| healthy(a, 9, None), 100);
    assert_eq!(interesting(&log), vec!["cleanup p CLEANUP -", "exit 1"]);
}

#[test]
fn exited_child_fails_the_check() {
    let spec = one_proc(|b| b.set_cleanup("./clean".to_string()), 1);
    let mut sup = Supervisor::new(spec, 1);
    let log = run(
        &mut sup,
        |a| match a {
            Action::TryWait { .. } => Event::Polled(WaitOutcome::Exited),
            other => healthy(other, 5, None),
        },
        1000,
    );
    // The child exited, so no kill is needed: the refused restart only
    // cleans up.
    assert_eq!(
        interesting(&log),
        vec!["cleanup p CLEANUP -", "spawn p ./p RUN", "cleanup p CLEANUP -", "exit 1"]
    );
}

#[test]
fn failing_cleanup_during_restart_restarts_again() {
    let spec = one_proc(|b| b.set_cleanup("./clean".to_string()), 5);
    let mut sup = Supervisor::new(spec, 1);
    let mut cleanups = 0;
    let log = run(
        &mut sup,
        |a| match a {
            Action::RunCommand { kind: CommandKind::Cleanup, .. } => {
                cleanups += 1;
                if cleanups == 1 {
                    Event::CommandDone(CommandOutcome::Failed)
                } else {
                    Event::CommandDone(CommandOutcome::Succeeded)
                }
            }
            other => healthy(other, 5, Some(Signal::Shutdown)),
        },
        1000,
    );
    assert_eq!(
        &interesting(&log)[..3],
        &["cleanup p CLEANUP -", "cleanup p CLEANUP -", "spawn p ./p RUN"]
    );
}

#[test]
fn failed_shutdown_command_kills_instead() {
    let spec = one_proc(
        |b| {
            b.set_shutdown("./stop".to_string());
            b.set_cleanup("./clean".to_string());
        },
        5,
    );
    let mut sup = Supervisor::new(spec, 1);
    let log = run(
        &mut sup,
        |a| match a {
            Action::RunCommand { kind: CommandKind::Shutdown, .. } => Event::CommandDone(CommandOutcome::Failed),
            other => healthy(other, 3, Some(Signal::Shutdown)),
        },
        1000,
    );
    let log = interesting(&log);
    assert_eq!(
        &log[log.len() - 5..],
        &["shutdown p SHUTDOWN 3", "kill p", "reap p", "cleanup p CLEANUP -", "exit 0"]
    );
}

#[test]
fn failed_cleanup_during_shutdown_exits_with_one() {
    let spec = one_proc(
        |b| {
            b.set_shutdown("./stop".to_string());
            b.set_cleanup("./clean".to_string());
        },
        5,
    );
    let mut sup = Supervisor::new(spec, 1);
    let mut shutting = false;
    let log = run(
        &mut sup,
        |a| match a {
            Action::RunCommand { kind: CommandKind::Shutdown, .. } => {
                shutting = true;
                Event::CommandDone(CommandOutcome::Succeeded)
            }
            Action::RunCommand { kind: CommandKind::Cleanup, .. } if shutting => {
                Event::CommandDone(CommandOutcome::IoError)
            }
            other => healthy(other, 3, Some(Signal::Shutdown)),
        },
        1000,
    );
    let log = interesting(&log);
    assert_eq!(
        &log[log.len() - 5..],
        &["shutdown p SHUTDOWN 3", "waitexit p", "cleanup p CLEANUP -", "cleanup p CLEANUP -", "exit 1"]
    );
}

#[test]
fn signal_during_start_shuts_down() {
    let mut sup = Supervisor::new(man_page_spec(), 1);
    let mut polls = 0;
    let log = run(
        &mut sup,
        |a| match a {
            Action::PollSignal => {
                polls += 1;
                // The fourth poll is the one before spawning sv1.
                if polls == 4 {
                    Event::SignalPolled(Some(Signal::Shutdown))
                } else {
                    Event::SignalPolled(None)
                }
            }
            other => healthy(other, 10, None),
        },
        1000,
    );
    let log = interesting(&log);
    assert!(!log.iter().any(|l| l.starts_with("spawn")));
    assert_eq!(log.last().unwrap(), "exit 0");
}

#[test]
fn signal_during_kill_cleanup_shuts_down() {
    let mut sup = Supervisor::new(man_page_spec(), 1);
    let mut polls = 0;
    let log = run(
        &mut sup,
        |a| match a {
            Action::PollSignal => {
                polls += 1;
                if polls == 1 {
                    Event::SignalPolled(Some(Signal::Terminate))
                } else {
                    Event::SignalPolled(None)
                }
            }
            other => healthy(other, 10, None),
        },
        1000,
    );
    // The signal seen before cleaning sv3 ends the restart: every process
    // is shut down (none runs, so each is only cleaned) and the exit is 0.
    assert_eq!(
        interesting(&log),
        vec!["cleanup sv3 CLEANUP -", "cleanup sv2 CLEANUP -", "cleanup sv1 CLEANUP -", "exit 0"]
    );
}

#[test]
fn status_file_and_lifecycle_hooks() {
    let spec = parse_command_line(&args(
        "orderly -status-file /tmp/status -all-lifecycle-hooks ./hook -max-start-tokens 2 -start-tokens-per-second 0 -- -name p -run ./p -check ./c",
    ))
    .unwrap();
    let mut sup = Supervisor::new(spec, 1);
    let mut checks = 0;
    let log = run(
        &mut sup,
        |a| match a {
            Action::RunCommand { kind: CommandKind::Check, .. } => {
                checks += 1;
                if checks == 1 {
                    Event::CommandDone(CommandOutcome::Failed)
                } else {
                    Event::CommandDone(CommandOutcome::Succeeded)
                }
            }
            other => healthy(other, 30, Some(Signal::Shutdown)),
        },
        1000,
    );
    assert_eq!(
        interesting(&log),
        vec![
            "status STARTING",
            "spawn p ./p RUN",
            "status RUNNING",
            "hook start-complete START_COMPLETE",
            "check p CHECK 30",
            "hook restart RESTART",
            "kill p",
            "reap p",
            "spawn p ./p RUN",
            "check p CHECK 30",
            "sleep 5000",
            "terminate p",
            "waitexit p",
            "hook on-shutdown SHUTDOWN",
            "exit 0",
        ]
    );
}

#[test]
fn failure_hook_runs_before_exiting() {
    let spec = parse_command_line(&args(
        "orderly -on-failure ./fail -max-start-tokens 1 -start-tokens-per-second 0 -- -name p -run ./p",
    ))
    .unwrap();
    let mut sup = Supervisor::new(spec, 1);
    let log = run(
        &mut sup,
        |a| match a {
            Action::TryWait { .. } => Event::Polled(WaitOutcome::Exited),
            other => healthy(other, 30, None),
        },
        1000,
    );
    assert_eq!(interesting(&log), vec!["spawn p ./p RUN", "hook failure FAILURE", "exit 1"]);
}

#[test]
fn failing_shutdown_hook_exits_with_one() {
    let mut b = SupervisorSpecBuilder::new();
    b.set_on_shutdown("./bye".to_string());
    let spec = b.build().unwrap();
    let mut sup = Supervisor::new(spec, 1);
    let log = run(
        &mut sup,
        |a| match a {
            Action::RunHook { .. } => Event::CommandDone(CommandOutcome::Failed),
            other => healthy(other, 30, Some(Signal::Shutdown)),
        },
        100,
    );
    assert_eq!(interesting(&log), vec!["sleep 5000", "hook on-shutdown SHUTDOWN", "exit 1"]);
}

#[test]
fn no_processes() {
    let spec = SupervisorSpecBuilder::new().build().unwrap();
    let mut sup = Supervisor::new(spec, 1);
    let a = sup.step(Event::Start);
    assert!(matches!(a, Action::Sleep { millis: 5000 }));
    let a = sup.step(Event::Slept(SleepOutcome::Elapsed));
    assert!(matches!(a, Action::Sleep { millis: 5000 }));
    let a = sup.step(Event::Slept(SleepOutcome::Disconnected));
    assert!(matches!(a, Action::Exit { code: 0 }));
}

#[test]
fn accepts_only_the_awaited_event() {
    let mut sup = Supervisor::new(man_page_spec(), 1);
    assert!(sup.accepts(&Event::Start));
    assert!(!sup.accepts(&Event::Reaped(true)));
    let a = sup.step(Event::Start);
    assert!(matches!(a, Action::PollSignal));
    assert!(sup.accepts(&Event::SignalPolled(None)));
    assert!(!sup.accepts(&Event::Start));
    assert_eq!(sup.pid(0), None);
    assert_eq!(sup.pid(7), None);
}

#[test]
fn decimal_text_of_pids() {
    assert_eq!(decimal_string(0), "0");
    assert_eq!(decimal_string(7), "7");
    assert_eq!(decimal_string(10), "10");
    assert_eq!(decimal_string(4294967295), "4294967295");
}
