use orderly::cli::{parse_command_line, CliError};
use orderly::decimal::Decimal;

fn args(text: &str) -> Vec<String> {
    text.split_whitespace().map(|s| s.to_string()).collect()
}

#[test]
fn readme_example() {
    let spec = parse_command_line(&args(
        "orderly -max-start-tokens 2 -start-tokens-per-second 0.1 -- \
         -name redis -run ./run-redis -wait-started ./wait-redis -- \
         -name website -run ./run-website -check ./health-check-website -cleanup ./website-cleanup",
    ))
    .unwrap();
    assert_eq!(spec.max_restart_tokens, Decimal { micros: 2_000_000 });
    assert_eq!(spec.restart_tokens_per_second, Decimal { micros: 100_000 });
    assert_eq!(spec.procs.len(), 2);
    assert_eq!(spec.procs[0].name, "redis");
    assert_eq!(spec.procs[0].run, "./run-redis");
    assert_eq!(spec.procs[0].wait_started.as_deref(), Some("./wait-redis"));
    assert_eq!(spec.procs[0].check, None);
    assert_eq!(spec.procs[1].name, "website");
    assert_eq!(spec.procs[1].run, "./run-website");
    assert_eq!(spec.procs[1].check.as_deref(), Some("./health-check-website"));
    assert_eq!(spec.procs[1].cleanup.as_deref(), Some("./website-cleanup"));
}

#[test]
fn man_page_example() {
    let spec = parse_command_line(&args(
        "orderly -- -name sv1 -all-commands ./sv -- -name sv2 -all-commands ./sv -- -name sv3 -all-commands ./sv",
    ))
    .unwrap();
    assert_eq!(spec.procs.len(), 3);
    for (p, name) in spec.procs.iter().zip(["sv1", "sv2", "sv3"]) {
        assert_eq!(p.name, name);
        assert_eq!(p.run, "./sv");
        assert_eq!(p.wait_started.as_deref(), Some("./sv"));
        assert_eq!(p.check.as_deref(), Some("./sv"));
        assert_eq!(p.shutdown.as_deref(), Some("./sv"));
        assert_eq!(p.cleanup.as_deref(), Some("./sv"));
        assert_eq!(p.post_start, None);
    }
    assert_eq!(spec.max_restart_tokens, Decimal { micros: 5_000_000 });
    assert_eq!(spec.check_delay_seconds, Decimal { micros: 5_000_000 });
}

#[test]
fn alternative_flag_names_are_accepted() {
    let spec = parse_command_line(&args(
        "orderly -restarts-per-second 0.5 -max-restarts 3 -status-file /tmp/st -- \
         -name a -run ra -check ca -post-start pa -cleanup cla -shutdown sa",
    ))
    .unwrap();
    assert_eq!(spec.restart_tokens_per_second, Decimal { micros: 500_000 });
    assert_eq!(spec.max_restart_tokens, Decimal { micros: 3_000_000 });
    assert_eq!(spec.status_file.as_deref(), Some("/tmp/st"));
    let p = &spec.procs[0];
    assert_eq!(p.post_start.as_deref(), Some("pa"));
    assert_eq!(p.cleanup.as_deref(), Some("cla"));
    assert_eq!(p.shutdown.as_deref(), Some("sa"));
    assert_eq!(p.check.as_deref(), Some("ca"));
}

#[test]
fn rates_per_minute_and_hour() {
    let spec = parse_command_line(&args("orderly -start-tokens-per-minute 6 -- -name a -run r")).unwrap();
    assert_eq!(spec.restart_tokens_per_second, Decimal { micros: 100_000 });
    let spec = parse_command_line(&args("orderly -start-tokens-per-hour 360 -- -name a -run r")).unwrap();
    assert_eq!(spec.restart_tokens_per_second, Decimal { micros: 100_000 });
    let spec = parse_command_line(&args("orderly -start-tokens-per-minute -1 -- -name a -run r")).unwrap();
    assert_eq!(spec.restart_tokens_per_second, Decimal { micros: -16_667 });
}

#[test]
fn hooks_delays_and_timeouts() {
    let spec = parse_command_line(&args(
        "orderly -check-delay 2.5 -all-lifecycle-hooks ./hook -on-failure ./fail \
         -start-complete-timeout -1 -on-restart-timeout 30 -on-failure-timeout 0 -- \
         -name a -run r -clean c -wait-started-timeout 1 -check-timeout 2 -shutdown-timeout -3 \
         -clean-timeout 4 -terminate-timeout 0.5",
    ))
    .unwrap();
    assert_eq!(spec.check_delay_seconds, Decimal { micros: 2_500_000 });
    assert_eq!(spec.start_complete.as_deref(), Some("./hook"));
    assert_eq!(spec.restart.as_deref(), Some("./hook"));
    assert_eq!(spec.on_shutdown.as_deref(), Some("./hook"));
    assert_eq!(spec.failure.as_deref(), Some("./fail"));
    assert_eq!(spec.start_complete_timeout, None);
    assert_eq!(spec.restart_timeout, Some(Decimal { micros: 30_000_000 }));
    assert_eq!(spec.failure_timeout, None);
    let p = &spec.procs[0];
    assert_eq!(p.cleanup.as_deref(), Some("c"));
    assert_eq!(p.wait_started_timeout_seconds, Some(Decimal { micros: 1_000_000 }));
    assert_eq!(p.check_timeout_seconds, Some(Decimal { micros: 2_000_000 }));
    assert_eq!(p.shutdown_timeout_seconds, None);
    assert_eq!(p.cleanup_timeout_seconds, Some(Decimal { micros: 4_000_000 }));
    assert_eq!(p.terminate_timeout_seconds, Some(Decimal { micros: 500_000 }));
}

#[test]
fn refusals() {
    assert!(matches!(
        parse_command_line(&args("orderly -bogus 1")),
        Err(CliError::UnknownArgument(a)) if a == "-bogus"
    ));
    assert!(matches!(
        parse_command_line(&args("orderly -max-restarts")),
        Err(CliError::MissingValue(a)) if a == "-max-restarts"
    ));
    assert!(matches!(
        parse_command_line(&args("orderly -max-restarts lots")),
        Err(CliError::InvalidNumber(f, v)) if f == "-max-restarts" && v == "lots"
    ));
    assert!(matches!(
        parse_command_line(&args("orderly -- -name a -bogus x")),
        Err(CliError::UnknownProcArgument(a)) if a == "-bogus"
    ));
    assert!(matches!(
        parse_command_line(&args("orderly -- -name a -run")),
        Err(CliError::MissingValue(a)) if a == "-run"
    ));
    assert!(matches!(
        parse_command_line(&args("orderly -- -name a -run r -check-timeout soon")),
        Err(CliError::InvalidNumber(f, v)) if f == "-check-timeout" && v == "soon"
    ));
    assert!(matches!(
        parse_command_line(&args("orderly -- -run r")),
        Err(CliError::MissingProcField("name"))
    ));
    assert!(matches!(
        parse_command_line(&args("orderly -- -name a -- -name b -run r")),
        Err(CliError::MissingProcField("run"))
    ));
}

#[test]
fn without_processes_the_name_is_missing() {
    assert!(matches!(parse_command_line(&args("orderly")), Err(CliError::MissingProcField("name"))));
    assert!(matches!(parse_command_line(&args("orderly --")), Err(CliError::MissingProcField("name"))));
    assert!(matches!(parse_command_line(&Vec::new()), Err(CliError::MissingProcField("name"))));
    // A trailing separator leaves an empty last process.
    assert!(matches!(
        parse_command_line(&args("orderly -- -name a -run r --")),
        Err(CliError::MissingProcField("name"))
    ));
}

#[test]
fn shutdown_hook_flags() {
    let spec = parse_command_line(&args(
        "orderly -on-shutdown ./bye -on-shutdown-timeout 7.5 -- -name a -run r",
    ))
    .unwrap();
    assert_eq!(spec.on_shutdown.as_deref(), Some("./bye"));
    assert_eq!(spec.on_shutdown_timeout, Some(Decimal { micros: 7_500_000 }));
    assert_eq!(spec.start_complete, None);
    let spec = parse_command_line(&args("orderly -on-shutdown-timeout -1 -- -name a -run r")).unwrap();
    assert_eq!(spec.on_shutdown, None);
    assert_eq!(spec.on_shutdown_timeout, None);
    assert!(matches!(
        parse_command_line(&args("orderly -on-shutdown")),
        Err(CliError::MissingValue(a)) if a == "-on-shutdown"
    ));
}
