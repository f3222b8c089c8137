//! The command line: supervisor flags, then `--`, then the flags of each
//! process, the processes separated by `--`.
//!
//! ```text
//! orderly [<SUPERVISOR-FLAGS>] [ -- <PROCESS-FLAGS> ]+
//! ```
use vstd::prelude::*;
use crate::decimal::{parsed_decimal, Decimal};
use crate::specs::{
    initial_proc_settings, initial_supervisor_settings, optional_timeout, proc_spec_of,
    ProcSpecBuilder, ProcSpecBuilderView, ProcSpecView, SpecError, SupervisorSpec,
    SupervisorSpecBuilder, SupervisorSpecView,
};

verus! {

/// A flag of the supervisor.
#[derive(Clone, Copy, Debug, PartialEq, Eq, Structural)]
pub enum SupervisorFlag {
    /// `-restarts-per-second`, `-start-tokens-per-second`.
    TokensPerSecond,
    /// `-start-tokens-per-minute`.
    TokensPerMinute,
    /// `-start-tokens-per-hour`.
    TokensPerHour,
    /// `-max-restarts`, `-max-start-tokens`.
    MaxTokens,
    /// `-status-file`.
    StatusFile,
    /// `-check-delay`.
    CheckDelay,
    /// `-on-start-complete`.
    OnStartComplete,
    /// `-on-restart`.
    OnRestart,
    /// `-on-failure`.
    OnFailure,
    /// `-all-lifecycle-hooks`.
    AllLifecycleHooks,
    /// `-start-complete-timeout`.
    StartCompleteTimeout,
    /// `-on-restart-timeout`.
    OnRestartTimeout,
    /// `-on-failure-timeout`.
    OnFailureTimeout,
    /// `-on-shutdown`.
    OnShutdown,
    /// `-on-shutdown-timeout`.
    OnShutdownTimeout,
}

/// A flag of a process.
#[derive(Clone, Copy, Debug, PartialEq, Eq, Structural)]
pub enum ProcFlag {
    /// `-name`.
    Name,
    /// `-run`.
    Run,
    /// `-wait-started`.
    WaitStarted,
    /// `-check`.
    Check,
    /// `-shutdown`.
    Shutdown,
    /// `-cleanup`, `-clean`.
    Cleanup,
    /// `-post-start`.
    PostStart,
    /// `-all-commands`: run, wait-started, check, shutdown and cleanup.
    AllCommands,
    /// `-wait-started-timeout`.
    WaitStartedTimeout,
    /// `-check-timeout`.
    CheckTimeout,
    /// `-shutdown-timeout`.
    ShutdownTimeout,
    /// `-clean-timeout`.
    CleanupTimeout,
    /// `-terminate-timeout`.
    TerminateTimeout,
}

/// Why a command line was refused.
#[derive(Debug)]
pub enum CliError {
    /// The flag was the last argument, without its value.
    MissingValue(String),
    /// The value of the flag is no number.
    InvalidNumber(String, String),
    /// No supervisor flag has this name.
    UnknownArgument(String),
    /// No process flag has this name.
    UnknownProcArgument(String),
    /// A process lacks this field.
    MissingProcField(&'static str),
}

/// A refusal with its texts as character sequences.
pub enum CliErrorView {
    MissingValue(Seq<char>),
    InvalidNumber(Seq<char>, Seq<char>),
    UnknownArgument(Seq<char>),
    UnknownProcArgument(Seq<char>),
    MissingProcField(Seq<char>),
}

impl View for CliError {
    type V = CliErrorView;

    open spec fn view(&self) -> CliErrorView {
        match self {
            CliError::MissingValue(f) => CliErrorView::MissingValue(f@),
            CliError::InvalidNumber(f, v) => CliErrorView::InvalidNumber(f@, v@),
            CliError::UnknownArgument(a) => CliErrorView::UnknownArgument(a@),
            CliError::UnknownProcArgument(a) => CliErrorView::UnknownProcArgument(a@),
            CliError::MissingProcField(f) => CliErrorView::MissingProcField(f@),
        }
    }
}

/// The supervisor flag an argument names.
pub open spec fn supervisor_flag(a: Seq<char>) -> Option<SupervisorFlag> {
    if a == "-restarts-per-second"@ || a == "-start-tokens-per-second"@ {
        Some(SupervisorFlag::TokensPerSecond)
    } else if a == "-start-tokens-per-minute"@ {
        Some(SupervisorFlag::TokensPerMinute)
    } else if a == "-start-tokens-per-hour"@ {
        Some(SupervisorFlag::TokensPerHour)
    } else if a == "-max-restarts"@ || a == "-max-start-tokens"@ {
        Some(SupervisorFlag::MaxTokens)
    } else if a == "-status-file"@ {
        Some(SupervisorFlag::StatusFile)
    } else if a == "-check-delay"@ {
        Some(SupervisorFlag::CheckDelay)
    } else if a == "-on-start-complete"@ {
        Some(SupervisorFlag::OnStartComplete)
    } else if a == "-on-restart"@ {
        Some(SupervisorFlag::OnRestart)
    } else if a == "-on-failure"@ {
        Some(SupervisorFlag::OnFailure)
    } else if a == "-all-lifecycle-hooks"@ {
        Some(SupervisorFlag::AllLifecycleHooks)
    } else if a == "-start-complete-timeout"@ {
        Some(SupervisorFlag::StartCompleteTimeout)
    } else if a == "-on-restart-timeout"@ {
        Some(SupervisorFlag::OnRestartTimeout)
    } else if a == "-on-failure-timeout"@ {
        Some(SupervisorFlag::OnFailureTimeout)
    } else if a == "-on-shutdown"@ {
        Some(SupervisorFlag::OnShutdown)
    } else if a == "-on-shutdown-timeout"@ {
        Some(SupervisorFlag::OnShutdownTimeout)
    } else {
        None
    }
}

/// The process flag an argument names.
pub open spec fn proc_flag(a: Seq<char>) -> Option<ProcFlag> {
    if a == "-name"@ {
        Some(ProcFlag::Name)
    } else if a == "-run"@ {
        Some(ProcFlag::Run)
    } else if a == "-wait-started"@ {
        Some(ProcFlag::WaitStarted)
    } else if a == "-check"@ {
        Some(ProcFlag::Check)
    } else if a == "-shutdown"@ {
        Some(ProcFlag::Shutdown)
    } else if a == "-cleanup"@ || a == "-clean"@ {
        Some(ProcFlag::Cleanup)
    } else if a == "-post-start"@ {
        Some(ProcFlag::PostStart)
    } else if a == "-all-commands"@ {
        Some(ProcFlag::AllCommands)
    } else if a == "-wait-started-timeout"@ {
        Some(ProcFlag::WaitStartedTimeout)
    } else if a == "-check-timeout"@ {
        Some(ProcFlag::CheckTimeout)
    } else if a == "-shutdown-timeout"@ {
        Some(ProcFlag::ShutdownTimeout)
    } else if a == "-clean-timeout"@ {
        Some(ProcFlag::CleanupTimeout)
    } else if a == "-terminate-timeout"@ {
        Some(ProcFlag::TerminateTimeout)
    } else {
        None
    }
}

pub open spec fn supervisor_flag_takes_number(f: SupervisorFlag) -> bool {
    match f {
        SupervisorFlag::StatusFile | SupervisorFlag::OnStartComplete | SupervisorFlag::OnRestart
        | SupervisorFlag::OnFailure | SupervisorFlag::OnShutdown | SupervisorFlag::AllLifecycleHooks => false,
        _ => true,
    }
}

pub open spec fn proc_flag_takes_number(f: ProcFlag) -> bool {
    match f {
        ProcFlag::WaitStartedTimeout | ProcFlag::CheckTimeout | ProcFlag::ShutdownTimeout
        | ProcFlag::CleanupTimeout | ProcFlag::TerminateTimeout => true,
        _ => false,
    }
}

/// A rate per `seconds` seconds turned into a rate per second, rounded
/// down to the millionth.
pub open spec fn per_second(d: Decimal, seconds: int) -> Decimal {
    Decimal { micros: (d.micros as int / seconds) as i64 }
}

/// The supervisor settings after a flag with the value `v`; `None` where
/// the flag needs a number and `v` is none.
pub open spec fn apply_supervisor_flag(b: SupervisorSpecView, f: SupervisorFlag, v: Seq<char>) -> Option<SupervisorSpecView> {
    if supervisor_flag_takes_number(f) {
        match parsed_decimal(v) {
            None => None,
            Some(d) => Some(
                match f {
                    SupervisorFlag::TokensPerSecond => SupervisorSpecView { restart_tokens_per_second: d, ..b },
                    SupervisorFlag::TokensPerMinute => SupervisorSpecView {
                        restart_tokens_per_second: per_second(d, 60),
                        ..b
                    },
                    SupervisorFlag::TokensPerHour => SupervisorSpecView {
                        restart_tokens_per_second: per_second(d, 3600),
                        ..b
                    },
                    SupervisorFlag::MaxTokens => SupervisorSpecView { max_restart_tokens: d, ..b },
                    SupervisorFlag::CheckDelay => SupervisorSpecView { check_delay_seconds: d, ..b },
                    SupervisorFlag::StartCompleteTimeout => SupervisorSpecView {
                        start_complete_timeout: optional_timeout(d),
                        ..b
                    },
                    SupervisorFlag::OnRestartTimeout => SupervisorSpecView {
                        restart_timeout: optional_timeout(d),
                        ..b
                    },
                    SupervisorFlag::OnFailureTimeout => SupervisorSpecView {
                        failure_timeout: optional_timeout(d),
                        ..b
                    },
                    _ => SupervisorSpecView { on_shutdown_timeout: optional_timeout(d), ..b },
                },
            ),
        }
    } else {
        Some(
            match f {
                SupervisorFlag::StatusFile => SupervisorSpecView { status_file: Some(v), ..b },
                SupervisorFlag::OnStartComplete => SupervisorSpecView { start_complete: Some(v), ..b },
                SupervisorFlag::OnRestart => SupervisorSpecView { restart: Some(v), ..b },
                SupervisorFlag::OnFailure => SupervisorSpecView { failure: Some(v), ..b },
                SupervisorFlag::OnShutdown => SupervisorSpecView { on_shutdown: Some(v), ..b },
                _ => SupervisorSpecView {
                    start_complete: Some(v),
                    restart: Some(v),
                    failure: Some(v),
                    on_shutdown: Some(v),
                    ..b
                },
            },
        )
    }
}

/// The process settings after a flag with the value `v`; `None` where the
/// flag needs a number and `v` is none.
pub open spec fn apply_proc_flag(b: ProcSpecBuilderView, f: ProcFlag, v: Seq<char>) -> Option<ProcSpecBuilderView> {
    if proc_flag_takes_number(f) {
        match parsed_decimal(v) {
            None => None,
            Some(d) => Some(
                match f {
                    ProcFlag::WaitStartedTimeout => ProcSpecBuilderView {
                        wait_started_timeout_seconds: optional_timeout(d),
                        ..b
                    },
                    ProcFlag::CheckTimeout => ProcSpecBuilderView { check_timeout_seconds: optional_timeout(d), ..b },
                    ProcFlag::ShutdownTimeout => ProcSpecBuilderView {
                        shutdown_timeout_seconds: optional_timeout(d),
                        ..b
                    },
                    ProcFlag::CleanupTimeout => ProcSpecBuilderView {
                        cleanup_timeout_seconds: optional_timeout(d),
                        ..b
                    },
                    _ => ProcSpecBuilderView { terminate_timeout_seconds: optional_timeout(d), ..b },
                },
            ),
        }
    } else {
        Some(
            match f {
                ProcFlag::Name => ProcSpecBuilderView { name: Some(v), ..b },
                ProcFlag::Run => ProcSpecBuilderView { run: Some(v), ..b },
                ProcFlag::WaitStarted => ProcSpecBuilderView { wait_started: Some(v), ..b },
                ProcFlag::Check => ProcSpecBuilderView { check: Some(v), ..b },
                ProcFlag::Shutdown => ProcSpecBuilderView { shutdown: Some(v), ..b },
                ProcFlag::Cleanup => ProcSpecBuilderView { cleanup: Some(v), ..b },
                ProcFlag::PostStart => ProcSpecBuilderView { post_start: Some(v), ..b },
                _ => ProcSpecBuilderView {
                    run: Some(v),
                    wait_started: Some(v),
                    check: Some(v),
                    shutdown: Some(v),
                    cleanup: Some(v),
                    ..b
                },
            },
        )
    }
}

/// The supervisor flags from argument `i` on: the settings they make and
/// the index of the first process flag (after the `--` that ends them).
pub open spec fn parse_supervisor_flags(args: Seq<Seq<char>>, i: int, b: SupervisorSpecView) -> Result<(SupervisorSpecView, int), CliErrorView>
    decreases args.len() - i,
{
    if i >= args.len() || i < 0 {
        Ok((b, i))
    } else if args[i] == "--"@ {
        Ok((b, i + 1))
    } else {
        match supervisor_flag(args[i]) {
            None => Err(CliErrorView::UnknownArgument(args[i])),
            Some(f) => if i + 1 >= args.len() {
                Err(CliErrorView::MissingValue(args[i]))
            } else {
                match apply_supervisor_flag(b, f, args[i + 1]) {
                    None => Err(CliErrorView::InvalidNumber(args[i], args[i + 1])),
                    Some(b2) => parse_supervisor_flags(args, i + 2, b2),
                }
            },
        }
    }
}

/// The specification that process settings make, or the field they lack.
pub open spec fn built_proc(b: ProcSpecBuilderView) -> Result<ProcSpecView, CliErrorView> {
    match b.name {
        None => Err(CliErrorView::MissingProcField("name"@)),
        Some(name) => match b.run {
            None => Err(CliErrorView::MissingProcField("run"@)),
            Some(run) => Ok(proc_spec_of(b, name, run)),
        },
    }
}

/// The process flags from argument `i` on, added to the supervisor
/// settings `s`; `b` holds the settings of the process being described.
pub open spec fn parse_proc_flags(args: Seq<Seq<char>>, i: int, b: ProcSpecBuilderView, s: SupervisorSpecView) -> Result<SupervisorSpecView, CliErrorView>
    decreases args.len() - i,
{
    if i >= args.len() || i < 0 {
        match built_proc(b) {
            Err(e) => Err(e),
            Ok(p) => Ok(SupervisorSpecView { procs: s.procs.push(p), ..s }),
        }
    } else if args[i] == "--"@ {
        match built_proc(b) {
            Err(e) => Err(e),
            Ok(p) => parse_proc_flags(
                args,
                i + 1,
                initial_proc_settings(),
                SupervisorSpecView { procs: s.procs.push(p), ..s },
            ),
        }
    } else {
        match proc_flag(args[i]) {
            None => Err(CliErrorView::UnknownProcArgument(args[i])),
            Some(f) => if i + 1 >= args.len() {
                Err(CliErrorView::MissingValue(args[i]))
            } else {
                match apply_proc_flag(b, f, args[i + 1]) {
                    None => Err(CliErrorView::InvalidNumber(args[i], args[i + 1])),
                    Some(b2) => parse_proc_flags(args, i + 2, b2, s),
                }
            },
        }
    }
}

/// What a command line (the program name first) specifies.
pub open spec fn command_line(args: Seq<Seq<char>>) -> Result<SupervisorSpecView, CliErrorView> {
    match parse_supervisor_flags(args, 1, initial_supervisor_settings()) {
        Err(e) => Err(e),
        Ok((s, i)) => parse_proc_flags(args, i, initial_proc_settings(), s),
    }
}

/// Whether an argument is the text `lit`.
fn is_text(a: &String, lit: &str) -> (r: bool)
    ensures
        r == (a@ == lit@),
{
    *a == String::from_str(lit)
}

fn supervisor_flag_of(a: &String) -> (r: Option<SupervisorFlag>)
    ensures
        r == supervisor_flag(a@),
{
    if is_text(a, "-restarts-per-second") || is_text(a, "-start-tokens-per-second") {
        Some(SupervisorFlag::TokensPerSecond)
    } else if is_text(a, "-start-tokens-per-minute") {
        Some(SupervisorFlag::TokensPerMinute)
    } else if is_text(a, "-start-tokens-per-hour") {
        Some(SupervisorFlag::TokensPerHour)
    } else if is_text(a, "-max-restarts") || is_text(a, "-max-start-tokens") {
        Some(SupervisorFlag::MaxTokens)
    } else if is_text(a, "-status-file") {
        Some(SupervisorFlag::StatusFile)
    } else if is_text(a, "-check-delay") {
        Some(SupervisorFlag::CheckDelay)
    } else if is_text(a, "-on-start-complete") {
        Some(SupervisorFlag::OnStartComplete)
    } else if is_text(a, "-on-restart") {
        Some(SupervisorFlag::OnRestart)
    } else if is_text(a, "-on-failure") {
        Some(SupervisorFlag::OnFailure)
    } else if is_text(a, "-all-lifecycle-hooks") {
        Some(SupervisorFlag::AllLifecycleHooks)
    } else if is_text(a, "-start-complete-timeout") {
        Some(SupervisorFlag::StartCompleteTimeout)
    } else if is_text(a, "-on-restart-timeout") {
        Some(SupervisorFlag::OnRestartTimeout)
    } else if is_text(a, "-on-failure-timeout") {
        Some(SupervisorFlag::OnFailureTimeout)
    } else if is_text(a, "-on-shutdown") {
        Some(SupervisorFlag::OnShutdown)
    } else if is_text(a, "-on-shutdown-timeout") {
        Some(SupervisorFlag::OnShutdownTimeout)
    } else {
        None
    }
}

fn proc_flag_of(a: &String) -> (r: Option<ProcFlag>)
    ensures
        r == proc_flag(a@),
{
    if is_text(a, "-name") {
        Some(ProcFlag::Name)
    } else if is_text(a, "-run") {
        Some(ProcFlag::Run)
    } else if is_text(a, "-wait-started") {
        Some(ProcFlag::WaitStarted)
    } else if is_text(a, "-check") {
        Some(ProcFlag::Check)
    } else if is_text(a, "-shutdown") {
        Some(ProcFlag::Shutdown)
    } else if is_text(a, "-cleanup") || is_text(a, "-clean") {
        Some(ProcFlag::Cleanup)
    } else if is_text(a, "-post-start") {
        Some(ProcFlag::PostStart)
    } else if is_text(a, "-all-commands") {
        Some(ProcFlag::AllCommands)
    } else if is_text(a, "-wait-started-timeout") {
        Some(ProcFlag::WaitStartedTimeout)
    } else if is_text(a, "-check-timeout") {
        Some(ProcFlag::CheckTimeout)
    } else if is_text(a, "-shutdown-timeout") {
        Some(ProcFlag::ShutdownTimeout)
    } else if is_text(a, "-clean-timeout") {
        Some(ProcFlag::CleanupTimeout)
    } else if is_text(a, "-terminate-timeout") {
        Some(ProcFlag::TerminateTimeout)
    } else {
        None
    }
}

fn per_second_of(d: Decimal, seconds: i64) -> (r: Decimal)
    requires
        seconds == 60 || seconds == 3600,
    ensures
        r == per_second(d, seconds as int),
{
    proof {
        let q = d.micros as int / seconds as int;
        assert(i64::MIN <= q <= i64::MAX) by (nonlinear_arith)
            requires
                q == d.micros as int / seconds as int,
                seconds >= 60,
                i64::MIN <= d.micros <= i64::MAX,
        ;
    }
    Decimal { micros: d.micros.checked_div_euclid(seconds).unwrap() }
}

/// Applies a supervisor flag with its value; `false`, and nothing changed,
/// where the flag needs a number and the value is none.
fn apply_supervisor(b: &mut SupervisorSpecBuilder, f: SupervisorFlag, v: &String) -> (ok: bool)
    ensures
        ok == apply_supervisor_flag(old(b)@, f, v@) is Some,
        ok ==> final(b)@ == apply_supervisor_flag(old(b)@, f, v@)->0,
        !ok ==> final(b)@ == old(b)@,
{
    match f {
        SupervisorFlag::StatusFile => {
            b.set_status_file(v.clone());
            true
        },
        SupervisorFlag::OnStartComplete => {
            b.set_start_complete(v.clone());
            true
        },
        SupervisorFlag::OnRestart => {
            b.set_restart(v.clone());
            true
        },
        SupervisorFlag::OnFailure => {
            b.set_failure(v.clone());
            true
        },
        SupervisorFlag::OnShutdown => {
            b.set_on_shutdown(v.clone());
            true
        },
        SupervisorFlag::AllLifecycleHooks => {
            b.set_start_complete(v.clone());
            b.set_restart(v.clone());
            b.set_failure(v.clone());
            b.set_on_shutdown(v.clone());
            true
        },
        _ => match Decimal::parse(v.as_str()) {
            None => false,
            Some(d) => {
                match f {
                    SupervisorFlag::TokensPerSecond => b.set_restart_tokens_per_second(d),
                    SupervisorFlag::TokensPerMinute => b.set_restart_tokens_per_second(per_second_of(d, 60)),
                    SupervisorFlag::TokensPerHour => b.set_restart_tokens_per_second(per_second_of(d, 3600)),
                    SupervisorFlag::MaxTokens => b.set_max_restart_tokens(d),
                    SupervisorFlag::CheckDelay => b.set_check_delay_seconds(d),
                    SupervisorFlag::StartCompleteTimeout => b.set_start_complete_timeout(d),
                    SupervisorFlag::OnRestartTimeout => b.set_restart_timeout(d),
                    SupervisorFlag::OnFailureTimeout => b.set_failure_timeout(d),
                    _ => b.set_on_shutdown_timeout(d),
                }
                true
            },
        },
    }
}

/// Applies a process flag with its value; `false`, and nothing changed,
/// where the flag needs a number and the value is none.
fn apply_proc(b: &mut ProcSpecBuilder, f: ProcFlag, v: &String) -> (ok: bool)
    ensures
        ok == apply_proc_flag(old(b)@, f, v@) is Some,
        ok ==> final(b)@ == apply_proc_flag(old(b)@, f, v@)->0,
        !ok ==> final(b)@ == old(b)@,
{
    match f {
        ProcFlag::Name => {
            b.set_name(v.clone());
            true
        },
        ProcFlag::Run => {
            b.set_run(v.clone());
            true
        },
        ProcFlag::WaitStarted => {
            b.set_wait_started(v.clone());
            true
        },
        ProcFlag::Check => {
            b.set_check(v.clone());
            true
        },
        ProcFlag::Shutdown => {
            b.set_shutdown(v.clone());
            true
        },
        ProcFlag::Cleanup => {
            b.set_cleanup(v.clone());
            true
        },
        ProcFlag::PostStart => {
            b.set_post_start(v.clone());
            true
        },
        ProcFlag::AllCommands => {
            b.set_run(v.clone());
            b.set_wait_started(v.clone());
            b.set_check(v.clone());
            b.set_shutdown(v.clone());
            b.set_cleanup(v.clone());
            true
        },
        _ => match Decimal::parse(v.as_str()) {
            None => false,
            Some(d) => {
                match f {
                    ProcFlag::WaitStartedTimeout => b.set_wait_started_timeout_seconds(d),
                    ProcFlag::CheckTimeout => b.set_check_timeout_seconds(d),
                    ProcFlag::ShutdownTimeout => b.set_shutdown_timeout_seconds(d),
                    ProcFlag::CleanupTimeout => b.set_cleanup_timeout_seconds(d),
                    _ => b.set_terminate_timeout_seconds(d),
                }
                true
            },
        },
    }
}

/// Reads a command line, the program name first: supervisor flags up to a
/// `--`, then the flags of each process, the processes separated by `--`.
/// Every flag takes the next argument as its value.
pub fn parse_command_line(args: &Vec<String>) -> (r: Result<SupervisorSpec, CliError>)
    ensures
        match r {
            Ok(spec) => command_line(args.deep_view()) == Ok::<SupervisorSpecView, CliErrorView>(spec@),
            Err(e) => command_line(args.deep_view()) == Err::<SupervisorSpecView, CliErrorView>(e@),
        },
{
    let ghost a = args.deep_view();
    let n = args.len();
    let mut sb = SupervisorSpecBuilder::new();
    let mut i: usize = 1;
    let mut done = false;
    while !done && i < n
        invariant
            a == args.deep_view(),
            n == a.len(),
            i >= 1,
            !done ==> parse_supervisor_flags(a, 1, initial_supervisor_settings()) == parse_supervisor_flags(
                a,
                i as int,
                sb@,
            ),
            done ==> parse_supervisor_flags(a, 1, initial_supervisor_settings()) == Ok::<
                (SupervisorSpecView, int),
                CliErrorView,
            >((sb@, i as int)),
            done ==> i <= n,
        decreases n - i + (if done { 0int } else { 1int }),
    {
        if is_text(&args[i], "--") {
            i = i + 1;
            done = true;
        } else {
            match supervisor_flag_of(&args[i]) {
                None => {
                    return Err(CliError::UnknownArgument(args[i].clone()));
                },
                Some(f) => {
                    if i + 1 >= n {
                        return Err(CliError::MissingValue(args[i].clone()));
                    }
                    if !apply_supervisor(&mut sb, f, &args[i + 1]) {
                        return Err(CliError::InvalidNumber(args[i].clone(), args[i + 1].clone()));
                    }
                    i = i + 2;
                },
            }
        }
    }
    let ghost after_flags = sb@;
    proof {
        assert(parse_supervisor_flags(a, 1, initial_supervisor_settings()) == Ok::<(SupervisorSpecView, int), CliErrorView>((sb@, i as int)));
        assert(command_line(a) == parse_proc_flags(a, i as int, initial_proc_settings(), sb@));
    }
    let mut pb = ProcSpecBuilder::new();
    while i < n
        invariant
            a == args.deep_view(),
            n == a.len(),
            command_line(a) == parse_proc_flags(a, i as int, pb@, sb@),
        decreases n - i,
    {
        if is_text(&args[i], "--") {
            let built = pb.build();
            pb = ProcSpecBuilder::new();
            match built {
                Ok(p) => {
                    sb.add_proc_spec(p);
                },
                Err(SpecError::MissingField(f)) => {
                    return Err(CliError::MissingProcField(f));
                },
            }
            i = i + 1;
        } else {
            match proc_flag_of(&args[i]) {
                None => {
                    return Err(CliError::UnknownProcArgument(args[i].clone()));
                },
                Some(f) => {
                    if i + 1 >= n {
                        return Err(CliError::MissingValue(args[i].clone()));
                    }
                    if !apply_proc(&mut pb, f, &args[i + 1]) {
                        return Err(CliError::InvalidNumber(args[i].clone(), args[i + 1].clone()));
                    }
                    i = i + 2;
                },
            }
        }
    }
    match pb.build() {
        Ok(p) => {
            sb.add_proc_spec(p);
        },
        Err(SpecError::MissingField(f)) => {
            return Err(CliError::MissingProcField(f));
        },
    }
    match sb.build() {
        Ok(spec) => Ok(spec),
        Err(SpecError::MissingField(f)) => Err(CliError::MissingProcField(f)),
    }
}

/// The four lifecycle hooks of supervisor settings.
pub open spec fn hooks(b: SupervisorSpecView) -> (Option<Seq<char>>, Option<Seq<char>>, Option<Seq<char>>, Option<Seq<char>>) {
    (b.start_complete, b.restart, b.failure, b.on_shutdown)
}

/// Whether an argument names a flag that sets a lifecycle hook.
pub open spec fn names_hook_flag(a: Seq<char>) -> bool {
    a == "-on-start-complete"@ || a == "-on-restart"@ || a == "-on-failure"@ || a == "-on-shutdown"@ || a
        == "-all-lifecycle-hooks"@
}

/// `-all-lifecycle-hooks v` sets every lifecycle hook, the start-complete,
/// restart, failure and shutdown hooks, to `v`, and no other setting.
pub proof fn law_all_lifecycle_hooks_flag(b: SupervisorSpecView, v: Seq<char>)
    ensures
        apply_supervisor_flag(b, SupervisorFlag::AllLifecycleHooks, v) matches Some(r) && r.start_complete == Some(v)
            && r.restart == Some(v) && r.failure == Some(v) && r.on_shutdown == Some(v) && r.status_file
            == b.status_file && r.restart_tokens_per_second == b.restart_tokens_per_second
            && r.check_delay_seconds == b.check_delay_seconds && r.max_restart_tokens == b.max_restart_tokens
            && r.start_complete_timeout == b.start_complete_timeout && r.restart_timeout == b.restart_timeout
            && r.failure_timeout == b.failure_timeout && r.on_shutdown_timeout == b.on_shutdown_timeout
            && r.procs == b.procs,
{
}

proof fn lemma_supervisor_flags_keep_hooks(args: Seq<Seq<char>>, i: int, b: SupervisorSpecView)
    requires
        i >= 0,
        forall|j: int| i <= j < args.len() ==> !names_hook_flag(#[trigger] args[j]),
    ensures
        parse_supervisor_flags(args, i, b) matches Ok((b2, k)) ==> hooks(b2) == hooks(b) && k >= i,
    decreases args.len() - i,
{
    if i < args.len() && args[i] != "--"@ {
        match supervisor_flag(args[i]) {
            Some(f) => if i + 1 < args.len() {
                assert(!names_hook_flag(args[i]));
                match apply_supervisor_flag(b, f, args[i + 1]) {
                    Some(b2) => {
                        lemma_supervisor_flags_keep_hooks(args, i + 2, b2);
                    },
                    None => {},
                }
            },
            None => {},
        }
    }
}

proof fn lemma_proc_flags_keep_hooks(args: Seq<Seq<char>>, i: int, pb: ProcSpecBuilderView, s: SupervisorSpecView)
    ensures
        parse_proc_flags(args, i, pb, s) matches Ok(r) ==> hooks(r) == hooks(s),
    decreases args.len() - i,
{
    if i >= 0 && i < args.len() {
        if args[i] == "--"@ {
            match built_proc(pb) {
                Ok(p) => {
                    lemma_proc_flags_keep_hooks(
                        args,
                        i + 1,
                        initial_proc_settings(),
                        SupervisorSpecView { procs: s.procs.push(p), ..s },
                    );
                },
                Err(_) => {},
            }
        } else {
            match proc_flag(args[i]) {
                Some(f) => if i + 1 < args.len() {
                    match apply_proc_flag(pb, f, args[i + 1]) {
                        Some(b2) => {
                            lemma_proc_flags_keep_hooks(args, i + 2, b2, s);
                        },
                        None => {},
                    }
                },
                None => {},
            }
        }
    }
}

/// A command line that begins with `-all-lifecycle-hooks v`, and names no
/// hook flag after it, specifies `v` as each of the four lifecycle hooks.
pub proof fn law_all_lifecycle_hooks(args: Seq<Seq<char>>)
    requires
        args.len() >= 3,
        args[1] == "-all-lifecycle-hooks"@,
        forall|j: int| 3 <= j < args.len() ==> !names_hook_flag(#[trigger] args[j]),
    ensures
        command_line(args) matches Ok(spec) ==> spec.start_complete == Some(args[2]) && spec.restart == Some(args[2])
            && spec.failure == Some(args[2]) && spec.on_shutdown == Some(args[2]),
{
    reveal_strlit("--");
    reveal_strlit("-all-lifecycle-hooks");
    reveal_strlit("-restarts-per-second");
    reveal_strlit("-start-tokens-per-second");
    reveal_strlit("-start-tokens-per-minute");
    reveal_strlit("-start-tokens-per-hour");
    reveal_strlit("-max-restarts");
    reveal_strlit("-max-start-tokens");
    reveal_strlit("-status-file");
    reveal_strlit("-check-delay");
    reveal_strlit("-on-start-complete");
    reveal_strlit("-on-restart");
    reveal_strlit("-on-failure");
    assert(args[1][1] == 'a');
    assert("--"@[1] != 'a');
    assert("-restarts-per-second"@[1] != 'a');
    assert("-start-tokens-per-second"@[1] != 'a');
    assert("-start-tokens-per-minute"@[1] != 'a');
    assert("-start-tokens-per-hour"@[1] != 'a');
    assert("-max-restarts"@[1] != 'a');
    assert("-max-start-tokens"@[1] != 'a');
    assert("-status-file"@[1] != 'a');
    assert("-check-delay"@[1] != 'a');
    assert("-on-start-complete"@[1] != 'a');
    assert("-on-restart"@[1] != 'a');
    assert("-on-failure"@[1] != 'a');
    assert(args[1] != "--"@);
    assert(supervisor_flag(args[1]) == Some(SupervisorFlag::AllLifecycleHooks));
    let b1 = apply_supervisor_flag(initial_supervisor_settings(), SupervisorFlag::AllLifecycleHooks, args[2])->Some_0;
    lemma_supervisor_flags_keep_hooks(args, 3, b1);
    assert(parse_supervisor_flags(args, 1, initial_supervisor_settings()) == parse_supervisor_flags(args, 3, b1));
    match parse_supervisor_flags(args, 3, b1) {
        Ok((s1, k)) => {
            lemma_proc_flags_keep_hooks(args, k, initial_proc_settings(), s1);
        },
        Err(_) => {},
    }
}

} // verus!
