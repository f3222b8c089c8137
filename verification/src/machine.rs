//! The supervision state machine: the decisions of the supervisor, from
//! its state and the outcome of the last outside action to its next state
//! and the next outside action.
//!
//! The supervisor runs every process of its specification. A (re)start
//! takes a token from the restart bucket, kills and cleans the processes
//! from the last to the first, then starts them from the first to the last:
//! each is spawned, its wait-started command must succeed, then its
//! post-start command runs. It then checks every process in order (the
//! child must still run and its check command succeed), sleeps for the
//! check delay, and checks again. A failure restarts everything; a stop
//! signal shuts the processes down from the last to the first; a refused
//! restart kills them all and exits with a failure code. The lifecycle
//! hooks and the status file mark these moments.
use vstd::prelude::*;
use crate::limiter::{RateLimiterView, take_outcome, refilled, NANOS_PER_TOKEN};
use crate::decimal::Decimal;
use crate::specs::{ProcSpecView, SupervisorSpecView};

verus! {

/// A request to stop, as delivered by the driver.
#[derive(Clone, Copy, Debug, PartialEq, Eq, Structural)]
pub enum Signal {
    /// An interrupt (SIGINT).
    Shutdown,
    /// A termination request (SIGTERM).
    Terminate,
}

/// Why a round of supervision ended.
#[derive(Clone, Copy, Debug, PartialEq, Eq, Structural)]
pub enum SupervisorError {
    IOError,
    Shutdown,
    Terminated,
    RestartLimitReached,
    ProcFailed,
}

/// How a wait between checks ended.
#[derive(Clone, Copy, Debug, PartialEq, Eq, Structural)]
pub enum SleepOutcome {
    Elapsed,
    Received(Signal),
    /// No signal can arrive any more.
    Disconnected,
}

/// How sending a signal to a child ended.
#[derive(Clone, Copy, Debug, PartialEq, Eq, Structural)]
pub enum KillOutcome {
    Killed,
    /// The child had already exited.
    InvalidInput,
    Failed,
}

/// How a non-blocking look at a child ended.
#[derive(Clone, Copy, Debug, PartialEq, Eq, Structural)]
pub enum WaitOutcome {
    StillRunning,
    Exited,
    IoError,
}

/// How a wait, bounded by a timeout, for a child to exit ended.
#[derive(Clone, Copy, Debug, PartialEq, Eq, Structural)]
pub enum ExitWait {
    Exited,
    TimedOut,
    IoError,
}

/// How a command ran.
#[derive(Clone, Copy, Debug, PartialEq, Eq, Structural)]
pub enum CommandOutcome {
    /// It exited successfully.
    Succeeded,
    /// It exited unsuccessfully.
    Failed,
    /// It ran past its timeout and was killed.
    TimedOut,
    /// It could not be run or waited for.
    IoError,
}

/// The outcome of the last action, handed back by the driver.
#[derive(Debug)]
pub enum Event {
    /// Supervision begins.
    Start,
    SignalPolled(Option<Signal>),
    Slept(SleepOutcome),
    /// The outcome of sending SIGTERM or SIGKILL.
    Killed(KillOutcome),
    /// Whether the child was waited for.
    Reaped(bool),
    ExitWaited(ExitWait),
    /// The pid of the new child, or `None` where it could not be spawned.
    Spawned(Option<u32>),
    Polled(WaitOutcome),
    CommandDone(CommandOutcome),
    /// Whether the status file was written.
    StatusWritten(bool),
}

/// Which command of a process is run.
#[derive(Clone, Copy, Debug, PartialEq, Eq, Structural)]
pub enum CommandKind {
    WaitStarted,
    Check,
    Shutdown,
    Cleanup,
    PostStart,
}

/// Which lifecycle hook of the supervisor is run.
#[derive(Clone, Copy, Debug, PartialEq, Eq, Structural)]
pub enum HookKind {
    StartComplete,
    Restart,
    Failure,
    Shutdown,
}

/// The outside action the driver is to perform next.
#[derive(Debug)]
pub enum Action {
    /// Look, without waiting, whether a stop signal arrived.
    PollSignal,
    /// Wait this long, or until a stop signal arrives.
    Sleep { millis: u64 },
    /// Send SIGTERM to the child of a process.
    Terminate { index: usize },
    /// Send SIGKILL to the child of a process and its process group.
    Kill { index: usize },
    /// Wait for the child of a process to exit.
    Reap { index: usize },
    /// Wait for the child of a process to exit, at most this long.
    WaitExit { index: usize, timeout_millis: Option<u64> },
    /// Spawn the run command of a process in a process group of its own.
    Spawn { index: usize, command: String, env: Vec<(String, String)> },
    /// Look, without waiting, whether the child of a process exited.
    TryWait { index: usize },
    /// Run a command of a process to completion, killing it after the
    /// timeout where there is one.
    RunCommand {
        index: usize,
        kind: CommandKind,
        command: String,
        env: Vec<(String, String)>,
        timeout_millis: Option<u64>,
    },
    /// Run a lifecycle hook to completion, killing it after the timeout.
    RunHook { kind: HookKind, command: String, env: Vec<(String, String)>, timeout_millis: Option<u64> },
    /// Write `status` to the status file at `path`.
    WriteStatus { path: String, status: String },
    /// Exit the supervisor with this code.
    Exit { code: i32 },
}

/// An action with its texts as character sequences.
pub enum ActionView {
    PollSignal,
    Sleep { millis: u64 },
    Terminate { index: usize },
    Kill { index: usize },
    Reap { index: usize },
    WaitExit { index: usize, timeout_millis: Option<u64> },
    Spawn { index: usize, command: Seq<char>, env: Seq<(Seq<char>, Seq<char>)> },
    TryWait { index: usize },
    RunCommand {
        index: usize,
        kind: CommandKind,
        command: Seq<char>,
        env: Seq<(Seq<char>, Seq<char>)>,
        timeout_millis: Option<u64>,
    },
    RunHook { kind: HookKind, command: Seq<char>, env: Seq<(Seq<char>, Seq<char>)>, timeout_millis: Option<u64> },
    WriteStatus { path: Seq<char>, status: Seq<char> },
    Exit { code: i32 },
}

pub open spec fn env_view(env: Seq<(String, String)>) -> Seq<(Seq<char>, Seq<char>)> {
    env.map_values(|p: (String, String)| (p.0@, p.1@))
}

impl View for Action {
    type V = ActionView;

    open spec fn view(&self) -> ActionView {
        match self {
            Action::PollSignal => ActionView::PollSignal,
            Action::Sleep { millis } => ActionView::Sleep { millis: *millis },
            Action::Terminate { index } => ActionView::Terminate { index: *index },
            Action::Kill { index } => ActionView::Kill { index: *index },
            Action::Reap { index } => ActionView::Reap { index: *index },
            Action::WaitExit { index, timeout_millis } => ActionView::WaitExit {
                index: *index,
                timeout_millis: *timeout_millis,
            },
            Action::Spawn { index, command, env } => ActionView::Spawn {
                index: *index,
                command: command@,
                env: env_view(env@),
            },
            Action::TryWait { index } => ActionView::TryWait { index: *index },
            Action::RunCommand { index, kind, command, env, timeout_millis } => ActionView::RunCommand {
                index: *index,
                kind: *kind,
                command: command@,
                env: env_view(env@),
                timeout_millis: *timeout_millis,
            },
            Action::RunHook { kind, command, env, timeout_millis } => ActionView::RunHook {
                kind: *kind,
                command: command@,
                env: env_view(env@),
                timeout_millis: *timeout_millis,
            },
            Action::WriteStatus { path, status } => ActionView::WriteStatus { path: path@, status: status@ },
            Action::Exit { code } => ActionView::Exit { code: *code },
        }
    }
}

/// A step of the supervisor that is no work on a process: a status file
/// write or a lifecycle hook.
#[derive(Clone, Copy, Debug, PartialEq, Eq, Structural)]
pub enum Hook {
    /// Writing `STARTING` before the first start.
    WriteStarting,
    /// Writing `RUNNING` after the first start of every process.
    WriteRunning,
    StartComplete,
    Restart,
    Failure,
    Shutdown,
}

/// The stage of the supervisor.
#[derive(Clone, Copy, Debug, PartialEq, Eq, Structural)]
pub enum Phase {
    /// Not started yet.
    Idle,
    /// A restart is killing the processes, from the last to the first.
    Restarting,
    /// A restart is starting the processes, from the first to the last.
    Starting,
    /// Checking the processes, from the first to the last.
    Checking,
    /// Waiting for the check delay.
    Pausing,
    /// Shutting the processes down, from the last to the first, after a stop
    /// signal.
    ShuttingDown,
    /// Killing the processes, from the last to the first, before exiting
    /// with `exit_code`.
    Killing { exit_code: i32 },
    /// Waiting for a status write or a lifecycle hook.
    Hook(Hook),
    /// Told the driver to exit.
    Exited,
}

/// Where killing one process stands.
#[derive(Clone, Copy, Debug, PartialEq, Eq, Structural)]
pub enum KillStep {
    AwaitKill,
    AwaitReap,
    AwaitCleanPoll,
    AwaitClean,
}

/// Where shutting one process down stands.
#[derive(Clone, Copy, Debug, PartialEq, Eq, Structural)]
pub enum ShutdownStep {
    AwaitPoll,
    AwaitCommand,
    AwaitTerminate,
    AwaitExit,
    AwaitCleanPoll,
    AwaitClean,
}

/// Where checking one process stands.
#[derive(Clone, Copy, Debug, PartialEq, Eq, Structural)]
pub enum CheckStep {
    AwaitPoll,
    AwaitExit,
    AwaitCheck,
}

/// Where starting one process stands.
#[derive(Clone, Copy, Debug, PartialEq, Eq, Structural)]
pub enum StartStep {
    AwaitPoll,
    /// Killing a child left from before.
    Kill(KillStep),
    AwaitSpawn,
    AwaitWaitStarted,
    AwaitPostPoll,
    AwaitPost,
}

/// The work in progress on the process at the cursor.
#[derive(Clone, Copy, Debug, PartialEq, Eq, Structural)]
pub enum Task {
    Nothing,
    Kill(KillStep),
    Shutdown(ShutdownStep),
    Check(CheckStep),
    Start(StartStep),
}

/// The control state of the supervisor.
#[derive(Clone, Copy, Debug, PartialEq, Eq, Structural)]
pub struct Control {
    pub phase: Phase,
    /// The process being worked on.
    pub cursor: usize,
    pub task: Task,
    /// Whether every process has been started once.
    pub started: bool,
}

/// The state that the supervisor decides on: its own pid, the pid of the
/// running child of each process, the restart bucket, and the control
/// state.
pub struct MachineView {
    pub supervisor_pid: u32,
    pub pids: Seq<Option<u32>>,
    pub limiter: RateLimiterView,
    pub control: Control,
}

/// The result of the work on one process.
#[derive(Clone, Copy, Debug, PartialEq, Eq, Structural)]
pub enum TaskResult {
    Done,
    Failed(SupervisorError),
}

/// How the work on one process goes on after an event.
pub enum Progress<S> {
    /// It waits for the outcome of this action.
    Await { pids: Seq<Option<u32>>, step: S, action: ActionView },
    /// It is over, with this result.
    Finish { pids: Seq<Option<u32>>, result: TaskResult },
}

// ---------------------------------------------------------------------
// Texts, environments and timeouts
// ---------------------------------------------------------------------

pub open spec fn digit_char(d: int) -> char {
    ((d + 48) as u32) as char
}

/// The decimal digits of `n`, most significant first.
pub open spec fn decimal_text(n: nat) -> Seq<char>
    decreases n,
{
    if n < 10 {
        seq![digit_char(n as int)]
    } else {
        decimal_text(n / 10).push(digit_char((n % 10) as int))
    }
}

/// The `ORDERLY_ACTION` of a command of a process.
pub open spec fn command_text(k: CommandKind) -> Seq<char> {
    match k {
        CommandKind::WaitStarted => "WAIT_STARTED"@,
        CommandKind::Check => "CHECK"@,
        CommandKind::Shutdown => "SHUTDOWN"@,
        CommandKind::Cleanup => "CLEANUP"@,
        CommandKind::PostStart => "POST_START"@,
    }
}

/// The `ORDERLY_ACTION` of a lifecycle hook.
pub open spec fn hook_text(k: HookKind) -> Seq<char> {
    match k {
        HookKind::StartComplete => "START_COMPLETE"@,
        HookKind::Restart => "RESTART"@,
        HookKind::Failure => "FAILURE"@,
        HookKind::Shutdown => "SHUTDOWN"@,
    }
}

/// The environment of a command of a process: its name, the action, the
/// pid of the supervisor, and the pid of its child where it has one.
pub open spec fn proc_env(name: Seq<char>, action: Seq<char>, supervisor_pid: u32, pid: Option<u32>) -> Seq<(Seq<char>, Seq<char>)> {
    seq![
        ("ORDERLY_SERVICE_NAME"@, name),
        ("ORDERLY_ACTION"@, action),
        ("ORDERLY_SUPERVISOR_PID"@, decimal_text(supervisor_pid as nat)),
    ] + match pid {
        Some(p) => seq![("ORDERLY_RUN_PID"@, decimal_text(p as nat))],
        None => Seq::empty(),
    }
}

/// The environment of a lifecycle hook: the action and the pid of the
/// supervisor.
pub open spec fn hook_env(k: HookKind, supervisor_pid: u32) -> Seq<(Seq<char>, Seq<char>)> {
    seq![("ORDERLY_ACTION"@, hook_text(k)), ("ORDERLY_SUPERVISOR_PID"@, decimal_text(supervisor_pid as nat))]
}

/// A timeout in whole milliseconds, rounded up; none where there is no
/// positive timeout.
pub open spec fn timeout_millis(t: Option<Decimal>) -> Option<u64> {
    match t {
        Some(d) => if d.micros > 0 {
            Some((d.micros / 1000 + if d.micros % 1000 == 0 { 0int } else { 1int }) as u64)
        } else {
            None
        },
        None => None,
    }
}

/// The timeout of a command of a process.
pub open spec fn command_timeout(p: ProcSpecView, k: CommandKind) -> Option<u64> {
    match k {
        CommandKind::WaitStarted => timeout_millis(p.wait_started_timeout_seconds),
        CommandKind::Check => timeout_millis(p.check_timeout_seconds),
        CommandKind::Shutdown => timeout_millis(p.shutdown_timeout_seconds),
        CommandKind::Cleanup => timeout_millis(p.cleanup_timeout_seconds),
        CommandKind::PostStart => None,
    }
}

/// The timeout of a lifecycle hook.
pub open spec fn hook_timeout(s: SupervisorSpecView, k: HookKind) -> Option<u64> {
    match k {
        HookKind::StartComplete => timeout_millis(s.start_complete_timeout),
        HookKind::Restart => timeout_millis(s.restart_timeout),
        HookKind::Failure => timeout_millis(s.failure_timeout),
        HookKind::Shutdown => timeout_millis(s.on_shutdown_timeout),
    }
}

/// Running command `c` of kind `k` of process `i`.
pub open spec fn run_command(p: ProcSpecView, sp: u32, pids: Seq<Option<u32>>, i: int, k: CommandKind, c: Seq<char>) -> ActionView {
    ActionView::RunCommand {
        index: i as usize,
        kind: k,
        command: c,
        env: proc_env(p.name, command_text(k), sp, pids[i]),
        timeout_millis: command_timeout(p, k),
    }
}

/// Running lifecycle hook `c` of kind `k`.
pub open spec fn run_hook(s: SupervisorSpecView, sp: u32, k: HookKind, c: Seq<char>) -> ActionView {
    ActionView::RunHook { kind: k, command: c, env: hook_env(k, sp), timeout_millis: hook_timeout(s, k) }
}

/// Spawning the run command of process `i`.
pub open spec fn spawn_action(p: ProcSpecView, sp: u32, i: int) -> ActionView {
    ActionView::Spawn { index: i as usize, command: p.run, env: proc_env(p.name, "RUN"@, sp, None) }
}

/// Waiting, at most the terminate timeout, for the child of process `i`.
pub open spec fn wait_exit_action(p: ProcSpecView, i: int) -> ActionView {
    ActionView::WaitExit { index: i as usize, timeout_millis: timeout_millis(p.terminate_timeout_seconds) }
}

/// The error that a stop signal ends a round with.
pub open spec fn signal_error(s: Signal) -> SupervisorError {
    match s {
        Signal::Shutdown => SupervisorError::Shutdown,
        Signal::Terminate => SupervisorError::Terminated,
    }
}

/// The result a command's outcome gives: a command that fails or times out
/// fails the process.
pub open spec fn command_result(o: CommandOutcome) -> TaskResult {
    match o {
        CommandOutcome::Succeeded => TaskResult::Done,
        CommandOutcome::Failed | CommandOutcome::TimedOut => TaskResult::Failed(SupervisorError::ProcFailed),
        CommandOutcome::IoError => TaskResult::Failed(SupervisorError::IOError),
    }
}

/// The time to wait between two rounds of checks, in milliseconds.
pub open spec fn check_delay_millis(s: SupervisorSpecView) -> u64 {
    if s.check_delay_seconds.micros <= 0 {
        0
    } else {
        (s.check_delay_seconds.micros / 1000) as u64
    }
}

// ---------------------------------------------------------------------
// The work on one process
// ---------------------------------------------------------------------

/// The first step of killing process `i`: kill its child where it has one,
/// else go straight to its cleanup.
pub open spec fn begin_kill(pids: Seq<Option<u32>>, i: int) -> (KillStep, ActionView) {
    if pids[i] is Some {
        (KillStep::AwaitKill, ActionView::Kill { index: i as usize })
    } else {
        (KillStep::AwaitCleanPoll, ActionView::PollSignal)
    }
}

/// Killing process `i`: kill and reap its child, then run its cleanup. A
/// stop signal before the cleanup, or a failing cleanup, ends it with an
/// error.
pub open spec fn kill_step(p: ProcSpecView, sp: u32, pids: Seq<Option<u32>>, i: int, step: KillStep, ev: Event) -> Progress<KillStep> {
    match step {
        KillStep::AwaitKill => match ev {
            Event::Killed(KillOutcome::Failed) => Progress::Finish {
                pids,
                result: TaskResult::Failed(SupervisorError::IOError),
            },
            _ => Progress::Await { pids, step: KillStep::AwaitReap, action: ActionView::Reap { index: i as usize } },
        },
        KillStep::AwaitReap => match ev {
            Event::Reaped(true) => Progress::Await {
                pids: pids.update(i, None),
                step: KillStep::AwaitCleanPoll,
                action: ActionView::PollSignal,
            },
            _ => Progress::Finish { pids, result: TaskResult::Failed(SupervisorError::IOError) },
        },
        KillStep::AwaitCleanPoll => match ev {
            Event::SignalPolled(Some(sig)) => Progress::Finish {
                pids,
                result: TaskResult::Failed(signal_error(sig)),
            },
            _ => match p.cleanup {
                Some(c) => Progress::Await {
                    pids,
                    step: KillStep::AwaitClean,
                    action: run_command(p, sp, pids, i, CommandKind::Cleanup, c),
                },
                None => Progress::Finish { pids, result: TaskResult::Done },
            },
        },
        KillStep::AwaitClean => match ev {
            Event::CommandDone(o) => Progress::Finish { pids, result: command_result(o) },
            _ => Progress::Finish { pids, result: TaskResult::Done },
        },
    }
}

/// Shutting process `i` down: run its shutdown command, or send SIGTERM
/// where it has none; wait for the child to exit, at most the terminate
/// timeout, and kill it where it does not (or where the shutdown command
/// fails); then run its cleanup.
pub open spec fn shutdown_step(p: ProcSpecView, sp: u32, pids: Seq<Option<u32>>, i: int, step: ShutdownStep, ev: Event) -> Progress<Task> {
    match step {
        ShutdownStep::AwaitPoll => match ev {
            Event::SignalPolled(Some(sig)) => Progress::Finish {
                pids,
                result: TaskResult::Failed(signal_error(sig)),
            },
            _ => if pids[i] is Some {
                match p.shutdown {
                    Some(c) => Progress::Await {
                        pids,
                        step: Task::Shutdown(ShutdownStep::AwaitCommand),
                        action: run_command(p, sp, pids, i, CommandKind::Shutdown, c),
                    },
                    None => Progress::Await {
                        pids,
                        step: Task::Shutdown(ShutdownStep::AwaitTerminate),
                        action: ActionView::Terminate { index: i as usize },
                    },
                }
            } else {
                Progress::Await {
                    pids,
                    step: Task::Shutdown(ShutdownStep::AwaitCleanPoll),
                    action: ActionView::PollSignal,
                }
            },
        },
        ShutdownStep::AwaitCommand => match ev {
            Event::CommandDone(CommandOutcome::Succeeded) => Progress::Await {
                pids,
                step: Task::Shutdown(ShutdownStep::AwaitExit),
                action: wait_exit_action(p, i),
            },
            _ => Progress::Await {
                pids,
                step: Task::Kill(begin_kill(pids, i).0),
                action: begin_kill(pids, i).1,
            },
        },
        ShutdownStep::AwaitTerminate => match ev {
            Event::Killed(KillOutcome::Failed) => Progress::Await {
                pids,
                step: Task::Kill(begin_kill(pids, i).0),
                action: begin_kill(pids, i).1,
            },
            _ => Progress::Await {
                pids,
                step: Task::Shutdown(ShutdownStep::AwaitExit),
                action: wait_exit_action(p, i),
            },
        },
        ShutdownStep::AwaitExit => match ev {
            Event::ExitWaited(ExitWait::Exited) => Progress::Await {
                pids: pids.update(i, None),
                step: Task::Shutdown(ShutdownStep::AwaitCleanPoll),
                action: ActionView::PollSignal,
            },
            Event::ExitWaited(ExitWait::TimedOut) => Progress::Await {
                pids,
                step: Task::Kill(begin_kill(pids, i).0),
                action: begin_kill(pids, i).1,
            },
            _ => Progress::Finish { pids, result: TaskResult::Failed(SupervisorError::IOError) },
        },
        ShutdownStep::AwaitCleanPoll => match ev {
            Event::SignalPolled(Some(sig)) => Progress::Finish {
                pids,
                result: TaskResult::Failed(signal_error(sig)),
            },
            _ => match p.cleanup {
                Some(c) => Progress::Await {
                    pids,
                    step: Task::Shutdown(ShutdownStep::AwaitClean),
                    action: run_command(p, sp, pids, i, CommandKind::Cleanup, c),
                },
                None => Progress::Finish { pids, result: TaskResult::Done },
            },
        },
        ShutdownStep::AwaitClean => match ev {
            Event::CommandDone(o) => Progress::Finish { pids, result: command_result(o) },
            _ => Progress::Finish { pids, result: TaskResult::Done },
        },
    }
}

/// Checking process `i`: its child must still run, and its check command,
/// where it has one, must exit successfully within its timeout.
pub open spec fn check_step(p: ProcSpecView, sp: u32, pids: Seq<Option<u32>>, i: int, step: CheckStep, ev: Event) -> Progress<CheckStep> {
    match step {
        CheckStep::AwaitPoll => match ev {
            Event::SignalPolled(Some(sig)) => Progress::Finish {
                pids,
                result: TaskResult::Failed(signal_error(sig)),
            },
            _ => if pids[i] is Some {
                Progress::Await { pids, step: CheckStep::AwaitExit, action: ActionView::TryWait { index: i as usize } }
            } else {
                Progress::Finish { pids, result: TaskResult::Failed(SupervisorError::ProcFailed) }
            },
        },
        CheckStep::AwaitExit => match ev {
            Event::Polled(WaitOutcome::StillRunning) => match p.check {
                Some(c) => Progress::Await {
                    pids,
                    step: CheckStep::AwaitCheck,
                    action: run_command(p, sp, pids, i, CommandKind::Check, c),
                },
                None => Progress::Finish { pids, result: TaskResult::Done },
            },
            Event::Polled(WaitOutcome::Exited) => Progress::Finish {
                pids: pids.update(i, None),
                result: TaskResult::Failed(SupervisorError::ProcFailed),
            },
            _ => Progress::Finish { pids, result: TaskResult::Failed(SupervisorError::IOError) },
        },
        CheckStep::AwaitCheck => match ev {
            Event::CommandDone(o) => Progress::Finish { pids, result: command_result(o) },
            _ => Progress::Finish { pids, result: TaskResult::Done },
        },
    }
}

/// After the child of process `i` was spawned: its wait-started command,
/// where it has one, runs alongside it; then the post-start command.
pub open spec fn after_spawn(p: ProcSpecView, sp: u32, pids: Seq<Option<u32>>, i: int) -> Progress<StartStep> {
    match p.wait_started {
        Some(w) => Progress::Await {
            pids,
            step: StartStep::AwaitWaitStarted,
            action: run_command(p, sp, pids, i, CommandKind::WaitStarted, w),
        },
        None => Progress::Await { pids, step: StartStep::AwaitPostPoll, action: ActionView::PollSignal },
    }
}

/// Starting process `i`: kill a child left from before, spawn the run
/// command, wait for its wait-started command to succeed, then run its
/// post-start command.
pub open spec fn start_step(p: ProcSpecView, sp: u32, pids: Seq<Option<u32>>, i: int, step: StartStep, ev: Event) -> Progress<StartStep> {
    match step {
        StartStep::AwaitPoll => match ev {
            Event::SignalPolled(Some(sig)) => Progress::Finish {
                pids,
                result: TaskResult::Failed(signal_error(sig)),
            },
            _ => if pids[i] is Some {
                Progress::Await {
                    pids,
                    step: StartStep::Kill(begin_kill(pids, i).0),
                    action: begin_kill(pids, i).1,
                }
            } else {
                Progress::Await { pids, step: StartStep::AwaitSpawn, action: spawn_action(p, sp, i) }
            },
        },
        StartStep::Kill(k) => match kill_step(p, sp, pids, i, k, ev) {
            Progress::Await { pids: ps, step: k2, action } => Progress::Await {
                pids: ps,
                step: StartStep::Kill(k2),
                action,
            },
            Progress::Finish { pids: ps, result } => match result {
                TaskResult::Failed(e) => Progress::Finish { pids: ps, result: TaskResult::Failed(e) },
                _ => Progress::Await { pids: ps, step: StartStep::AwaitSpawn, action: spawn_action(p, sp, i) },
            },
        },
        StartStep::AwaitSpawn => match ev {
            Event::Spawned(Some(pid)) => after_spawn(p, sp, pids.update(i, Some(pid)), i),
            _ => Progress::Finish { pids, result: TaskResult::Failed(SupervisorError::IOError) },
        },
        StartStep::AwaitWaitStarted => match ev {
            Event::CommandDone(CommandOutcome::Succeeded) => Progress::Await {
                pids,
                step: StartStep::AwaitPostPoll,
                action: ActionView::PollSignal,
            },
            Event::CommandDone(o) => Progress::Finish { pids, result: command_result(o) },
            _ => Progress::Finish { pids, result: TaskResult::Done },
        },
        StartStep::AwaitPostPoll => match ev {
            Event::SignalPolled(Some(sig)) => Progress::Finish {
                pids,
                result: TaskResult::Failed(signal_error(sig)),
            },
            _ => match p.post_start {
                Some(c) => Progress::Await {
                    pids,
                    step: StartStep::AwaitPost,
                    action: run_command(p, sp, pids, i, CommandKind::PostStart, c),
                },
                None => Progress::Finish { pids, result: TaskResult::Done },
            },
        },
        StartStep::AwaitPost => match ev {
            Event::CommandDone(o) => Progress::Finish { pids, result: command_result(o) },
            _ => Progress::Finish { pids, result: TaskResult::Done },
        },
    }
}

/// The work on process `i`, whatever it is.
pub open spec fn task_step(p: ProcSpecView, sp: u32, pids: Seq<Option<u32>>, i: int, task: Task, ev: Event) -> Progress<Task> {
    match task {
        Task::Kill(k) => match kill_step(p, sp, pids, i, k, ev) {
            Progress::Await { pids: ps, step, action } => Progress::Await { pids: ps, step: Task::Kill(step), action },
            Progress::Finish { pids: ps, result } => Progress::Finish { pids: ps, result },
        },
        Task::Shutdown(st) => shutdown_step(p, sp, pids, i, st, ev),
        Task::Check(c) => match check_step(p, sp, pids, i, c, ev) {
            Progress::Await { pids: ps, step, action } => Progress::Await { pids: ps, step: Task::Check(step), action },
            Progress::Finish { pids: ps, result } => Progress::Finish { pids: ps, result },
        },
        Task::Start(st) => match start_step(p, sp, pids, i, st, ev) {
            Progress::Await { pids: ps, step, action } => Progress::Await { pids: ps, step: Task::Start(step), action },
            Progress::Finish { pids: ps, result } => Progress::Finish { pids: ps, result },
        },
        Task::Nothing => Progress::Finish { pids, result: TaskResult::Done },
    }
}

// ---------------------------------------------------------------------
// Rounds of work over all processes
// ---------------------------------------------------------------------

/// The state with a new phase, cursor and task.
pub open spec fn set(m: MachineView, phase: Phase, cursor: int, task: Task) -> MachineView {
    MachineView { control: Control { phase, cursor: cursor as usize, task, started: m.control.started }, ..m }
}

/// Waiting for the check delay.
pub open spec fn enter_pause(s: SupervisorSpecView, m: MachineView) -> (MachineView, ActionView) {
    (set(m, Phase::Pausing, 0, Task::Nothing), ActionView::Sleep { millis: check_delay_millis(s) })
}

/// Checking every process, from the first.
pub open spec fn enter_checks(s: SupervisorSpecView, m: MachineView) -> (MachineView, ActionView) {
    if s.procs.len() == 0 {
        enter_pause(s, m)
    } else {
        (set(m, Phase::Checking, 0, Task::Check(CheckStep::AwaitPoll)), ActionView::PollSignal)
    }
}

/// After the first start of every process: the start-complete hook, if
/// any, then the checks.
pub open spec fn start_complete(s: SupervisorSpecView, m: MachineView) -> (MachineView, ActionView) {
    match s.start_complete {
        Some(c) => (
            set(m, Phase::Hook(Hook::StartComplete), 0, Task::Nothing),
            run_hook(s, m.supervisor_pid, HookKind::StartComplete, c),
        ),
        None => enter_checks(s, m),
    }
}

/// Every process has been started: the first time, the status file reads
/// `RUNNING` and the start-complete hook runs.
pub open spec fn starts_done(s: SupervisorSpecView, m: MachineView) -> (MachineView, ActionView) {
    if m.control.started {
        enter_checks(s, m)
    } else {
        let m2 = MachineView { control: Control { started: true, ..m.control }, ..m };
        match s.status_file {
            Some(f) => (
                set(m2, Phase::Hook(Hook::WriteRunning), 0, Task::Nothing),
                ActionView::WriteStatus { path: f, status: "RUNNING"@ },
            ),
            None => start_complete(s, m2),
        }
    }
}

/// Starting every process, from the first.
pub open spec fn enter_starts(s: SupervisorSpecView, m: MachineView) -> (MachineView, ActionView) {
    if s.procs.len() == 0 {
        starts_done(s, m)
    } else {
        (set(m, Phase::Starting, 0, Task::Start(StartStep::AwaitPoll)), ActionView::PollSignal)
    }
}

/// Every process is killed: the failure hook, if any, then the exit.
pub open spec fn kill_done(s: SupervisorSpecView, m: MachineView, code: i32) -> (MachineView, ActionView) {
    match s.failure {
        Some(c) => (set(m, Phase::Hook(Hook::Failure), 0, Task::Nothing), run_hook(s, m.supervisor_pid, HookKind::Failure, c)),
        None => (set(m, Phase::Exited, 0, Task::Nothing), ActionView::Exit { code }),
    }
}

/// Killing every process, from the last, then exiting with `code`.
pub open spec fn enter_kill_all(s: SupervisorSpecView, m: MachineView, code: i32) -> (MachineView, ActionView) {
    let n = s.procs.len() as int;
    if n == 0 {
        kill_done(s, m, code)
    } else {
        (
            set(m, Phase::Killing { exit_code: code }, n - 1, Task::Kill(begin_kill(m.pids, n - 1).0)),
            begin_kill(m.pids, n - 1).1,
        )
    }
}

/// Every process is shut down: the shutdown hook, if any, then the exit.
pub open spec fn shutdown_done(s: SupervisorSpecView, m: MachineView) -> (MachineView, ActionView) {
    match s.on_shutdown {
        Some(c) => (set(m, Phase::Hook(Hook::Shutdown), 0, Task::Nothing), run_hook(s, m.supervisor_pid, HookKind::Shutdown, c)),
        None => (set(m, Phase::Exited, 0, Task::Nothing), ActionView::Exit { code: 0 }),
    }
}

/// Shutting every process down, from the last.
pub open spec fn enter_shutdown(s: SupervisorSpecView, m: MachineView) -> (MachineView, ActionView) {
    let n = s.procs.len() as int;
    if n == 0 {
        shutdown_done(s, m)
    } else {
        (set(m, Phase::ShuttingDown, n - 1, Task::Shutdown(ShutdownStep::AwaitPoll)), ActionView::PollSignal)
    }
}

/// A (re)start of every process: it takes a token from the bucket, `millis`
/// milliseconds after its last refill. Without a token, every process is
/// killed and the supervisor exits with code 1; with one, every process is
/// killed, from the last, then started, from the first.
pub open spec fn enter_restart(s: SupervisorSpecView, m: MachineView, millis: int) -> (MachineView, ActionView) {
    let (after, granted) = take_outcome(m.limiter, millis);
    let m2 = MachineView { limiter: after, ..m };
    let n = s.procs.len() as int;
    if !granted {
        enter_kill_all(s, m2, 1)
    } else if n == 0 {
        enter_starts(s, m2)
    } else {
        (
            set(m2, Phase::Restarting, n - 1, Task::Kill(begin_kill(m.pids, n - 1).0)),
            begin_kill(m.pids, n - 1).1,
        )
    }
}

/// The end of a round of supervision: a failure restarts every process
/// (after the restart hook, if any), a stop signal shuts them down, and a
/// refused restart kills them and exits with code 1.
pub open spec fn end_round(s: SupervisorSpecView, m: MachineView, e: SupervisorError, millis: int) -> (MachineView, ActionView) {
    match e {
        SupervisorError::IOError | SupervisorError::ProcFailed => match s.restart {
            Some(c) => (set(m, Phase::Hook(Hook::Restart), 0, Task::Nothing), run_hook(s, m.supervisor_pid, HookKind::Restart, c)),
            None => enter_restart(s, m, millis),
        },
        SupervisorError::Shutdown | SupervisorError::Terminated => enter_shutdown(s, m),
        SupervisorError::RestartLimitReached => enter_kill_all(s, m, 1),
    }
}

/// Whether killing every process before an exit stops at this result: a
/// child that could not be killed or reaped stops it, a failing cleanup
/// or a stop signal does not.
pub open spec fn kill_stops(t: Task, result: TaskResult) -> bool {
    result is Failed && (t == Task::Kill(KillStep::AwaitKill) || t == Task::Kill(KillStep::AwaitReap))
}

/// What follows the end of the work on the process at the cursor; `m`
/// holds the pids as the work left them.
pub open spec fn finish_task(s: SupervisorSpecView, m: MachineView, result: TaskResult, millis: int) -> (MachineView, ActionView) {
    let c = m.control;
    let i = c.cursor as int;
    let n = s.procs.len() as int;
    match c.phase {
        Phase::Restarting => match result {
            TaskResult::Failed(e) => end_round(s, m, e, millis),
            _ => if i == 0 {
                enter_starts(s, m)
            } else {
                (set(m, Phase::Restarting, i - 1, Task::Kill(begin_kill(m.pids, i - 1).0)), begin_kill(m.pids, i - 1).1)
            },
        },
        Phase::Starting => match result {
            TaskResult::Failed(e) => end_round(s, m, e, millis),
            _ => if i + 1 >= n {
                starts_done(s, m)
            } else {
                (set(m, Phase::Starting, i + 1, Task::Start(StartStep::AwaitPoll)), ActionView::PollSignal)
            },
        },
        Phase::Checking => match result {
            TaskResult::Failed(e) => end_round(s, m, e, millis),
            _ => if i + 1 >= n {
                enter_pause(s, m)
            } else {
                (set(m, Phase::Checking, i + 1, Task::Check(CheckStep::AwaitPoll)), ActionView::PollSignal)
            },
        },
        Phase::ShuttingDown => match result {
            TaskResult::Failed(_) => enter_kill_all(s, m, 1),
            _ => if i == 0 {
                shutdown_done(s, m)
            } else {
                (set(m, Phase::ShuttingDown, i - 1, Task::Shutdown(ShutdownStep::AwaitPoll)), ActionView::PollSignal)
            },
        },
        Phase::Killing { exit_code } => if kill_stops(c.task, result) || i == 0 {
            kill_done(s, m, exit_code)
        } else {
            (
                set(m, Phase::Killing { exit_code }, i - 1, Task::Kill(begin_kill(m.pids, i - 1).0)),
                begin_kill(m.pids, i - 1).1,
            )
        },
        _ => (m, ActionView::PollSignal),
    }
}

/// What follows a lifecycle hook or a status write.
pub open spec fn hook_done(s: SupervisorSpecView, m: MachineView, h: Hook, ev: Event, millis: int) -> (MachineView, ActionView) {
    match h {
        Hook::WriteStarting => enter_restart(s, m, millis),
        Hook::WriteRunning => start_complete(s, m),
        Hook::StartComplete => match ev {
            Event::CommandDone(CommandOutcome::Succeeded) => enter_checks(s, m),
            Event::CommandDone(o) => match command_result(o) {
                TaskResult::Failed(e) => end_round(s, m, e, millis),
                _ => enter_checks(s, m),
            },
            _ => enter_checks(s, m),
        },
        Hook::Restart => enter_restart(s, m, millis),
        Hook::Failure => (set(m, Phase::Exited, 0, Task::Nothing), ActionView::Exit { code: 1 }),
        Hook::Shutdown => match ev {
            Event::CommandDone(CommandOutcome::Succeeded) => (set(m, Phase::Exited, 0, Task::Nothing), ActionView::Exit { code: 0 }),
            _ => (set(m, Phase::Exited, 0, Task::Nothing), ActionView::Exit { code: 1 }),
        },
    }
}

/// The next state and action of the supervisor after event `ev`; a restart
/// that it begins finds its bucket `millis` milliseconds after the last
/// refill.
pub open spec fn next(s: SupervisorSpecView, m: MachineView, ev: Event, millis: int) -> (MachineView, ActionView) {
    let c = m.control;
    match c.phase {
        Phase::Idle => match s.status_file {
            Some(f) => (set(m, Phase::Hook(Hook::WriteStarting), 0, Task::Nothing), ActionView::WriteStatus { path: f, status: "STARTING"@ }),
            None => enter_restart(s, m, millis),
        },
        Phase::Pausing => match ev {
            Event::Slept(SleepOutcome::Received(sig)) => end_round(s, m, signal_error(sig), millis),
            Event::Slept(SleepOutcome::Disconnected) => end_round(s, m, SupervisorError::Terminated, millis),
            _ => enter_checks(s, m),
        },
        Phase::Hook(h) => hook_done(s, m, h, ev, millis),
        Phase::Exited => (m, ActionView::Exit { code: 0 }),
        _ => match task_step(s.procs[c.cursor as int], m.supervisor_pid, m.pids, c.cursor as int, c.task, ev) {
            Progress::Await { pids, step, action } => (
                MachineView { pids, control: Control { task: step, ..c }, ..m },
                action,
            ),
            Progress::Finish { pids, result } => finish_task(s, MachineView { pids, ..m }, result, millis),
        },
    }
}

/// The event that each kind of step waits for.
pub open spec fn kill_accepts(k: KillStep, ev: Event) -> bool {
    match k {
        KillStep::AwaitKill => ev is Killed,
        KillStep::AwaitReap => ev is Reaped,
        KillStep::AwaitCleanPoll => ev is SignalPolled,
        KillStep::AwaitClean => ev is CommandDone,
    }
}

pub open spec fn check_accepts(c: CheckStep, ev: Event) -> bool {
    match c {
        CheckStep::AwaitPoll => ev is SignalPolled,
        CheckStep::AwaitExit => ev is Polled,
        CheckStep::AwaitCheck => ev is CommandDone,
    }
}

/// Whether the supervisor waits for an event of this kind.
pub open spec fn accepts(c: Control, ev: Event) -> bool {
    match c.phase {
        Phase::Idle => ev is Start,
        Phase::Pausing => ev is Slept,
        Phase::Exited => false,
        Phase::Hook(h) => match h {
            Hook::WriteStarting | Hook::WriteRunning => ev is StatusWritten,
            _ => ev is CommandDone,
        },
        _ => match c.task {
            Task::Nothing => false,
            Task::Kill(k) => kill_accepts(k, ev),
            Task::Shutdown(st) => match st {
                ShutdownStep::AwaitPoll | ShutdownStep::AwaitCleanPoll => ev is SignalPolled,
                ShutdownStep::AwaitCommand | ShutdownStep::AwaitClean => ev is CommandDone,
                ShutdownStep::AwaitTerminate => ev is Killed,
                ShutdownStep::AwaitExit => ev is ExitWaited,
            },
            Task::Check(ck) => check_accepts(ck, ev),
            Task::Start(st) => match st {
                StartStep::AwaitPoll | StartStep::AwaitPostPoll => ev is SignalPolled,
                StartStep::Kill(k) => kill_accepts(k, ev),
                StartStep::AwaitSpawn => ev is Spawned,
                StartStep::AwaitWaitStarted | StartStep::AwaitPost => ev is CommandDone,
            },
        },
    }
}

// ---------------------------------------------------------------------
// The invariant of reachable states
// ---------------------------------------------------------------------

/// What each step of killing a process knows of its child.
pub open spec fn kill_inv(k: KillStep, pid: Option<u32>) -> bool {
    match k {
        KillStep::AwaitKill | KillStep::AwaitReap => pid is Some,
        KillStep::AwaitCleanPoll | KillStep::AwaitClean => pid is None,
    }
}

/// What each step of the work on a process knows of its child.
pub open spec fn task_inv(t: Task, pid: Option<u32>) -> bool {
    match t {
        Task::Kill(k) => kill_inv(k, pid),
        Task::Shutdown(st) => match st {
            ShutdownStep::AwaitCommand | ShutdownStep::AwaitTerminate | ShutdownStep::AwaitExit => pid is Some,
            ShutdownStep::AwaitCleanPoll | ShutdownStep::AwaitClean => pid is None,
            ShutdownStep::AwaitPoll => true,
        },
        Task::Check(c) => match c {
            CheckStep::AwaitExit | CheckStep::AwaitCheck => pid is Some,
            CheckStep::AwaitPoll => true,
        },
        Task::Start(st) => match st {
            StartStep::Kill(k) => kill_inv(k, pid),
            StartStep::AwaitSpawn => pid is None,
            StartStep::AwaitWaitStarted => pid is Some,
            _ => true,
        },
        Task::Nothing => true,
    }
}

/// Whether the phase works on the process at the cursor.
pub open spec fn phase_has_task(p: Phase) -> bool {
    match p {
        Phase::Idle | Phase::Pausing | Phase::Exited | Phase::Hook(_) => false,
        _ => true,
    }
}

/// The invariant of every state the supervisor reaches: one pid slot per
/// process, a well-formed bucket, and a cursor on a process whose child is
/// as the step in progress expects.
pub open spec fn inv(s: SupervisorSpecView, m: MachineView) -> bool {
    &&& m.pids.len() == s.procs.len()
    &&& s.procs.len() <= usize::MAX
    &&& m.limiter.wf()
    &&& (m.control.phase matches Phase::Killing { exit_code } ==> exit_code == 1)
    &&& phase_has_task(m.control.phase) ==> {
        &&& m.control.cursor < s.procs.len()
        &&& task_inv(m.control.task, m.pids[m.control.cursor as int])
    }
}

/// Whether an action treats the children as they are: it signals, reaps,
/// waits for or looks at a child, or runs a command that needs it running,
/// only where the process has one, and spawns a child, or cleans up after a
/// process, only where the process has none.
pub open spec fn respects_children(pids: Seq<Option<u32>>, a: ActionView) -> bool {
    match a {
        ActionView::Terminate { index } => index < pids.len() && pids[index as int] is Some,
        ActionView::Kill { index } => index < pids.len() && pids[index as int] is Some,
        ActionView::Reap { index } => index < pids.len() && pids[index as int] is Some,
        ActionView::WaitExit { index, .. } => index < pids.len() && pids[index as int] is Some,
        ActionView::TryWait { index } => index < pids.len() && pids[index as int] is Some,
        ActionView::Spawn { index, .. } => index < pids.len() && pids[index as int] is None,
        ActionView::RunCommand { index, kind, .. } => index < pids.len() && (kind == CommandKind::Cleanup
            ==> pids[index as int] is None) && (kind != CommandKind::Cleanup && kind != CommandKind::PostStart
            ==> pids[index as int] is Some),
        _ => true,
    }
}

// ---------------------------------------------------------------------
// Laws
// ---------------------------------------------------------------------

proof fn lemma_begin_kill(pids: Seq<Option<u32>>, i: int)
    requires
        0 <= i < pids.len() <= usize::MAX,
    ensures
        kill_inv(begin_kill(pids, i).0, pids[i]),
        respects_children(pids, begin_kill(pids, i).1),
{
}

/// What a step of the work on a process must keep: the pid slots, what the
/// next step knows of the child, and an action that treats the children as
/// they are.
pub open spec fn step_keeps<S>(pids: Seq<Option<u32>>, i: int, p: Progress<S>, step_inv: spec_fn(S, Option<u32>) -> bool) -> bool {
    match p {
        Progress::Await { pids: ps, step, action } => ps.len() == pids.len() && step_inv(step, ps[i])
            && respects_children(ps, action),
        Progress::Finish { pids: ps, result } => ps.len() == pids.len(),
    }
}

proof fn lemma_kill_step(p: ProcSpecView, sp: u32, pids: Seq<Option<u32>>, i: int, k: KillStep, ev: Event)
    requires
        0 <= i < pids.len() <= usize::MAX,
        kill_inv(k, pids[i]),
    ensures
        step_keeps(pids, i, kill_step(p, sp, pids, i, k, ev), |k2: KillStep, pid: Option<u32>| kill_inv(k2, pid)),
        kill_step(p, sp, pids, i, k, ev) matches Progress::Finish { pids: ps, result } ==> (result is Failed
            || ps[i] is None),
{
}

proof fn lemma_check_step(p: ProcSpecView, sp: u32, pids: Seq<Option<u32>>, i: int, c: CheckStep, ev: Event)
    requires
        0 <= i < pids.len() <= usize::MAX,
        task_inv(Task::Check(c), pids[i]),
    ensures
        step_keeps(pids, i, check_step(p, sp, pids, i, c, ev), |c2: CheckStep, pid: Option<u32>| task_inv(Task::Check(c2), pid)),
{
}

proof fn lemma_shutdown_step(p: ProcSpecView, sp: u32, pids: Seq<Option<u32>>, i: int, st: ShutdownStep, ev: Event)
    requires
        0 <= i < pids.len() <= usize::MAX,
        task_inv(Task::Shutdown(st), pids[i]),
    ensures
        step_keeps(pids, i, shutdown_step(p, sp, pids, i, st, ev), |t: Task, pid: Option<u32>| task_inv(t, pid)),
{
    lemma_begin_kill(pids, i);
}

proof fn lemma_start_step(p: ProcSpecView, sp: u32, pids: Seq<Option<u32>>, i: int, st: StartStep, ev: Event)
    requires
        0 <= i < pids.len() <= usize::MAX,
        task_inv(Task::Start(st), pids[i]),
    ensures
        step_keeps(pids, i, start_step(p, sp, pids, i, st, ev), |s2: StartStep, pid: Option<u32>| task_inv(Task::Start(s2), pid)),
{
    lemma_begin_kill(pids, i);
    match st {
        StartStep::Kill(k) => {
            lemma_kill_step(p, sp, pids, i, k, ev);
        },
        _ => {},
    }
}

proof fn lemma_task_step(p: ProcSpecView, sp: u32, pids: Seq<Option<u32>>, i: int, t: Task, ev: Event)
    requires
        0 <= i < pids.len() <= usize::MAX,
        task_inv(t, pids[i]),
    ensures
        step_keeps(pids, i, task_step(p, sp, pids, i, t, ev), |t2: Task, pid: Option<u32>| task_inv(t2, pid)),
{
    match t {
        Task::Kill(k) => lemma_kill_step(p, sp, pids, i, k, ev),
        Task::Shutdown(st) => lemma_shutdown_step(p, sp, pids, i, st, ev),
        Task::Check(c) => lemma_check_step(p, sp, pids, i, c, ev),
        Task::Start(st) => lemma_start_step(p, sp, pids, i, st, ev),
        Task::Nothing => {},
    }
}

/// What entering a new round, or moving on to the next process, keeps.
pub open spec fn round_keeps(s: SupervisorSpecView, r: (MachineView, ActionView)) -> bool {
    inv(s, r.0) && respects_children(r.0.pids, r.1)
}

/// A state between rounds: no work on a process in progress.
pub open spec fn between(s: SupervisorSpecView, m: MachineView) -> bool {
    &&& m.pids.len() == s.procs.len() <= usize::MAX
    &&& m.limiter.wf()
}

proof fn lemma_rounds(s: SupervisorSpecView, m: MachineView, millis: int)
    requires
        between(s, m),
        millis >= 0,
    ensures
        round_keeps(s, enter_pause(s, m)),
        round_keeps(s, enter_checks(s, m)),
        round_keeps(s, start_complete(s, m)),
        round_keeps(s, starts_done(s, m)),
        round_keeps(s, enter_starts(s, m)),
        round_keeps(s, kill_done(s, m, 1)),
        round_keeps(s, enter_kill_all(s, m, 1)),
        round_keeps(s, shutdown_done(s, m)),
        round_keeps(s, enter_shutdown(s, m)),
        round_keeps(s, enter_restart(s, m, millis)),
        forall|e: SupervisorError| round_keeps(s, #[trigger] end_round(s, m, e, millis)),
{
    let n = s.procs.len() as int;
    if n > 0 {
        lemma_begin_kill(m.pids, n - 1);
    }
    let m2 = MachineView { limiter: take_outcome(m.limiter, millis).0, ..m };
    let m3 = MachineView { control: Control { started: true, ..m.control }, ..m };
    assert(round_keeps(s, enter_kill_all(s, m2, 1)));
    assert(round_keeps(s, start_complete(s, m3)));
    assert(round_keeps(s, enter_starts(s, m2)));
    assert forall|e: SupervisorError| round_keeps(s, #[trigger] end_round(s, m, e, millis)) by {}
}

/// Every step of the supervisor keeps the invariant of reachable states,
/// and its action treats the children as they are: it signals, reaps,
/// waits for or looks at a child, or runs its shutdown, check or
/// wait-started command, only while the process has one, and spawns a
/// child, or runs the cleanup command of a process, only while it has none.
pub proof fn law_step_keeps_invariant(s: SupervisorSpecView, m: MachineView, ev: Event, millis: int)
    requires
        inv(s, m),
        accepts(m.control, ev),
        millis >= 0,
    ensures
        inv(s, next(s, m, ev, millis).0),
        respects_children(next(s, m, ev, millis).0.pids, next(s, m, ev, millis).1),
{
    let c = m.control;
    lemma_rounds(s, m, millis);
    if phase_has_task(c.phase) {
        let i = c.cursor as int;
        lemma_task_step(s.procs[i], m.supervisor_pid, m.pids, i, c.task, ev);
        match task_step(s.procs[i], m.supervisor_pid, m.pids, i, c.task, ev) {
            Progress::Await { pids, step, action } => {},
            Progress::Finish { pids, result } => {
                let m2 = MachineView { pids, ..m };
                lemma_rounds(s, m2, millis);
                if i > 0 {
                    lemma_begin_kill(pids, i - 1);
                }
            },
        }
    }
}

/// The process an action works on, where it works on one.
pub open spec fn action_index(a: ActionView) -> Option<usize> {
    match a {
        ActionView::Terminate { index } => Some(index),
        ActionView::Kill { index } => Some(index),
        ActionView::Reap { index } => Some(index),
        ActionView::WaitExit { index, .. } => Some(index),
        ActionView::Spawn { index, .. } => Some(index),
        ActionView::TryWait { index } => Some(index),
        ActionView::RunCommand { index, .. } => Some(index),
        _ => None,
    }
}

/// Phases that go over the processes from the last to the first.
pub open spec fn descending(p: Phase) -> bool {
    p is Restarting || p is ShuttingDown || p is Killing
}

/// Phases that go over the processes from the first to the last.
pub open spec fn ascending(p: Phase) -> bool {
    p is Starting || p is Checking
}

/// Processes are killed (and cleaned) and shut down from the last to the
/// first, and started and checked from the first to the last: while the
/// work on a process goes on, the step stays on that process, and its
/// action names no other; when it is done without error, the next process
/// in the phase's direction is taken up, and its action names no other.
pub proof fn law_sweep_order(s: SupervisorSpecView, m: MachineView, ev: Event, millis: int)
    requires
        inv(s, m),
        accepts(m.control, ev),
        millis >= 0,
        phase_has_task(m.control.phase),
    ensures
        ({
            let c = m.control;
            let i = c.cursor as int;
            let (m2, a) = next(s, m, ev, millis);
            match task_step(s.procs[i], m.supervisor_pid, m.pids, i, c.task, ev) {
                Progress::Await { .. } => m2.control.phase == c.phase && m2.control.cursor == c.cursor
                    && (action_index(a) is Some ==> action_index(a) == Some(c.cursor)),
                Progress::Finish { result, .. } => !(result is Failed) ==> {
                    &&& (descending(c.phase) && i > 0) ==> (m2.control.phase == c.phase && m2.control.cursor
                        == i - 1 && (action_index(a) is Some ==> action_index(a) == Some((i - 1) as usize)))
                    &&& (ascending(c.phase) && i + 1 < s.procs.len()) ==> (m2.control.phase == c.phase
                        && m2.control.cursor == i + 1 && action_index(a) is None)
                },
            }
        }),
{
}

/// The supervisor exits with code 0 only where a graceful shutdown ends
/// without error: the last process to shut down (the first one) finished
/// its shutdown cleanly and there is no shutdown hook, or there is no
/// process and a stop signal arrived while it waited, or the shutdown hook
/// succeeded. Every other exit has code 1.
pub proof fn law_exit_codes(s: SupervisorSpecView, m: MachineView, ev: Event, millis: int)
    requires
        inv(s, m),
        accepts(m.control, ev),
        millis >= 0,
    ensures
        ({
            let c = m.control;
            let a = next(s, m, ev, millis).1;
            &&& a matches ActionView::Exit { code } ==> (code == 0 || code == 1)
            &&& a == (ActionView::Exit { code: 0 }) ==> {
                ||| (c.phase == Phase::ShuttingDown && c.cursor == 0 && s.on_shutdown is None && (task_step(
                    s.procs[0],
                    m.supervisor_pid,
                    m.pids,
                    0,
                    c.task,
                    ev,
                ) matches Progress::Finish { result, .. } && !(result is Failed)))
                ||| (c.phase == Phase::Pausing && s.procs.len() == 0 && s.on_shutdown is None && (ev matches Event::Slept(
                    o,
                ) && o != SleepOutcome::Elapsed))
                ||| (c.phase == Phase::Hook(Hook::Shutdown) && ev == Event::CommandDone(CommandOutcome::Succeeded))
            }
        }),
{
}

/// A stop signal seen while the processes are restarted, started or
/// checked, or while the supervisor waits between two rounds of checks,
/// ends the round and shuts every process down, from the last.
pub proof fn law_stop_signal(s: SupervisorSpecView, m: MachineView, sig: Signal, millis: int)
    requires
        inv(s, m),
        millis >= 0,
        ({
            ||| ((m.control.phase is Restarting || m.control.phase is Starting || m.control.phase is Checking)
                && accepts(m.control, Event::SignalPolled(Some(sig))))
            ||| m.control.phase is Pausing
        }),
    ensures
        m.control.phase is Pausing ==> next(s, m, Event::Slept(SleepOutcome::Received(sig)), millis)
            == enter_shutdown(s, m),
        !(m.control.phase is Pausing) ==> next(s, m, Event::SignalPolled(Some(sig)), millis) == enter_shutdown(s, m),
{
}

/// Shutting down a process with no shutdown command sends its child
/// SIGTERM; after SIGTERM, or after a shutdown command that succeeded, the
/// child is given the terminate timeout to exit, and SIGKILL follows where
/// it has not exited by then.
pub proof fn law_terminate_before_kill(s: SupervisorSpecView, m: MachineView, ev: Event, millis: int)
    requires
        inv(s, m),
        accepts(m.control, ev),
        millis >= 0,
        m.control.phase is ShuttingDown,
    ensures
        ({
            let c = m.control;
            let i = c.cursor as int;
            let a = next(s, m, ev, millis).1;
            &&& (c.task == Task::Shutdown(ShutdownStep::AwaitPoll) && ev == Event::SignalPolled(None)
                && m.pids[i] is Some && s.procs[i].shutdown is None) ==> a == (ActionView::Terminate {
                index: c.cursor,
            })
            &&& (c.task == Task::Shutdown(ShutdownStep::AwaitTerminate) && ev != Event::Killed(KillOutcome::Failed))
                ==> a == wait_exit_action(s.procs[i], i)
            &&& (c.task == Task::Shutdown(ShutdownStep::AwaitExit) && ev == Event::ExitWaited(ExitWait::TimedOut))
                ==> a == (ActionView::Kill { index: c.cursor })
            &&& (c.task == Task::Shutdown(ShutdownStep::AwaitCommand) && ev == Event::CommandDone(
                CommandOutcome::Succeeded)) ==> a == wait_exit_action(s.procs[i], i)
        }),
{
}

/// Whether a step ends a round of restarting, starting or checking with a
/// failure, or the start-complete hook fails.
pub open spec fn round_failed(s: SupervisorSpecView, m: MachineView, ev: Event) -> bool {
    let c = m.control;
    match c.phase {
        Phase::Hook(Hook::StartComplete) => ev matches Event::CommandDone(o) && command_result(o) is Failed,
        Phase::Restarting | Phase::Starting | Phase::Checking => task_step(
            s.procs[c.cursor as int],
            m.supervisor_pid,
            m.pids,
            c.cursor as int,
            c.task,
            ev,
        ) matches Progress::Finish { result, .. } && (result == TaskResult::Failed(SupervisorError::IOError)
            || result == TaskResult::Failed(SupervisorError::ProcFailed)),
        _ => false,
    }
}

/// Whether a step begins a (re)start of every process, which takes a token
/// from the bucket: the first start, and every round that ends with a
/// failure (at once, or after the restart hook).
pub open spec fn restart_requested(s: SupervisorSpecView, m: MachineView, ev: Event) -> bool {
    match m.control.phase {
        Phase::Idle => s.status_file is None,
        Phase::Hook(Hook::WriteStarting) => true,
        Phase::Hook(Hook::Restart) => true,
        _ => s.restart is None && round_failed(s, m, ev),
    }
}

/// Every (re)start, the first one too, is paid for with one token from the
/// bucket: where a step begins a restart, the bucket is refilled for the
/// elapsed time and, if it holds a whole token, loses exactly one and the
/// processes are killed, from the last, and started again; if it does not,
/// the processes are killed and the supervisor exits with code 1. A step
/// that begins no restart leaves the bucket as it was.
pub proof fn law_restart_tokens(s: SupervisorSpecView, m: MachineView, ev: Event, millis: int)
    requires
        inv(s, m),
        accepts(m.control, ev),
        millis >= 0,
    ensures
        ({
            let (m2, a) = next(s, m, ev, millis);
            let (l2, granted) = take_outcome(m.limiter, millis);
            &&& !restart_requested(s, m, ev) ==> m2.limiter == m.limiter
            &&& restart_requested(s, m, ev) ==> {
                &&& m2.limiter == l2
                &&& granted ==> l2.tokens == refilled(m.limiter, millis) - NANOS_PER_TOKEN
                &&& (granted && s.procs.len() > 0) ==> m2.control.phase is Restarting
                &&& !granted ==> (m2.control.phase == (Phase::Killing { exit_code: 1 }) || m2.control.phase
                    == Phase::Hook(Hook::Failure) || a == (ActionView::Exit { code: 1 }))
            }
        }),
{
}

/// A child that exited, or a health check that fails or times out, during
/// a round of checks ends the round with a failure, which restarts every
/// process (after the restart hook, where there is one).
pub proof fn law_failed_check_restarts(s: SupervisorSpecView, m: MachineView, ev: Event, millis: int)
    requires
        inv(s, m),
        m.control.phase == Phase::Checking,
        ({
            ||| (m.control.task == Task::Check(CheckStep::AwaitExit) && ev == Event::Polled(WaitOutcome::Exited))
            ||| (m.control.task == Task::Check(CheckStep::AwaitCheck) && (ev == Event::CommandDone(
                CommandOutcome::Failed,
            ) || ev == Event::CommandDone(CommandOutcome::TimedOut)))
        }),
        millis >= 0,
    ensures
        next(s, m, ev, millis) == end_round(
            s,
            MachineView {
                pids: if ev == Event::Polled(WaitOutcome::Exited) {
                    m.pids.update(m.control.cursor as int, None)
                } else {
                    m.pids
                },
                ..m
            },
            SupervisorError::ProcFailed,
            millis,
        ),
        s.restart is None ==> restart_requested(s, m, ev),
{
}

/// A started process counts as started only once its wait-started command
/// exited successfully: until then its post-start command does not run and
/// the next process is not started; a wait-started command that fails or
/// times out ends the round with a failure.
pub proof fn law_wait_started(s: SupervisorSpecView, m: MachineView, o: CommandOutcome, millis: int)
    requires
        inv(s, m),
        m.control.phase == Phase::Starting,
        m.control.task == Task::Start(StartStep::AwaitWaitStarted),
        millis >= 0,
    ensures
        o == CommandOutcome::Succeeded ==> next(s, m, Event::CommandDone(o), millis) == (
            MachineView { control: Control { task: Task::Start(StartStep::AwaitPostPoll), ..m.control }, ..m },
            ActionView::PollSignal,
        ),
        o != CommandOutcome::Succeeded ==> next(s, m, Event::CommandDone(o), millis) == end_round(
            s,
            m,
            command_result(o)->Failed_0,
            millis,
        ),
{
}

/// The state after a run of events, each handed to the supervisor at a
/// step that finds its bucket the matching number of milliseconds after its
/// last refill.
pub open spec fn run(s: SupervisorSpecView, m: MachineView, evs: Seq<Event>, clock: Seq<int>) -> MachineView
    decreases evs.len(),
{
    if evs.len() == 0 || clock.len() == 0 {
        m
    } else {
        run(s, next(s, m, evs[0], clock[0]).0, evs.drop_first(), clock.drop_first())
    }
}

/// Whether every event of a run is one that the supervisor waits for at
/// its step.
pub open spec fn valid_run(s: SupervisorSpecView, m: MachineView, evs: Seq<Event>, clock: Seq<int>) -> bool
    decreases evs.len(),
{
    &&& evs.len() == clock.len()
    &&& evs.len() > 0 ==> {
        &&& accepts(m.control, evs[0])
        &&& clock[0] >= 0
        &&& valid_run(s, next(s, m, evs[0], clock[0]).0, evs.drop_first(), clock.drop_first())
    }
}

/// Whether each restart begun along a run was granted, in order.
pub open spec fn restart_grants(s: SupervisorSpecView, m: MachineView, evs: Seq<Event>, clock: Seq<int>) -> Seq<bool>
    decreases evs.len(),
{
    if evs.len() == 0 || clock.len() == 0 {
        Seq::empty()
    } else {
        let rest = restart_grants(s, next(s, m, evs[0], clock[0]).0, evs.drop_first(), clock.drop_first());
        if restart_requested(s, m, evs[0]) {
            seq![take_outcome(m.limiter, clock[0]).1] + rest
        } else {
            rest
        }
    }
}

/// With a bucket that is not refilled, a supervisor holding `k` whole
/// tokens grants exactly its first `k` restarts (the first start among
/// them) and refuses every one after; a refused restart kills every
/// process and exits with code 1.
pub proof fn law_restart_budget(s: SupervisorSpecView, m: MachineView, evs: Seq<Event>, clock: Seq<int>)
    requires
        inv(s, m),
        m.limiter.rate == 0,
        valid_run(s, m, evs, clock),
    ensures
        forall|j: int|
            0 <= j < restart_grants(s, m, evs, clock).len() ==> #[trigger] restart_grants(s, m, evs, clock)[j] == (j
                < m.limiter.tokens / (NANOS_PER_TOKEN as int)),
    decreases evs.len(),
{
    if evs.len() > 0 {
        let ev = evs[0];
        let ms = clock[0];
        law_step_keeps_invariant(s, m, ev, ms);
        law_restart_tokens(s, m, ev, ms);
        let m2 = next(s, m, ev, ms).0;
        let n = NANOS_PER_TOKEN as int;
        assert(ms * m.limiter.rate == 0);
        assert(refilled(m.limiter, ms) == m.limiter.tokens);
        law_restart_budget(s, m2, evs.drop_first(), clock.drop_first());
        let rest = restart_grants(s, m2, evs.drop_first(), clock.drop_first());
        let k = m.limiter.tokens / n;
        let k2 = m2.limiter.tokens / n;
        if restart_requested(s, m, ev) {
            let granted = take_outcome(m.limiter, ms).1;
            if granted {
                assert(k >= 1);
                assert(k2 == k - 1);
            } else {
                assert(k <= 0);
                assert(k2 == k);
            }
            let g = seq![granted] + rest;
            assert(restart_grants(s, m, evs, clock) == g);
            assert forall|j: int| 0 <= j < g.len() implies #[trigger] g[j] == (j < k) by {
                if j > 0 {
                    assert(g[j] == rest[j - 1]);
                }
            }
        } else {
            assert(k2 == k);
            assert(restart_grants(s, m, evs, clock) == rest);
        }
    }
}

/// The status file reads `STARTING` before the first start and `RUNNING`
/// once every process has been started successfully, the first time that
/// happens; a supervisor that has started every process stays started.
pub proof fn law_status_file(s: SupervisorSpecView, m: MachineView, ev: Event, millis: int)
    requires
        inv(s, m),
        accepts(m.control, ev),
        millis >= 0,
    ensures
        ({
            let (m2, a) = next(s, m, ev, millis);
            let c = m.control;
            &&& c.started ==> m2.control.started
            &&& (!c.started && m2.control.started) ==> (s.procs.len() == 0 || (c.phase == Phase::Starting
                && c.cursor + 1 == s.procs.len() && (task_step(
                s.procs[c.cursor as int],
                m.supervisor_pid,
                m.pids,
                c.cursor as int,
                c.task,
                ev,
            ) matches Progress::Finish { result, .. } && result == TaskResult::Done)))
            &&& a matches ActionView::WriteStatus { path, status } ==> (s.status_file == Some(path) && ((c.phase
                == Phase::Idle && status == "STARTING"@) || (!c.started && m2.control.started && status
                == "RUNNING"@)))
        }),
{
}

/// Each lifecycle hook runs at its moment, and only where it is set: the
/// start-complete hook when every process has been started for the first
/// time (right after the status file says so, where there is one); the
/// restart hook when a round ends with a failure, before the
/// restart; the failure hook after every process has been killed on the way
/// to exiting with code 1; the shutdown hook after every process has been
/// shut down.
pub proof fn law_lifecycle_hooks(s: SupervisorSpecView, m: MachineView, ev: Event, millis: int)
    requires
        inv(s, m),
        accepts(m.control, ev),
        millis >= 0,
    ensures
        ({
            let (m2, a) = next(s, m, ev, millis);
            let c = m.control;
            &&& a matches ActionView::RunHook { kind, command, .. } ==> match kind {
                HookKind::StartComplete => s.start_complete == Some(command) && ((!c.started
                    && m2.control.started) || c.phase == Phase::Hook(Hook::WriteRunning)),
                HookKind::Restart => s.restart == Some(command) && round_failed(s, m, ev),
                HookKind::Failure => s.failure == Some(command) && (c.phase is Killing || s.procs.len() == 0),
                HookKind::Shutdown => s.on_shutdown == Some(command) && (c.phase is ShuttingDown || s.procs.len()
                    == 0),
            }
            &&& (round_failed(s, m, ev) && s.restart is Some) ==> a == run_hook(
                s,
                m.supervisor_pid,
                HookKind::Restart,
                s.restart->Some_0,
            )
        }),
{
}

/// A failing start: where the wait-started or the post-start command of a
/// process fails, times out or cannot be run, the start does not count.
/// The round ends with a failure: the restart hook runs where there is one;
/// else the restart takes a token from the bucket and every process is
/// killed, from the last, to be started again, or, where no token is left,
/// killed before the supervisor exits with code 1. Supervision never goes
/// on to the next process, the checks or the wait between them.
pub proof fn law_failed_start_restarts(s: SupervisorSpecView, m: MachineView, o: CommandOutcome, millis: int)
    requires
        inv(s, m),
        m.control.phase == Phase::Starting,
        m.control.task == Task::Start(StartStep::AwaitWaitStarted) || m.control.task == Task::Start(
            StartStep::AwaitPost,
        ),
        o != CommandOutcome::Succeeded,
        millis >= 0,
    ensures
        ({
            let (m2, a) = next(s, m, Event::CommandDone(o), millis);
            &&& s.restart matches Some(c) ==> (m2.control.phase == Phase::Hook(Hook::Restart) && (a matches ActionView::RunHook {
                kind,
                command,
                ..
            } && kind == HookKind::Restart && command == c) && m2.limiter == m.limiter)
            &&& s.restart is None ==> {
                &&& m2.limiter == take_outcome(m.limiter, millis).0
                &&& m2.control.phase == Phase::Restarting || m2.control.phase == (Phase::Killing { exit_code: 1 })
                &&& m2.control.cursor == s.procs.len() - 1
            }
            &&& m2.control.phase != Phase::Starting && m2.control.phase != Phase::Checking && m2.control.phase
                != Phase::Pausing
            &&& m2.control.started == m.control.started
        }),
{
}

/// Whether `t` is the timeout `d` in whole milliseconds, rounded up: none
/// where `d` is none or not positive.
pub open spec fn millis_of(t: Option<u64>, d: Option<Decimal>) -> bool {
    match d {
        Some(x) => if x.micros > 0 {
            t matches Some(ms) && ms * 1000 >= x.micros && ms * 1000 < x.micros + 1000
        } else {
            t is None
        },
        None => t is None,
    }
}

/// Every command and hook runs within its own timeout: the wait-started,
/// check, shutdown and cleanup commands of a process within its
/// `-wait-started-timeout`, `-check-timeout`, `-shutdown-timeout` and
/// `-clean-timeout`, the post-start command without one, each lifecycle
/// hook within its own `-*-timeout`; and the wait for a child to exit, after
/// SIGTERM or a shutdown command, lasts the process's `-terminate-timeout`.
pub proof fn law_timeouts(s: SupervisorSpecView, m: MachineView, ev: Event, millis: int)
    requires
        inv(s, m),
        accepts(m.control, ev),
        millis >= 0,
    ensures
        ({
            let a = next(s, m, ev, millis).1;
            &&& a matches ActionView::RunCommand { index, kind, timeout_millis, .. } ==> {
                let p = s.procs[index as int];
                &&& index < s.procs.len()
                &&& kind == CommandKind::WaitStarted ==> millis_of(timeout_millis, p.wait_started_timeout_seconds)
                &&& kind == CommandKind::Check ==> millis_of(timeout_millis, p.check_timeout_seconds)
                &&& kind == CommandKind::Shutdown ==> millis_of(timeout_millis, p.shutdown_timeout_seconds)
                &&& kind == CommandKind::Cleanup ==> millis_of(timeout_millis, p.cleanup_timeout_seconds)
                &&& kind == CommandKind::PostStart ==> timeout_millis is None
            }
            &&& a matches ActionView::RunHook { kind, timeout_millis, .. } ==> {
                &&& kind == HookKind::StartComplete ==> millis_of(timeout_millis, s.start_complete_timeout)
                &&& kind == HookKind::Restart ==> millis_of(timeout_millis, s.restart_timeout)
                &&& kind == HookKind::Failure ==> millis_of(timeout_millis, s.failure_timeout)
                &&& kind == HookKind::Shutdown ==> millis_of(timeout_millis, s.on_shutdown_timeout)
            }
            &&& a matches ActionView::WaitExit { index, timeout_millis } ==> (index < s.procs.len() && millis_of(
                timeout_millis,
                s.procs[index as int].terminate_timeout_seconds,
            ))
        }),
{
    law_step_keeps_invariant(s, m, ev, millis);
    let a = next(s, m, ev, millis).1;
    assert forall|d: Option<Decimal>| #[trigger] millis_of(timeout_millis(d), d) by {}
}

/// The `ORDERLY_ACTION` that each command of a process is run with.
pub open spec fn action_name(k: CommandKind) -> Seq<char> {
    if k == CommandKind::WaitStarted {
        "WAIT_STARTED"@
    } else if k == CommandKind::Check {
        "CHECK"@
    } else if k == CommandKind::Shutdown {
        "SHUTDOWN"@
    } else if k == CommandKind::Cleanup {
        "CLEANUP"@
    } else {
        "POST_START"@
    }
}

/// Every command of a process runs with `ORDERLY_SERVICE_NAME` (the
/// process's name), `ORDERLY_ACTION` (what it is run for), and
/// `ORDERLY_SUPERVISOR_PID`, and with `ORDERLY_RUN_PID`, the pid of the
/// process's child, exactly while it has one; the run command itself is
/// spawned with the action `RUN`. Each lifecycle hook runs with its action
/// and the supervisor's pid. Pids are written in decimal.
pub proof fn law_command_env(s: SupervisorSpecView, m: MachineView, ev: Event, millis: int)
    requires
        inv(s, m),
        accepts(m.control, ev),
        millis >= 0,
    ensures
        ({
            let (m2, a) = next(s, m, ev, millis);
            let sp = decimal_text(m.supervisor_pid as nat);
            &&& a matches ActionView::RunCommand { index, kind, env, .. } ==> {
                &&& index < s.procs.len()
                &&& env[0] == ("ORDERLY_SERVICE_NAME"@, s.procs[index as int].name)
                &&& env[1] == ("ORDERLY_ACTION"@, action_name(kind))
                &&& env[2] == ("ORDERLY_SUPERVISOR_PID"@, sp)
                &&& match m2.pids[index as int] {
                    Some(pid) => env.len() == 4 && env[3] == ("ORDERLY_RUN_PID"@, decimal_text(pid as nat)),
                    None => env.len() == 3,
                }
            }
            &&& a matches ActionView::Spawn { index, env, .. } ==> env == seq![
                ("ORDERLY_SERVICE_NAME"@, s.procs[index as int].name),
                ("ORDERLY_ACTION"@, "RUN"@),
                ("ORDERLY_SUPERVISOR_PID"@, sp),
            ]
            &&& a matches ActionView::RunHook { kind, env, .. } ==> env == seq![
                ("ORDERLY_ACTION"@, if kind == HookKind::StartComplete {
                    "START_COMPLETE"@
                } else if kind == HookKind::Restart {
                    "RESTART"@
                } else if kind == HookKind::Failure {
                    "FAILURE"@
                } else {
                    "SHUTDOWN"@
                }),
                ("ORDERLY_SUPERVISOR_PID"@, sp),
            ]
        }),
{
    law_step_keeps_invariant(s, m, ev, millis);
}

/// The digits of a pid read back in base ten give the pid, with no
/// leading zero.
pub proof fn law_decimal_text(n: nat)
    ensures
        decimal_text(n).len() >= 1,
        forall|i: int| 0 <= i < decimal_text(n).len() ==> 48 <= (#[trigger] decimal_text(n)[i] as int) <= 57,
        n > 0 ==> decimal_text(n)[0] != '0',
        crate::decimal::digits_value(decimal_text(n)) == n,
    decreases n,
{
    let d = if n < 10 { n as int } else { (n % 10) as int };
    assert(digit_char(d) as int == d + 48);
    if n >= 10 {
        law_decimal_text(n / 10);
        let t = decimal_text(n / 10);
        assert(decimal_text(n).drop_last() =~= t);
        assert(decimal_text(n).last() == digit_char(d));
    } else {
        assert(decimal_text(n).drop_last() =~= Seq::<char>::empty());
        assert(crate::decimal::digits_value(Seq::<char>::empty()) == 0);
    }
}

/// Between two rounds of checks the supervisor waits the check delay, in
/// whole milliseconds rounded down, or not at all where it is not positive.
pub proof fn law_check_delay(s: SupervisorSpecView, m: MachineView, ev: Event, millis: int)
    requires
        inv(s, m),
        accepts(m.control, ev),
        millis >= 0,
    ensures
        next(s, m, ev, millis).1 matches ActionView::Sleep { millis: ms } ==> (if s.check_delay_seconds.micros
            <= 0 {
            ms == 0
        } else {
            ms * 1000 <= s.check_delay_seconds.micros < ms * 1000 + 1000
        }),
{
}

} // verus!
