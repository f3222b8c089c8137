//! The supervisor: a specification, the children it runs, its restart
//! bucket, and the state machine of [`crate::machine`] that decides, from
//! the outcome of each outside action, the next one.
use vstd::prelude::*;
use crate::limiter::RateLimiter;
use crate::decimal::Decimal;
use crate::machine::{
    restart_grants, valid_run,
    accepts, after_spawn, begin_kill, check_delay_millis, check_step, command_result,
    command_text, command_timeout, decimal_text, digit_char, end_round, enter_checks,
    enter_kill_all, enter_pause, enter_restart, enter_shutdown, enter_starts, env_view, phase_has_task,
    finish_task, hook_done, hook_env, hook_text, hook_timeout, inv, kill_done, kill_step, next,
    proc_env, run_command, run_hook, shutdown_done, shutdown_step, signal_error, spawn_action,
    start_complete, start_step, starts_done, task_step, timeout_millis, wait_exit_action, Action,
    CheckStep, CommandKind, CommandOutcome, Control, Event, ExitWait, Hook, HookKind,
    KillOutcome, KillStep, MachineView, Phase, Progress, ShutdownStep, Signal, SleepOutcome,
    StartStep, SupervisorError, Task, TaskResult, WaitOutcome,
};
use crate::specs::{ProcSpec, SupervisorSpec, SupervisorSpecView};

verus! {

/// The text of one decimal digit.
fn digit_str(d: u32) -> (r: &'static str)
    requires
        d < 10,
    ensures
        r@ == seq![digit_char(d as int)],
{
    proof {
        reveal_strlit("0");
        reveal_strlit("1");
        reveal_strlit("2");
        reveal_strlit("3");
        reveal_strlit("4");
        reveal_strlit("5");
        reveal_strlit("6");
        reveal_strlit("7");
        reveal_strlit("8");
        reveal_strlit("9");
    }
    if d == 0 {
        "0"
    } else if d == 1 {
        "1"
    } else if d == 2 {
        "2"
    } else if d == 3 {
        "3"
    } else if d == 4 {
        "4"
    } else if d == 5 {
        "5"
    } else if d == 6 {
        "6"
    } else if d == 7 {
        "7"
    } else if d == 8 {
        "8"
    } else {
        "9"
    }
}

/// The decimal digits of `n`.
pub fn decimal_string(n: u32) -> (r: String)
    ensures
        r@ == decimal_text(n as nat),
    decreases n,
{
    if n < 10 {
        String::from_str(digit_str(n))
    } else {
        let mut r = decimal_string(n / 10);
        r.append(digit_str(n % 10));
        r
    }
}

fn command_text_of(k: CommandKind) -> (r: &'static str)
    ensures
        r@ == command_text(k),
{
    match k {
        CommandKind::WaitStarted => "WAIT_STARTED",
        CommandKind::Check => "CHECK",
        CommandKind::Shutdown => "SHUTDOWN",
        CommandKind::Cleanup => "CLEANUP",
        CommandKind::PostStart => "POST_START",
    }
}

fn hook_text_of(k: HookKind) -> (r: &'static str)
    ensures
        r@ == hook_text(k),
{
    match k {
        HookKind::StartComplete => "START_COMPLETE",
        HookKind::Restart => "RESTART",
        HookKind::Failure => "FAILURE",
        HookKind::Shutdown => "SHUTDOWN",
    }
}

/// The environment of a command of a process.
fn proc_env_of(name: &String, action: &str, supervisor_pid: u32, pid: Option<u32>) -> (r: Vec<(String, String)>)
    ensures
        env_view(r@) == proc_env(name@, action@, supervisor_pid, pid),
{
    let mut r: Vec<(String, String)> = Vec::new();
    r.push((String::from_str("ORDERLY_SERVICE_NAME"), name.clone()));
    r.push((String::from_str("ORDERLY_ACTION"), String::from_str(action)));
    r.push((String::from_str("ORDERLY_SUPERVISOR_PID"), decimal_string(supervisor_pid)));
    match pid {
        Some(p) => {
            r.push((String::from_str("ORDERLY_RUN_PID"), decimal_string(p)));
        },
        None => {},
    }
    proof {
        assert(env_view(r@) =~= proc_env(name@, action@, supervisor_pid, pid));
    }
    r
}

/// The environment of a lifecycle hook.
fn hook_env_of(k: HookKind, supervisor_pid: u32) -> (r: Vec<(String, String)>)
    ensures
        env_view(r@) == hook_env(k, supervisor_pid),
{
    let mut r: Vec<(String, String)> = Vec::new();
    r.push((String::from_str("ORDERLY_ACTION"), String::from_str(hook_text_of(k))));
    r.push((String::from_str("ORDERLY_SUPERVISOR_PID"), decimal_string(supervisor_pid)));
    proof {
        assert(env_view(r@) =~= hook_env(k, supervisor_pid));
    }
    r
}

fn timeout_of(t: Option<Decimal>) -> (r: Option<u64>)
    ensures
        r == timeout_millis(t),
{
    match t {
        Some(d) => {
            if d.micros > 0 {
                let whole = d.micros / 1000;
                let part: i64 = if d.micros % 1000 == 0 { 0 } else { 1 };
                Some((whole + part) as u64)
            } else {
                None
            }
        },
        None => None,
    }
}

fn command_timeout_of(p: &ProcSpec, k: CommandKind) -> (r: Option<u64>)
    ensures
        r == command_timeout(p@, k),
{
    match k {
        CommandKind::WaitStarted => timeout_of(p.wait_started_timeout_seconds),
        CommandKind::Check => timeout_of(p.check_timeout_seconds),
        CommandKind::Shutdown => timeout_of(p.shutdown_timeout_seconds),
        CommandKind::Cleanup => timeout_of(p.cleanup_timeout_seconds),
        CommandKind::PostStart => None,
    }
}

fn hook_timeout_of(s: &SupervisorSpec, k: HookKind) -> (r: Option<u64>)
    ensures
        r == hook_timeout(s@, k),
{
    match k {
        HookKind::StartComplete => timeout_of(s.start_complete_timeout),
        HookKind::Restart => timeout_of(s.restart_timeout),
        HookKind::Failure => timeout_of(s.failure_timeout),
        HookKind::Shutdown => timeout_of(s.on_shutdown_timeout),
    }
}

fn run_command_of(p: &ProcSpec, sp: u32, pids: &Vec<Option<u32>>, i: usize, k: CommandKind, c: &String) -> (r: Action)
    requires
        i < pids.len(),
    ensures
        r@ == run_command(p@, sp, pids@, i as int, k, c@),
{
    Action::RunCommand {
        index: i,
        kind: k,
        command: c.clone(),
        env: proc_env_of(&p.name, command_text_of(k), sp, pids[i]),
        timeout_millis: command_timeout_of(p, k),
    }
}

fn run_hook_of(s: &SupervisorSpec, sp: u32, k: HookKind, c: &String) -> (r: Action)
    ensures
        r@ == run_hook(s@, sp, k, c@),
{
    Action::RunHook { kind: k, command: c.clone(), env: hook_env_of(k, sp), timeout_millis: hook_timeout_of(s, k) }
}

fn spawn_of(p: &ProcSpec, sp: u32, i: usize) -> (r: Action)
    ensures
        r@ == spawn_action(p@, sp, i as int),
{
    Action::Spawn { index: i, command: p.run.clone(), env: proc_env_of(&p.name, "RUN", sp, None) }
}

fn wait_exit_of(p: &ProcSpec, i: usize) -> (r: Action)
    ensures
        r@ == wait_exit_action(p@, i as int),
{
    Action::WaitExit { index: i, timeout_millis: timeout_of(p.terminate_timeout_seconds) }
}

fn signal_error_of(sig: Signal) -> (r: SupervisorError)
    ensures
        r == signal_error(sig),
{
    match sig {
        Signal::Shutdown => SupervisorError::Shutdown,
        Signal::Terminate => SupervisorError::Terminated,
    }
}

fn command_result_of(o: CommandOutcome) -> (r: TaskResult)
    ensures
        r == command_result(o),
{
    match o {
        CommandOutcome::Succeeded => TaskResult::Done,
        CommandOutcome::Failed | CommandOutcome::TimedOut => TaskResult::Failed(SupervisorError::ProcFailed),
        CommandOutcome::IoError => TaskResult::Failed(SupervisorError::IOError),
    }
}

/// How the work on one process goes on after an event.
pub enum Advance<S> {
    Await(S, Action),
    Finish(TaskResult),
}

/// Whether an advance, with the pids it left, is the progress the
/// specification gives.
pub open spec fn advanced<S>(r: Advance<S>, pids: Seq<Option<u32>>, p: Progress<S>) -> bool {
    match p {
        Progress::Await { pids: ps, step, action } => pids == ps && (r matches Advance::Await(s2, a) && s2
            == step && a@ == action),
        Progress::Finish { pids: ps, result } => pids == ps && (r matches Advance::Finish(r2) && r2 == result),
    }
}

fn begin_kill_of(pids: &Vec<Option<u32>>, i: usize) -> (r: (KillStep, Action))
    requires
        i < pids.len(),
    ensures
        (r.0, r.1@) == begin_kill(pids@, i as int),
{
    if pids[i].is_some() {
        (KillStep::AwaitKill, Action::Kill { index: i })
    } else {
        (KillStep::AwaitCleanPoll, Action::PollSignal)
    }
}

fn advance_kill(p: &ProcSpec, sp: u32, pids: &mut Vec<Option<u32>>, i: usize, step: KillStep, ev: &Event) -> (r: Advance<KillStep>)
    requires
        i < old(pids).len(),
    ensures
        final(pids).len() == old(pids).len(),
        advanced(r, final(pids)@, kill_step(p@, sp, old(pids)@, i as int, step, *ev)),
{
    match step {
        KillStep::AwaitKill => match ev {
            Event::Killed(KillOutcome::Failed) => Advance::Finish(TaskResult::Failed(SupervisorError::IOError)),
            _ => Advance::Await(KillStep::AwaitReap, Action::Reap { index: i }),
        },
        KillStep::AwaitReap => match ev {
            Event::Reaped(true) => {
                pids.set(i, None);
                Advance::Await(KillStep::AwaitCleanPoll, Action::PollSignal)
            },
            _ => Advance::Finish(TaskResult::Failed(SupervisorError::IOError)),
        },
        KillStep::AwaitCleanPoll => match ev {
            Event::SignalPolled(Some(sig)) => Advance::Finish(TaskResult::Failed(signal_error_of(*sig))),
            _ => match &p.cleanup {
                Some(c) => Advance::Await(KillStep::AwaitClean, run_command_of(p, sp, pids, i, CommandKind::Cleanup, c)),
                None => Advance::Finish(TaskResult::Done),
            },
        },
        KillStep::AwaitClean => match ev {
            Event::CommandDone(o) => Advance::Finish(command_result_of(*o)),
            _ => Advance::Finish(TaskResult::Done),
        },
    }
}

fn advance_shutdown(p: &ProcSpec, sp: u32, pids: &mut Vec<Option<u32>>, i: usize, step: ShutdownStep, ev: &Event) -> (r: Advance<Task>)
    requires
        i < old(pids).len(),
    ensures
        final(pids).len() == old(pids).len(),
        advanced(r, final(pids)@, shutdown_step(p@, sp, old(pids)@, i as int, step, *ev)),
{
    match step {
        ShutdownStep::AwaitPoll => match ev {
            Event::SignalPolled(Some(sig)) => Advance::Finish(TaskResult::Failed(signal_error_of(*sig))),
            _ => if pids[i].is_some() {
                match &p.shutdown {
                    Some(c) => Advance::Await(
                        Task::Shutdown(ShutdownStep::AwaitCommand),
                        run_command_of(p, sp, pids, i, CommandKind::Shutdown, c),
                    ),
                    None => Advance::Await(Task::Shutdown(ShutdownStep::AwaitTerminate), Action::Terminate { index: i }),
                }
            } else {
                Advance::Await(Task::Shutdown(ShutdownStep::AwaitCleanPoll), Action::PollSignal)
            },
        },
        ShutdownStep::AwaitCommand => match ev {
            Event::CommandDone(CommandOutcome::Succeeded) => Advance::Await(
                Task::Shutdown(ShutdownStep::AwaitExit),
                wait_exit_of(p, i),
            ),
            _ => {
                let (k, a) = begin_kill_of(pids, i);
                Advance::Await(Task::Kill(k), a)
            },
        },
        ShutdownStep::AwaitTerminate => match ev {
            Event::Killed(KillOutcome::Failed) => {
                let (k, a) = begin_kill_of(pids, i);
                Advance::Await(Task::Kill(k), a)
            },
            _ => Advance::Await(Task::Shutdown(ShutdownStep::AwaitExit), wait_exit_of(p, i)),
        },
        ShutdownStep::AwaitExit => match ev {
            Event::ExitWaited(ExitWait::Exited) => {
                pids.set(i, None);
                Advance::Await(Task::Shutdown(ShutdownStep::AwaitCleanPoll), Action::PollSignal)
            },
            Event::ExitWaited(ExitWait::TimedOut) => {
                let (k, a) = begin_kill_of(pids, i);
                Advance::Await(Task::Kill(k), a)
            },
            _ => Advance::Finish(TaskResult::Failed(SupervisorError::IOError)),
        },
        ShutdownStep::AwaitCleanPoll => match ev {
            Event::SignalPolled(Some(sig)) => Advance::Finish(TaskResult::Failed(signal_error_of(*sig))),
            _ => match &p.cleanup {
                Some(c) => Advance::Await(
                    Task::Shutdown(ShutdownStep::AwaitClean),
                    run_command_of(p, sp, pids, i, CommandKind::Cleanup, c),
                ),
                None => Advance::Finish(TaskResult::Done),
            },
        },
        ShutdownStep::AwaitClean => match ev {
            Event::CommandDone(o) => Advance::Finish(command_result_of(*o)),
            _ => Advance::Finish(TaskResult::Done),
        },
    }
}

fn advance_check(p: &ProcSpec, sp: u32, pids: &mut Vec<Option<u32>>, i: usize, step: CheckStep, ev: &Event) -> (r: Advance<CheckStep>)
    requires
        i < old(pids).len(),
    ensures
        final(pids).len() == old(pids).len(),
        advanced(r, final(pids)@, check_step(p@, sp, old(pids)@, i as int, step, *ev)),
{
    match step {
        CheckStep::AwaitPoll => match ev {
            Event::SignalPolled(Some(sig)) => Advance::Finish(TaskResult::Failed(signal_error_of(*sig))),
            _ => if pids[i].is_some() {
                Advance::Await(CheckStep::AwaitExit, Action::TryWait { index: i })
            } else {
                Advance::Finish(TaskResult::Failed(SupervisorError::ProcFailed))
            },
        },
        CheckStep::AwaitExit => match ev {
            Event::Polled(WaitOutcome::StillRunning) => match &p.check {
                Some(c) => Advance::Await(CheckStep::AwaitCheck, run_command_of(p, sp, pids, i, CommandKind::Check, c)),
                None => Advance::Finish(TaskResult::Done),
            },
            Event::Polled(WaitOutcome::Exited) => {
                pids.set(i, None);
                Advance::Finish(TaskResult::Failed(SupervisorError::ProcFailed))
            },
            _ => Advance::Finish(TaskResult::Failed(SupervisorError::IOError)),
        },
        CheckStep::AwaitCheck => match ev {
            Event::CommandDone(o) => Advance::Finish(command_result_of(*o)),
            _ => Advance::Finish(TaskResult::Done),
        },
    }
}

fn after_spawn_of(p: &ProcSpec, sp: u32, pids: &Vec<Option<u32>>, i: usize) -> (r: Advance<StartStep>)
    requires
        i < pids.len(),
    ensures
        advanced(r, pids@, after_spawn(p@, sp, pids@, i as int)),
{
    match &p.wait_started {
        Some(w) => Advance::Await(StartStep::AwaitWaitStarted, run_command_of(p, sp, pids, i, CommandKind::WaitStarted, w)),
        None => Advance::Await(StartStep::AwaitPostPoll, Action::PollSignal),
    }
}

fn advance_start(p: &ProcSpec, sp: u32, pids: &mut Vec<Option<u32>>, i: usize, step: StartStep, ev: &Event) -> (r: Advance<StartStep>)
    requires
        i < old(pids).len(),
    ensures
        final(pids).len() == old(pids).len(),
        advanced(r, final(pids)@, start_step(p@, sp, old(pids)@, i as int, step, *ev)),
{
    match step {
        StartStep::AwaitPoll => match ev {
            Event::SignalPolled(Some(sig)) => Advance::Finish(TaskResult::Failed(signal_error_of(*sig))),
            _ => if pids[i].is_some() {
                let (k, a) = begin_kill_of(pids, i);
                Advance::Await(StartStep::Kill(k), a)
            } else {
                Advance::Await(StartStep::AwaitSpawn, spawn_of(p, sp, i))
            },
        },
        StartStep::Kill(k) => match advance_kill(p, sp, pids, i, k, ev) {
            Advance::Await(k2, a) => Advance::Await(StartStep::Kill(k2), a),
            Advance::Finish(result) => match result {
                TaskResult::Failed(e) => Advance::Finish(TaskResult::Failed(e)),
                _ => Advance::Await(StartStep::AwaitSpawn, spawn_of(p, sp, i)),
            },
        },
        StartStep::AwaitSpawn => match ev {
            Event::Spawned(Some(pid)) => {
                pids.set(i, Some(*pid));
                after_spawn_of(p, sp, pids, i)
            },
            _ => Advance::Finish(TaskResult::Failed(SupervisorError::IOError)),
        },
        StartStep::AwaitWaitStarted => match ev {
            Event::CommandDone(CommandOutcome::Succeeded) => Advance::Await(StartStep::AwaitPostPoll, Action::PollSignal),
            Event::CommandDone(o) => Advance::Finish(command_result_of(*o)),
            _ => Advance::Finish(TaskResult::Done),
        },
        StartStep::AwaitPostPoll => match ev {
            Event::SignalPolled(Some(sig)) => Advance::Finish(TaskResult::Failed(signal_error_of(*sig))),
            _ => match &p.post_start {
                Some(c) => Advance::Await(StartStep::AwaitPost, run_command_of(p, sp, pids, i, CommandKind::PostStart, c)),
                None => Advance::Finish(TaskResult::Done),
            },
        },
        StartStep::AwaitPost => match ev {
            Event::CommandDone(o) => Advance::Finish(command_result_of(*o)),
            _ => Advance::Finish(TaskResult::Done),
        },
    }
}

fn advance_task(p: &ProcSpec, sp: u32, pids: &mut Vec<Option<u32>>, i: usize, task: Task, ev: &Event) -> (r: Advance<Task>)
    requires
        i < old(pids).len(),
    ensures
        final(pids).len() == old(pids).len(),
        advanced(r, final(pids)@, task_step(p@, sp, old(pids)@, i as int, task, *ev)),
{
    match task {
        Task::Kill(k) => match advance_kill(p, sp, pids, i, k, ev) {
            Advance::Await(k2, a) => Advance::Await(Task::Kill(k2), a),
            Advance::Finish(result) => Advance::Finish(result),
        },
        Task::Shutdown(st) => advance_shutdown(p, sp, pids, i, st, ev),
        Task::Check(c) => match advance_check(p, sp, pids, i, c, ev) {
            Advance::Await(c2, a) => Advance::Await(Task::Check(c2), a),
            Advance::Finish(result) => Advance::Finish(result),
        },
        Task::Start(st) => match advance_start(p, sp, pids, i, st, ev) {
            Advance::Await(s2, a) => Advance::Await(Task::Start(s2), a),
            Advance::Finish(result) => Advance::Finish(result),
        },
        Task::Nothing => Advance::Finish(TaskResult::Done),
    }
}

/// Runs the processes of a specification: holds its own pid, the pid of the
/// running child of each process, the restart bucket, and the control
/// state.
pub struct Supervisor {
    spec: SupervisorSpec,
    supervisor_pid: u32,
    pids: Vec<Option<u32>>,
    rate_limiter: RateLimiter,
    control: Control,
}

/// A supervisor: its specification and the state it decides on.
pub struct SupervisorView {
    pub spec: SupervisorSpecView,
    pub machine: MachineView,
}

impl View for Supervisor {
    type V = SupervisorView;

    closed spec fn view(&self) -> SupervisorView {
        SupervisorView {
            spec: self.spec@,
            machine: MachineView {
                supervisor_pid: self.supervisor_pid,
                pids: self.pids@,
                limiter: self.rate_limiter@,
                control: self.control,
            },
        }
    }
}

/// The state of a supervisor that has not started: no children, a full
/// bucket made from the specification's restart settings.
pub open spec fn initial_machine(s: SupervisorSpecView, supervisor_pid: u32) -> MachineView {
    MachineView {
        supervisor_pid,
        pids: Seq::new(s.procs.len(), |i: int| None::<u32>),
        limiter: crate::limiter::RateLimiterView {
            capacity: crate::limiter::bucket_capacity(s.max_restart_tokens, s.restart_tokens_per_second),
            tokens: crate::limiter::bucket_capacity(s.max_restart_tokens, s.restart_tokens_per_second),
            rate: s.restart_tokens_per_second.micros as int,
        },
        control: Control { phase: Phase::Idle, cursor: 0, task: Task::Nothing, started: false },
    }
}

impl Supervisor {
    /// The invariant of every supervisor this library makes.
    pub open spec fn wf(&self) -> bool {
        inv(self@.spec, self@.machine)
    }

    /// A supervisor of `spec`, which runs as process `supervisor_pid`, that
    /// has not started.
    pub fn new(spec: SupervisorSpec, supervisor_pid: u32) -> (r: Self)
        ensures
            r@.spec == spec@,
            r@.machine == initial_machine(spec@, supervisor_pid),
            r.wf(),
    {
        let mut pids: Vec<Option<u32>> = Vec::new();
        let n = spec.procs.len();
        while pids.len() < n
            invariant
                n == spec.procs.len(),
                pids.len() <= n,
                forall|j: int| 0 <= j < pids.len() ==> pids@[j] is None,
            decreases n - pids.len(),
        {
            pids.push(None);
        }
        let limiter = RateLimiter::new(spec.max_restart_tokens, spec.restart_tokens_per_second);
        let r = Supervisor {
            spec,
            supervisor_pid,
            pids,
            rate_limiter: limiter,
            control: Control { phase: Phase::Idle, cursor: 0, task: Task::Nothing, started: false },
        };
        proof {
            assert(r@.machine.pids =~= initial_machine(r@.spec, supervisor_pid).pids);
        }
        r
    }
}

impl Supervisor {
    /// Facts that every method below relies on.
    spec fn shaped(&self) -> bool {
        &&& self@.machine.pids.len() == self@.spec.procs.len()
        &&& self@.machine.limiter.wf()
    }

    fn set(&mut self, phase: Phase, cursor: usize, task: Task)
        ensures
            final(self)@.spec == old(self)@.spec,
            final(self)@.machine == crate::machine::set(old(self)@.machine, phase, cursor as int, task),
    {
        self.control = Control { phase, cursor, task, started: self.control.started };
    }

    fn check_delay(&self) -> (r: u64)
        ensures
            r == check_delay_millis(self@.spec),
    {
        let micros = self.spec.check_delay_seconds.micros;
        if micros <= 0 {
            0
        } else {
            (micros / 1000) as u64
        }
    }

    fn enter_pause(&mut self) -> (a: Action)
        requires
            old(self).shaped(),
        ensures
            final(self)@.spec == old(self)@.spec,
            (final(self)@.machine, a@) == enter_pause(old(self)@.spec, old(self)@.machine),
    {
        self.set(Phase::Pausing, 0, Task::Nothing);
        Action::Sleep { millis: self.check_delay() }
    }

    fn enter_checks(&mut self) -> (a: Action)
        requires
            old(self).shaped(),
        ensures
            final(self)@.spec == old(self)@.spec,
            (final(self)@.machine, a@) == enter_checks(old(self)@.spec, old(self)@.machine),
    {
        if self.spec.procs.len() == 0 {
            self.enter_pause()
        } else {
            self.set(Phase::Checking, 0, Task::Check(CheckStep::AwaitPoll));
            Action::PollSignal
        }
    }

    fn start_complete(&mut self) -> (a: Action)
        requires
            old(self).shaped(),
        ensures
            final(self)@.spec == old(self)@.spec,
            (final(self)@.machine, a@) == start_complete(old(self)@.spec, old(self)@.machine),
    {
        match &self.spec.start_complete {
            Some(c) => {
                let a = run_hook_of(&self.spec, self.supervisor_pid, HookKind::StartComplete, c);
                self.set(Phase::Hook(Hook::StartComplete), 0, Task::Nothing);
                a
            },
            None => self.enter_checks(),
        }
    }

    fn starts_done(&mut self) -> (a: Action)
        requires
            old(self).shaped(),
        ensures
            final(self)@.spec == old(self)@.spec,
            (final(self)@.machine, a@) == starts_done(old(self)@.spec, old(self)@.machine),
    {
        if self.control.started {
            self.enter_checks()
        } else {
            self.control = Control { started: true, ..self.control };
            match &self.spec.status_file {
                Some(f) => {
                    let a = Action::WriteStatus { path: f.clone(), status: String::from_str("RUNNING") };
                    self.set(Phase::Hook(Hook::WriteRunning), 0, Task::Nothing);
                    a
                },
                None => self.start_complete(),
            }
        }
    }

    fn enter_starts(&mut self) -> (a: Action)
        requires
            old(self).shaped(),
        ensures
            final(self)@.spec == old(self)@.spec,
            (final(self)@.machine, a@) == enter_starts(old(self)@.spec, old(self)@.machine),
    {
        if self.spec.procs.len() == 0 {
            self.starts_done()
        } else {
            self.set(Phase::Starting, 0, Task::Start(StartStep::AwaitPoll));
            Action::PollSignal
        }
    }

    fn kill_done(&mut self, code: i32) -> (a: Action)
        requires
            old(self).shaped(),
        ensures
            final(self)@.spec == old(self)@.spec,
            (final(self)@.machine, a@) == kill_done(old(self)@.spec, old(self)@.machine, code),
    {
        match &self.spec.failure {
            Some(c) => {
                let a = run_hook_of(&self.spec, self.supervisor_pid, HookKind::Failure, c);
                self.set(Phase::Hook(Hook::Failure), 0, Task::Nothing);
                a
            },
            None => {
                self.set(Phase::Exited, 0, Task::Nothing);
                Action::Exit { code }
            },
        }
    }

    fn enter_kill_all(&mut self, code: i32) -> (a: Action)
        requires
            old(self).shaped(),
        ensures
            final(self)@.spec == old(self)@.spec,
            (final(self)@.machine, a@) == enter_kill_all(old(self)@.spec, old(self)@.machine, code),
    {
        let n = self.spec.procs.len();
        if n == 0 {
            self.kill_done(code)
        } else {
            let (k, a) = begin_kill_of(&self.pids, n - 1);
            self.set(Phase::Killing { exit_code: code }, n - 1, Task::Kill(k));
            a
        }
    }

    fn shutdown_done(&mut self) -> (a: Action)
        requires
            old(self).shaped(),
        ensures
            final(self)@.spec == old(self)@.spec,
            (final(self)@.machine, a@) == shutdown_done(old(self)@.spec, old(self)@.machine),
    {
        match &self.spec.on_shutdown {
            Some(c) => {
                let a = run_hook_of(&self.spec, self.supervisor_pid, HookKind::Shutdown, c);
                self.set(Phase::Hook(Hook::Shutdown), 0, Task::Nothing);
                a
            },
            None => {
                self.set(Phase::Exited, 0, Task::Nothing);
                Action::Exit { code: 0 }
            },
        }
    }

    fn enter_shutdown(&mut self) -> (a: Action)
        requires
            old(self).shaped(),
        ensures
            final(self)@.spec == old(self)@.spec,
            (final(self)@.machine, a@) == enter_shutdown(old(self)@.spec, old(self)@.machine),
    {
        let n = self.spec.procs.len();
        if n == 0 {
            self.shutdown_done()
        } else {
            self.set(Phase::ShuttingDown, n - 1, Task::Shutdown(ShutdownStep::AwaitPoll));
            Action::PollSignal
        }
    }

    fn enter_restart(&mut self) -> (a: Action)
        requires
            old(self).shaped(),
        ensures
            final(self)@.spec == old(self)@.spec,
            exists|millis: u128| (final(self)@.machine, a@) == enter_restart(
                old(self)@.spec,
                old(self)@.machine,
                millis as int,
            ),
    {
        let granted = self.rate_limiter.take();
        let ghost millis = choose|m: u128| (self.rate_limiter@, granted) == crate::limiter::take_outcome(old(self)@.machine.limiter, m as int);
        let n = self.spec.procs.len();
        let a = if !granted {
            self.enter_kill_all(1)
        } else if n == 0 {
            self.enter_starts()
        } else {
            let (k, a) = begin_kill_of(&self.pids, n - 1);
            self.set(Phase::Restarting, n - 1, Task::Kill(k));
            a
        };
        assert((self@.machine, a@) == enter_restart(old(self)@.spec, old(self)@.machine, millis as int));
        a
    }

    fn end_round(&mut self, e: SupervisorError) -> (a: Action)
        requires
            old(self).shaped(),
        ensures
            final(self)@.spec == old(self)@.spec,
            exists|millis: u128| (final(self)@.machine, a@) == end_round(
                old(self)@.spec,
                old(self)@.machine,
                e,
                millis as int,
            ),
    {
        let ghost s0 = old(self)@.spec;
        let ghost m0 = old(self)@.machine;
        match e {
            SupervisorError::IOError | SupervisorError::ProcFailed => {
                match &self.spec.restart {
                    Some(c) => {
                        let a = run_hook_of(&self.spec, self.supervisor_pid, HookKind::Restart, c);
                        self.set(Phase::Hook(Hook::Restart), 0, Task::Nothing);
                        assert((self@.machine, a@) == end_round(s0, m0, e, 0));
                        a
                    },
                    None => {
                        let a = self.enter_restart();
                        let ghost millis = choose|m: u128| (self@.machine, a@) == enter_restart(s0, m0, m as int);
                        assert((self@.machine, a@) == end_round(s0, m0, e, millis as int));
                        a
                    },
                }
            },
            SupervisorError::Shutdown | SupervisorError::Terminated => {
                let a = self.enter_shutdown();
                assert((self@.machine, a@) == end_round(s0, m0, e, 0));
                a
            },
            SupervisorError::RestartLimitReached => {
                let a = self.enter_kill_all(1);
                assert((self@.machine, a@) == end_round(s0, m0, e, 0));
                a
            },
        }
    }
}


impl Supervisor {
    fn finish_task(&mut self, result: TaskResult) -> (a: Action)
        requires
            old(self).shaped(),
            phase_has_task(old(self)@.machine.control.phase) ==> old(self)@.machine.control.cursor
                < old(self)@.spec.procs.len(),
        ensures
            final(self)@.spec == old(self)@.spec,
            exists|millis: u128| (final(self)@.machine, a@) == finish_task(
                old(self)@.spec,
                old(self)@.machine,
                result,
                millis as int,
            ),
    {
        let ghost s0 = old(self)@.spec;
        let ghost m0 = old(self)@.machine;
        let i = self.control.cursor;
        let n = self.spec.procs.len();
        match self.control.phase {
            Phase::Restarting => match result {
                TaskResult::Failed(e) => {
                    let a = self.end_round(e);
                    let ghost millis = choose|m: u128| (self@.machine, a@) == end_round(s0, m0, e, m as int);
                    assert((self@.machine, a@) == finish_task(s0, m0, result, millis as int));
                    a
                },
                _ => {
                    let a = if i == 0 {
                        self.enter_starts()
                    } else {
                        let (k, a) = begin_kill_of(&self.pids, i - 1);
                        self.set(Phase::Restarting, i - 1, Task::Kill(k));
                        a
                    };
                    assert((self@.machine, a@) == finish_task(s0, m0, result, 0));
                    a
                },
            },
            Phase::Starting => match result {
                TaskResult::Failed(e) => {
                    let a = self.end_round(e);
                    let ghost millis = choose|m: u128| (self@.machine, a@) == end_round(s0, m0, e, m as int);
                    assert((self@.machine, a@) == finish_task(s0, m0, result, millis as int));
                    a
                },
                _ => {
                    let a = if i + 1 >= n {
                        self.starts_done()
                    } else {
                        self.set(Phase::Starting, i + 1, Task::Start(StartStep::AwaitPoll));
                        Action::PollSignal
                    };
                    assert((self@.machine, a@) == finish_task(s0, m0, result, 0));
                    a
                },
            },
            Phase::Checking => match result {
                TaskResult::Failed(e) => {
                    let a = self.end_round(e);
                    let ghost millis = choose|m: u128| (self@.machine, a@) == end_round(s0, m0, e, m as int);
                    assert((self@.machine, a@) == finish_task(s0, m0, result, millis as int));
                    a
                },
                _ => {
                    let a = if i + 1 >= n {
                        self.enter_pause()
                    } else {
                        self.set(Phase::Checking, i + 1, Task::Check(CheckStep::AwaitPoll));
                        Action::PollSignal
                    };
                    assert((self@.machine, a@) == finish_task(s0, m0, result, 0));
                    a
                },
            },
            Phase::ShuttingDown => {
                let a = match result {
                    TaskResult::Failed(_) => self.enter_kill_all(1),
                    _ => if i == 0 {
                        self.shutdown_done()
                    } else {
                        self.set(Phase::ShuttingDown, i - 1, Task::Shutdown(ShutdownStep::AwaitPoll));
                        Action::PollSignal
                    },
                };
                assert((self@.machine, a@) == finish_task(s0, m0, result, 0));
                a
            },
            Phase::Killing { exit_code } => {
                let stops = match result {
                    TaskResult::Failed(_) => match self.control.task {
                        Task::Kill(KillStep::AwaitKill) | Task::Kill(KillStep::AwaitReap) => true,
                        _ => false,
                    },
                    _ => false,
                };
                let a = if stops || i == 0 {
                    self.kill_done(exit_code)
                } else {
                    let (k, a) = begin_kill_of(&self.pids, i - 1);
                    self.set(Phase::Killing { exit_code }, i - 1, Task::Kill(k));
                    a
                };
                assert((self@.machine, a@) == finish_task(s0, m0, result, 0));
                a
            },
            _ => {
                assert((self@.machine, Action::PollSignal@) == finish_task(s0, m0, result, 0));
                Action::PollSignal
            },
        }
    }
}

impl Supervisor {
    fn hook_done(&mut self, h: Hook, ev: &Event) -> (a: Action)
        requires
            old(self).shaped(),
        ensures
            final(self)@.spec == old(self)@.spec,
            exists|millis: u128| (final(self)@.machine, a@) == hook_done(
                old(self)@.spec,
                old(self)@.machine,
                h,
                *ev,
                millis as int,
            ),
    {
        let ghost s0 = old(self)@.spec;
        let ghost m0 = old(self)@.machine;
        match h {
            Hook::WriteStarting | Hook::Restart => {
                let a = self.enter_restart();
                let ghost millis = choose|m: u128| (self@.machine, a@) == enter_restart(s0, m0, m as int);
                assert((self@.machine, a@) == hook_done(s0, m0, h, *ev, millis as int));
                a
            },
            Hook::WriteRunning => {
                let a = self.start_complete();
                assert((self@.machine, a@) == hook_done(s0, m0, h, *ev, 0));
                a
            },
            Hook::StartComplete => {
                let failed = match ev {
                    Event::CommandDone(o) => match command_result_of(*o) {
                        TaskResult::Failed(e) => Some(e),
                        _ => None,
                    },
                    _ => None,
                };
                match failed {
                    Some(e) => {
                        let a = self.end_round(e);
                        let ghost millis = choose|m: u128| (self@.machine, a@) == end_round(s0, m0, e, m as int);
                        assert((self@.machine, a@) == hook_done(s0, m0, h, *ev, millis as int));
                        a
                    },
                    None => {
                        let a = self.enter_checks();
                        assert((self@.machine, a@) == hook_done(s0, m0, h, *ev, 0));
                        a
                    },
                }
            },
            Hook::Failure => {
                self.set(Phase::Exited, 0, Task::Nothing);
                let a = Action::Exit { code: 1 };
                assert((self@.machine, a@) == hook_done(s0, m0, h, *ev, 0));
                a
            },
            Hook::Shutdown => {
                let code: i32 = match ev {
                    Event::CommandDone(CommandOutcome::Succeeded) => 0,
                    _ => 1,
                };
                self.set(Phase::Exited, 0, Task::Nothing);
                let a = Action::Exit { code };
                assert((self@.machine, a@) == hook_done(s0, m0, h, *ev, 0));
                a
            },
        }
    }
}

impl Supervisor {
    /// Whether the supervisor waits for an event of the kind of `ev`.
    pub fn accepts(&self, ev: &Event) -> (r: bool)
        ensures
            r == accepts(self@.machine.control, *ev),
    {
        let c = self.control;
        match c.phase {
            Phase::Idle => matches!(ev, Event::Start),
            Phase::Pausing => matches!(ev, Event::Slept(_)),
            Phase::Exited => false,
            Phase::Hook(h) => match h {
                Hook::WriteStarting | Hook::WriteRunning => matches!(ev, Event::StatusWritten(_)),
                _ => matches!(ev, Event::CommandDone(_)),
            },
            _ => match c.task {
                Task::Nothing => false,
                Task::Kill(k) => kill_accepts_of(k, ev),
                Task::Shutdown(st) => match st {
                    ShutdownStep::AwaitPoll | ShutdownStep::AwaitCleanPoll => matches!(ev, Event::SignalPolled(_)),
                    ShutdownStep::AwaitCommand | ShutdownStep::AwaitClean => matches!(ev, Event::CommandDone(_)),
                    ShutdownStep::AwaitTerminate => matches!(ev, Event::Killed(_)),
                    ShutdownStep::AwaitExit => matches!(ev, Event::ExitWaited(_)),
                },
                Task::Check(ck) => match ck {
                    CheckStep::AwaitPoll => matches!(ev, Event::SignalPolled(_)),
                    CheckStep::AwaitExit => matches!(ev, Event::Polled(_)),
                    CheckStep::AwaitCheck => matches!(ev, Event::CommandDone(_)),
                },
                Task::Start(st) => match st {
                    StartStep::AwaitPoll | StartStep::AwaitPostPoll => matches!(ev, Event::SignalPolled(_)),
                    StartStep::Kill(k) => kill_accepts_of(k, ev),
                    StartStep::AwaitSpawn => matches!(ev, Event::Spawned(_)),
                    StartStep::AwaitWaitStarted | StartStep::AwaitPost => matches!(ev, Event::CommandDone(_)),
                },
            },
        }
    }

    /// Takes the outcome `ev` of the last action and decides the next
    /// action, as [`next`] says. Where the step begins a restart, the bucket
    /// is refilled for the time since its last refill, as the clock gives
    /// it.
    pub fn step(&mut self, ev: Event) -> (a: Action)
        requires
            old(self).wf(),
            accepts(old(self)@.machine.control, ev),
        ensures
            final(self).wf(),
            final(self)@.spec == old(self)@.spec,
            exists|millis: u128| (final(self)@.machine, a@) == next(
                old(self)@.spec,
                old(self)@.machine,
                ev,
                millis as int,
            ),
    {
        let ghost s0 = old(self)@.spec;
        let ghost m0 = old(self)@.machine;
        let ghost mut millis: u128 = 0;
        let a = match self.control.phase {
            Phase::Idle => match &self.spec.status_file {
                Some(f) => {
                    let a = Action::WriteStatus { path: f.clone(), status: String::from_str("STARTING") };
                    self.set(Phase::Hook(Hook::WriteStarting), 0, Task::Nothing);
                    a
                },
                None => {
                    let a = self.enter_restart();
                    proof {
                        millis = choose|m: u128| (self@.machine, a@) == enter_restart(s0, m0, m as int);
                    }
                    a
                },
            },
            Phase::Pausing => {
                let e = match &ev {
                    Event::Slept(SleepOutcome::Received(sig)) => Some(signal_error_of(*sig)),
                    Event::Slept(SleepOutcome::Disconnected) => Some(SupervisorError::Terminated),
                    _ => None,
                };
                match e {
                    Some(e) => {
                        let a = self.end_round(e);
                        proof {
                            millis = choose|m: u128| (self@.machine, a@) == end_round(s0, m0, e, m as int);
                        }
                        a
                    },
                    None => self.enter_checks(),
                }
            },
            Phase::Hook(h) => {
                let a = self.hook_done(h, &ev);
                proof {
                    millis = choose|m: u128| (self@.machine, a@) == hook_done(s0, m0, h, ev, m as int);
                }
                a
            },
            Phase::Exited => Action::Exit { code: 0 },
            _ => {
                let i = self.control.cursor;
                let task = self.control.task;
                match advance_task(&self.spec.procs[i], self.supervisor_pid, &mut self.pids, i, task, &ev) {
                    Advance::Await(step, a) => {
                        self.control = Control { task: step, ..self.control };
                        a
                    },
                    Advance::Finish(result) => {
                        let ghost m1 = self@.machine;
                        let a = self.finish_task(result);
                        proof {
                            millis = choose|m: u128| (self@.machine, a@) == finish_task(s0, m1, result, m as int);
                        }
                        a
                    },
                }
            },
        };
        assert((self@.machine, a@) == next(s0, m0, ev, millis as int));
        proof {
            crate::machine::law_step_keeps_invariant(s0, m0, ev, millis as int);
        }
        a
    }

    /// The control state: the phase, the process worked on and the step.
    pub fn control(&self) -> (r: Control)
        ensures
            r == self@.machine.control,
    {
        self.control
    }

    /// The pid of the running child of process `index`, where it has one.
    pub fn pid(&self, index: usize) -> (r: Option<u32>)
        ensures
            r == (if index < self@.machine.pids.len() { self@.machine.pids[index as int] } else { None }),
    {
        if index < self.pids.len() {
            self.pids[index]
        } else {
            None
        }
    }

    /// The specification the supervisor runs.
    pub fn spec(&self) -> (r: &SupervisorSpec)
        ensures
            r@ == self@.spec,
    {
        &self.spec
    }
}

fn kill_accepts_of(k: KillStep, ev: &Event) -> (r: bool)
    ensures
        r == crate::machine::kill_accepts(k, *ev),
{
    match k {
        KillStep::AwaitKill => matches!(ev, Event::Killed(_)),
        KillStep::AwaitReap => matches!(ev, Event::Reaped(_)),
        KillStep::AwaitCleanPoll => matches!(ev, Event::SignalPolled(_)),
        KillStep::AwaitClean => matches!(ev, Event::CommandDone(_)),
    }
}

/// With no refill (`-start-tokens-per-second 0`) and a start pool of `k`
/// tokens, a supervisor made by [`Supervisor::new`] grants exactly its
/// first `floor(k)` (re)starts, the first start among them, and refuses
/// every one after; a refused restart kills every process and exits with
/// code 1.
pub proof fn law_start_pool(s: SupervisorSpecView, supervisor_pid: u32, evs: Seq<Event>, clock: Seq<int>)
    requires
        s.procs.len() <= usize::MAX,
        s.restart_tokens_per_second.micros == 0,
        valid_run(s, initial_machine(s, supervisor_pid), evs, clock),
    ensures
        forall|j: int|
            0 <= j < restart_grants(s, initial_machine(s, supervisor_pid), evs, clock).len() ==> #[trigger] restart_grants(
                s,
                initial_machine(s, supervisor_pid),
                evs,
                clock,
            )[j] == (j < s.max_restart_tokens.micros / 1_000_000),
{
    let m = initial_machine(s, supervisor_pid);
    assert(m.limiter.wf());
    assert(inv(s, m));
    crate::machine::law_restart_budget(s, m, evs, clock);
    assert(m.limiter.tokens / (crate::limiter::NANOS_PER_TOKEN as int) == s.max_restart_tokens.micros / 1_000_000);
}

} // verus!
