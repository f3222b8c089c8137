//! Process and supervisor specifications, and the builders that gather
//! them one setting at a time.
use vstd::prelude::*;
use crate::decimal::Decimal;

verus! {

/// A specification that lacks a field it cannot do without.
#[derive(Debug)]
pub enum SpecError {
    MissingField(&'static str),
}

/// The default for every command timeout, in seconds.
pub open spec fn default_command_timeout() -> Decimal {
    Decimal { micros: 120_000_000 }
}

/// The default time given to a process to exit before it is killed.
pub open spec fn default_terminate_timeout() -> Decimal {
    Decimal { micros: 10_000_000 }
}

/// A timeout setting: a positive number of seconds is kept, anything else
/// means that there is no timeout.
pub open spec fn optional_timeout(timeout_seconds: Decimal) -> Option<Decimal> {
    if timeout_seconds.micros > 0 {
        Some(timeout_seconds)
    } else {
        None
    }
}

fn set_optional_timeout(v: &mut Option<Decimal>, timeout_seconds: Decimal)
    ensures
        *final(v) == optional_timeout(timeout_seconds),
{
    *v = if timeout_seconds.micros > 0 {
        Some(timeout_seconds)
    } else {
        None
    }
}

/// The commands and timeouts of one supervised process.
#[derive(Debug)]
pub struct ProcSpec {
    pub name: String,
    pub run: String,
    pub wait_started: Option<String>,
    pub wait_started_timeout_seconds: Option<Decimal>,
    pub check: Option<String>,
    pub check_timeout_seconds: Option<Decimal>,
    pub shutdown: Option<String>,
    pub shutdown_timeout_seconds: Option<Decimal>,
    pub terminate_timeout_seconds: Option<Decimal>,
    pub cleanup: Option<String>,
    pub cleanup_timeout_seconds: Option<Decimal>,
    pub post_start: Option<String>,
}

/// A process specification with its texts as character sequences.
pub struct ProcSpecView {
    pub name: Seq<char>,
    pub run: Seq<char>,
    pub wait_started: Option<Seq<char>>,
    pub wait_started_timeout_seconds: Option<Decimal>,
    pub check: Option<Seq<char>>,
    pub check_timeout_seconds: Option<Decimal>,
    pub shutdown: Option<Seq<char>>,
    pub shutdown_timeout_seconds: Option<Decimal>,
    pub terminate_timeout_seconds: Option<Decimal>,
    pub cleanup: Option<Seq<char>>,
    pub cleanup_timeout_seconds: Option<Decimal>,
    pub post_start: Option<Seq<char>>,
}

impl View for ProcSpec {
    type V = ProcSpecView;

    open spec fn view(&self) -> ProcSpecView {
        ProcSpecView {
            name: self.name@,
            run: self.run@,
            wait_started: self.wait_started.deep_view(),
            wait_started_timeout_seconds: self.wait_started_timeout_seconds,
            check: self.check.deep_view(),
            check_timeout_seconds: self.check_timeout_seconds,
            shutdown: self.shutdown.deep_view(),
            shutdown_timeout_seconds: self.shutdown_timeout_seconds,
            terminate_timeout_seconds: self.terminate_timeout_seconds,
            cleanup: self.cleanup.deep_view(),
            cleanup_timeout_seconds: self.cleanup_timeout_seconds,
            post_start: self.post_start.deep_view(),
        }
    }
}

/// Gathers the settings of a process specification.
#[derive(Debug)]
pub struct ProcSpecBuilder {
    name: Option<String>,
    run: Option<String>,
    wait_started: Option<String>,
    wait_started_timeout_seconds: Option<Decimal>,
    check: Option<String>,
    check_timeout_seconds: Option<Decimal>,
    shutdown: Option<String>,
    shutdown_timeout_seconds: Option<Decimal>,
    terminate_timeout_seconds: Option<Decimal>,
    cleanup: Option<String>,
    cleanup_timeout_seconds: Option<Decimal>,
    post_start: Option<String>,
}

/// The settings gathered so far by a [`ProcSpecBuilder`].
pub struct ProcSpecBuilderView {
    pub name: Option<Seq<char>>,
    pub run: Option<Seq<char>>,
    pub wait_started: Option<Seq<char>>,
    pub wait_started_timeout_seconds: Option<Decimal>,
    pub check: Option<Seq<char>>,
    pub check_timeout_seconds: Option<Decimal>,
    pub shutdown: Option<Seq<char>>,
    pub shutdown_timeout_seconds: Option<Decimal>,
    pub terminate_timeout_seconds: Option<Decimal>,
    pub cleanup: Option<Seq<char>>,
    pub cleanup_timeout_seconds: Option<Decimal>,
    pub post_start: Option<Seq<char>>,
}

impl View for ProcSpecBuilder {
    type V = ProcSpecBuilderView;

    closed spec fn view(&self) -> ProcSpecBuilderView {
        ProcSpecBuilderView {
            name: self.name.deep_view(),
            run: self.run.deep_view(),
            wait_started: self.wait_started.deep_view(),
            wait_started_timeout_seconds: self.wait_started_timeout_seconds,
            check: self.check.deep_view(),
            check_timeout_seconds: self.check_timeout_seconds,
            shutdown: self.shutdown.deep_view(),
            shutdown_timeout_seconds: self.shutdown_timeout_seconds,
            terminate_timeout_seconds: self.terminate_timeout_seconds,
            cleanup: self.cleanup.deep_view(),
            cleanup_timeout_seconds: self.cleanup_timeout_seconds,
            post_start: self.post_start.deep_view(),
        }
    }
}

/// The settings of a fresh process specification builder.
pub open spec fn initial_proc_settings() -> ProcSpecBuilderView {
    ProcSpecBuilderView {
        name: None,
        run: None,
        wait_started: None,
        wait_started_timeout_seconds: Some(default_command_timeout()),
        check: None,
        check_timeout_seconds: Some(default_command_timeout()),
        shutdown: None,
        shutdown_timeout_seconds: Some(default_command_timeout()),
        terminate_timeout_seconds: Some(default_terminate_timeout()),
        cleanup: None,
        cleanup_timeout_seconds: Some(default_command_timeout()),
        post_start: None,
    }
}

/// The specification that gathered settings make, given the name and the
/// run command that the settings must hold.
pub open spec fn proc_spec_of(b: ProcSpecBuilderView, name: Seq<char>, run: Seq<char>) -> ProcSpecView {
    ProcSpecView {
        name: name,
        run: run,
        wait_started: b.wait_started,
        wait_started_timeout_seconds: b.wait_started_timeout_seconds,
        check: b.check,
        check_timeout_seconds: b.check_timeout_seconds,
        shutdown: b.shutdown,
        shutdown_timeout_seconds: b.shutdown_timeout_seconds,
        terminate_timeout_seconds: b.terminate_timeout_seconds,
        cleanup: b.cleanup,
        cleanup_timeout_seconds: b.cleanup_timeout_seconds,
        post_start: b.post_start,
    }
}

impl ProcSpecBuilder {
    pub fn new() -> (r: Self)
        ensures
            r@ == initial_proc_settings(),
    {
        ProcSpecBuilder {
            name: None,
            run: None,
            check: None,
            check_timeout_seconds: Some(Decimal { micros: 120_000_000 }),
            wait_started: None,
            wait_started_timeout_seconds: Some(Decimal { micros: 120_000_000 }),
            shutdown: None,
            shutdown_timeout_seconds: Some(Decimal { micros: 120_000_000 }),
            cleanup: None,
            cleanup_timeout_seconds: Some(Decimal { micros: 120_000_000 }),
            terminate_timeout_seconds: Some(Decimal { micros: 10_000_000 }),
            post_start: None,
        }
    }

    pub fn set_name(&mut self, name: String)
        ensures
            final(self)@ == (ProcSpecBuilderView { name: Some(name@), ..old(self)@ }),
    {
        self.name = Some(name)
    }

    pub fn set_run(&mut self, run: String)
        ensures
            final(self)@ == (ProcSpecBuilderView { run: Some(run@), ..old(self)@ }),
    {
        self.run = Some(run)
    }

    pub fn set_check(&mut self, check: String)
        ensures
            final(self)@ == (ProcSpecBuilderView { check: Some(check@), ..old(self)@ }),
    {
        self.check = Some(check)
    }

    pub fn set_wait_started(&mut self, wait_started: String)
        ensures
            final(self)@ == (ProcSpecBuilderView { wait_started: Some(wait_started@), ..old(self)@ }),
    {
        self.wait_started = Some(wait_started)
    }

    pub fn set_cleanup(&mut self, cleanup: String)
        ensures
            final(self)@ == (ProcSpecBuilderView { cleanup: Some(cleanup@), ..old(self)@ }),
    {
        self.cleanup = Some(cleanup)
    }

    pub fn set_shutdown(&mut self, shutdown: String)
        ensures
            final(self)@ == (ProcSpecBuilderView { shutdown: Some(shutdown@), ..old(self)@ }),
    {
        self.shutdown = Some(shutdown)
    }

    /// Sets the command run once the process reports that it is running.
    pub fn set_post_start(&mut self, post_start: String)
        ensures
            final(self)@ == (ProcSpecBuilderView { post_start: Some(post_start@), ..old(self)@ }),
    {
        self.post_start = Some(post_start)
    }

    pub fn set_wait_started_timeout_seconds(&mut self, timeout_seconds: Decimal)
        ensures
            final(self)@ == (ProcSpecBuilderView {
                wait_started_timeout_seconds: optional_timeout(timeout_seconds),
                ..old(self)@
            }),
    {
        set_optional_timeout(&mut self.wait_started_timeout_seconds, timeout_seconds)
    }

    pub fn set_check_timeout_seconds(&mut self, timeout_seconds: Decimal)
        ensures
            final(self)@ == (ProcSpecBuilderView {
                check_timeout_seconds: optional_timeout(timeout_seconds),
                ..old(self)@
            }),
    {
        set_optional_timeout(&mut self.check_timeout_seconds, timeout_seconds)
    }

    pub fn set_shutdown_timeout_seconds(&mut self, timeout_seconds: Decimal)
        ensures
            final(self)@ == (ProcSpecBuilderView {
                shutdown_timeout_seconds: optional_timeout(timeout_seconds),
                ..old(self)@
            }),
    {
        set_optional_timeout(&mut self.shutdown_timeout_seconds, timeout_seconds)
    }

    pub fn set_terminate_timeout_seconds(&mut self, timeout_seconds: Decimal)
        ensures
            final(self)@ == (ProcSpecBuilderView {
                terminate_timeout_seconds: optional_timeout(timeout_seconds),
                ..old(self)@
            }),
    {
        set_optional_timeout(&mut self.terminate_timeout_seconds, timeout_seconds)
    }

    pub fn set_cleanup_timeout_seconds(&mut self, timeout_seconds: Decimal)
        ensures
            final(self)@ == (ProcSpecBuilderView {
                cleanup_timeout_seconds: optional_timeout(timeout_seconds),
                ..old(self)@
            }),
    {
        set_optional_timeout(&mut self.cleanup_timeout_seconds, timeout_seconds)
    }

    /// Makes the specification. It needs a name and a run command; the name
    /// is asked for first.
    pub fn build(self) -> (r: Result<ProcSpec, SpecError>)
        ensures
            self@.name is None ==> (r matches Err(SpecError::MissingField(f)) && f@ == "name"@),
            self@.name is Some && self@.run is None ==> (r matches Err(SpecError::MissingField(f))
                && f@ == "run"@),
            self@.name is Some && self@.run is Some ==> (r matches Ok(spec) && spec@ == proc_spec_of(
                self@,
                self@.name->0,
                self@.run->0,
            )),
    {
        let ghost settings = self@;
        let mut spec = ProcSpec {
            name: String::new(),
            run: String::new(),
            check: self.check,
            check_timeout_seconds: self.check_timeout_seconds,
            shutdown: self.shutdown,
            shutdown_timeout_seconds: self.shutdown_timeout_seconds,
            terminate_timeout_seconds: self.terminate_timeout_seconds,
            cleanup: self.cleanup,
            cleanup_timeout_seconds: self.cleanup_timeout_seconds,
            wait_started: self.wait_started,
            wait_started_timeout_seconds: self.wait_started_timeout_seconds,
            post_start: self.post_start,
        };
        match &self.name {
            Some(name) => spec.name = name.clone(),
            None => return Err(SpecError::MissingField("name")),
        }
        match &self.run {
            Some(run) => spec.run = run.clone(),
            None => return Err(SpecError::MissingField("run")),
        }
        Ok(spec)
    }
}

/// The specification of the supervisor and the processes it runs, in the
/// order in which they start.
#[derive(Debug)]
pub struct SupervisorSpec {
    pub status_file: Option<String>,
    pub restart_tokens_per_second: Decimal,
    pub check_delay_seconds: Decimal,
    pub max_restart_tokens: Decimal,
    pub start_complete: Option<String>,
    pub start_complete_timeout: Option<Decimal>,
    pub restart: Option<String>,
    pub restart_timeout: Option<Decimal>,
    pub failure: Option<String>,
    pub failure_timeout: Option<Decimal>,
    pub on_shutdown: Option<String>,
    pub on_shutdown_timeout: Option<Decimal>,
    pub procs: Vec<ProcSpec>,
}

/// Gathers the settings of a supervisor specification.
#[derive(Debug)]
pub struct SupervisorSpecBuilder {
    status_file: Option<String>,
    pub restart_tokens_per_second: Decimal,
    pub max_restart_tokens: Decimal,
    pub check_delay_seconds: Decimal,
    pub start_complete: Option<String>,
    pub start_complete_timeout: Option<Decimal>,
    pub restart: Option<String>,
    pub restart_timeout: Option<Decimal>,
    pub failure: Option<String>,
    pub failure_timeout: Option<Decimal>,
    pub on_shutdown: Option<String>,
    pub on_shutdown_timeout: Option<Decimal>,
    procs: Vec<ProcSpec>,
}

/// A supervisor specification, or the settings gathered for one, with its
/// texts as character sequences.
pub struct SupervisorSpecView {
    pub status_file: Option<Seq<char>>,
    pub restart_tokens_per_second: Decimal,
    pub check_delay_seconds: Decimal,
    pub max_restart_tokens: Decimal,
    pub start_complete: Option<Seq<char>>,
    pub start_complete_timeout: Option<Decimal>,
    pub restart: Option<Seq<char>>,
    pub restart_timeout: Option<Decimal>,
    pub failure: Option<Seq<char>>,
    pub failure_timeout: Option<Decimal>,
    pub on_shutdown: Option<Seq<char>>,
    pub on_shutdown_timeout: Option<Decimal>,
    pub procs: Seq<ProcSpecView>,
}

pub open spec fn proc_views(procs: Seq<ProcSpec>) -> Seq<ProcSpecView> {
    procs.map_values(|p: ProcSpec| p@)
}

impl View for SupervisorSpec {
    type V = SupervisorSpecView;

    open spec fn view(&self) -> SupervisorSpecView {
        SupervisorSpecView {
            status_file: self.status_file.deep_view(),
            restart_tokens_per_second: self.restart_tokens_per_second,
            check_delay_seconds: self.check_delay_seconds,
            max_restart_tokens: self.max_restart_tokens,
            start_complete: self.start_complete.deep_view(),
            start_complete_timeout: self.start_complete_timeout,
            restart: self.restart.deep_view(),
            restart_timeout: self.restart_timeout,
            failure: self.failure.deep_view(),
            failure_timeout: self.failure_timeout,
            on_shutdown: self.on_shutdown.deep_view(),
            on_shutdown_timeout: self.on_shutdown_timeout,
            procs: proc_views(self.procs@),
        }
    }
}

impl View for SupervisorSpecBuilder {
    type V = SupervisorSpecView;

    closed spec fn view(&self) -> SupervisorSpecView {
        SupervisorSpecView {
            status_file: self.status_file.deep_view(),
            restart_tokens_per_second: self.restart_tokens_per_second,
            check_delay_seconds: self.check_delay_seconds,
            max_restart_tokens: self.max_restart_tokens,
            start_complete: self.start_complete.deep_view(),
            start_complete_timeout: self.start_complete_timeout,
            restart: self.restart.deep_view(),
            restart_timeout: self.restart_timeout,
            failure: self.failure.deep_view(),
            failure_timeout: self.failure_timeout,
            on_shutdown: self.on_shutdown.deep_view(),
            on_shutdown_timeout: self.on_shutdown_timeout,
            procs: proc_views(self.procs@),
        }
    }
}

/// The settings of a fresh supervisor specification builder: a restart
/// pool of five tokens refilled at a tenth of a token per second, a check
/// delay of five seconds, no hooks, and no processes.
pub open spec fn initial_supervisor_settings() -> SupervisorSpecView {
    SupervisorSpecView {
        status_file: None,
        restart_tokens_per_second: Decimal { micros: 100_000 },
        check_delay_seconds: Decimal { micros: 5_000_000 },
        max_restart_tokens: Decimal { micros: 5_000_000 },
        start_complete: None,
        start_complete_timeout: Some(default_command_timeout()),
        restart: None,
        restart_timeout: Some(default_command_timeout()),
        failure: None,
        failure_timeout: Some(default_command_timeout()),
        on_shutdown: None,
        on_shutdown_timeout: Some(default_command_timeout()),
        procs: Seq::empty(),
    }
}

impl SupervisorSpecBuilder {
    pub fn new() -> (r: Self)
        ensures
            r@ == initial_supervisor_settings(),
    {
        let r = SupervisorSpecBuilder {
            restart_tokens_per_second: Decimal { micros: 100_000 },
            max_restart_tokens: Decimal { micros: 5_000_000 },
            check_delay_seconds: Decimal { micros: 5_000_000 },
            start_complete: None,
            start_complete_timeout: Some(Decimal { micros: 120_000_000 }),
            restart: None,
            restart_timeout: Some(Decimal { micros: 120_000_000 }),
            failure: None,
            failure_timeout: Some(Decimal { micros: 120_000_000 }),
            on_shutdown: None,
            on_shutdown_timeout: Some(Decimal { micros: 120_000_000 }),
            status_file: None,
            procs: Vec::new(),
        };
        proof {
            assert(proc_views(r.procs@) =~= Seq::empty());
        }
        r
    }

    pub fn set_restart_tokens_per_second(&mut self, rps: Decimal)
        ensures
            final(self)@ == (SupervisorSpecView { restart_tokens_per_second: rps, ..old(self)@ }),
    {
        self.restart_tokens_per_second = rps;
    }

    pub fn set_max_restart_tokens(&mut self, max_restart_tokens: Decimal)
        ensures
            final(self)@ == (SupervisorSpecView { max_restart_tokens: max_restart_tokens, ..old(self)@ }),
    {
        self.max_restart_tokens = max_restart_tokens;
    }

    pub fn set_check_delay_seconds(&mut self, check_delay_seconds: Decimal)
        ensures
            final(self)@ == (SupervisorSpecView { check_delay_seconds: check_delay_seconds, ..old(self)@ }),
    {
        self.check_delay_seconds = check_delay_seconds;
    }

    pub fn set_status_file(&mut self, status_file: String)
        ensures
            final(self)@ == (SupervisorSpecView { status_file: Some(status_file@), ..old(self)@ }),
    {
        self.status_file = Some(status_file);
    }

    pub fn set_start_complete(&mut self, command: String)
        ensures
            final(self)@ == (SupervisorSpecView { start_complete: Some(command@), ..old(self)@ }),
    {
        self.start_complete = Some(command);
    }

    pub fn set_start_complete_timeout(&mut self, timeout_seconds: Decimal)
        ensures
            final(self)@ == (SupervisorSpecView {
                start_complete_timeout: optional_timeout(timeout_seconds),
                ..old(self)@
            }),
    {
        set_optional_timeout(&mut self.start_complete_timeout, timeout_seconds)
    }

    pub fn set_failure(&mut self, command: String)
        ensures
            final(self)@ == (SupervisorSpecView { failure: Some(command@), ..old(self)@ }),
    {
        self.failure = Some(command);
    }

    pub fn set_failure_timeout(&mut self, timeout_seconds: Decimal)
        ensures
            final(self)@ == (SupervisorSpecView {
                failure_timeout: optional_timeout(timeout_seconds),
                ..old(self)@
            }),
    {
        set_optional_timeout(&mut self.failure_timeout, timeout_seconds)
    }

    pub fn set_restart(&mut self, command: String)
        ensures
            final(self)@ == (SupervisorSpecView { restart: Some(command@), ..old(self)@ }),
    {
        self.restart = Some(command);
    }

    pub fn set_restart_timeout(&mut self, timeout_seconds: Decimal)
        ensures
            final(self)@ == (SupervisorSpecView {
                restart_timeout: optional_timeout(timeout_seconds),
                ..old(self)@
            }),
    {
        set_optional_timeout(&mut self.restart_timeout, timeout_seconds)
    }

    /// Sets the hook run just before exiting after a clean shutdown.
    pub fn set_on_shutdown(&mut self, command: String)
        ensures
            final(self)@ == (SupervisorSpecView { on_shutdown: Some(command@), ..old(self)@ }),
    {
        self.on_shutdown = Some(command);
    }

    pub fn set_on_shutdown_timeout(&mut self, timeout_seconds: Decimal)
        ensures
            final(self)@ == (SupervisorSpecView {
                on_shutdown_timeout: optional_timeout(timeout_seconds),
                ..old(self)@
            }),
    {
        set_optional_timeout(&mut self.on_shutdown_timeout, timeout_seconds)
    }

    /// Appends a process; processes start in the order they were added.
    pub fn add_proc_spec(&mut self, spec: ProcSpec)
        ensures
            final(self)@ == (SupervisorSpecView { procs: old(self)@.procs.push(spec@), ..old(self)@ }),
    {
        let ghost before = self.procs@;
        self.procs.push(spec);
        proof {
            assert(proc_views(self.procs@) =~= proc_views(before).push(spec@));
        }
    }

    /// Makes the specification; every setting has a default, so this
    /// always succeeds.
    pub fn build(self) -> (r: Result<SupervisorSpec, SpecError>)
        ensures
            r matches Ok(spec) && spec@ == self@,
    {
        let mut spec = SupervisorSpec {
            restart_tokens_per_second: self.restart_tokens_per_second,
            check_delay_seconds: self.check_delay_seconds,
            max_restart_tokens: self.max_restart_tokens,
            status_file: self.status_file,
            start_complete: self.start_complete,
            start_complete_timeout: self.start_complete_timeout,
            restart: self.restart,
            restart_timeout: self.restart_timeout,
            failure: self.failure,
            failure_timeout: self.failure_timeout,
            on_shutdown: self.on_shutdown,
            on_shutdown_timeout: self.on_shutdown_timeout,
            procs: Vec::new(),
        };
        spec.procs = self.procs;
        Ok(spec)
    }
}

} // verus!
