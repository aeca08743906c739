//! Supervision of the external worker process: at most one tracked child
//! process per supervisor, an ownership flag that records whether this
//! supervisor's own start operation produced it, and the pure parts of the
//! health probe (URL derivation and result interpretation).

use vstd::prelude::*;
use vstd::string::StrSliceExecFns;
use vstd::string::StringExecFns;

use crate::decimal::dec_digits;
use crate::decimal::u64_to_decimal;

verus! {

/// Seconds allowed for the health probe's TCP connect.
pub const PROBE_CONNECT_TIMEOUT_SECS: u64 = 3;

/// Seconds allowed for the whole health probe request.
pub const PROBE_TIMEOUT_SECS: u64 = 5;

/// Milliseconds between readiness polls after a spawn.
pub const START_POLL_INTERVAL_MS: u64 = 500;

/// How many readiness polls a start performs after a spawn before giving
/// up on synchronous confirmation.  Exhausting the budget still reports
/// success — the process was spawned — and the caller keeps relying on the
/// health probe independently.
pub const START_POLL_ATTEMPTS: u32 = 30;

/// Abstract state of the supervisor: the tracked worker process, if any,
/// and whether our own start operation spawned it.
pub struct ServiceModel {
    pub child_pid: Option<u32>,
    pub we_started: bool,
}

/// The supervisor invariant: ownership is only ever claimed while a process
/// is actually tracked.
pub open spec fn service_wf(m: ServiceModel) -> bool {
    m.we_started ==> m.child_pid is Some
}

/// Effect of a start operation on the abstract state: observing an already
/// running service changes nothing and reports `false` ("already running");
/// otherwise the freshly spawned process is recorded with ownership claimed
/// and the operation reports `true`.
pub open spec fn start_model(m: ServiceModel, already_running: bool, pid: u32) -> (
    ServiceModel,
    bool,
) {
    if already_running {
        (m, false)
    } else {
        (ServiceModel { child_pid: Some(pid), we_started: true }, true)
    }
}

/// Effect of a stop operation: the tracked process and the ownership flag
/// are cleared together.
pub open spec fn stop_model(m: ServiceModel) -> ServiceModel {
    ServiceModel { child_pid: None, we_started: false }
}

/// Effect of confirming application close: identical to a stop when the
/// caller asked for the service to be stopped, a no-op otherwise.
pub open spec fn confirm_close_model(m: ServiceModel, stop_service: bool) -> ServiceModel {
    if stop_service {
        stop_model(m)
    } else {
        m
    }
}

/// Tracks the worker process this application may have spawned.  The caller
/// serializes access (one such value behind one lock) and performs the
/// actual spawn and kill; this type decides what is tracked and owned.
pub struct ServiceState {
    child_pid: Option<u32>,
    we_started: bool,
}

impl View for ServiceState {
    type V = ServiceModel;

    closed spec fn view(&self) -> ServiceModel {
        ServiceModel { child_pid: self.child_pid, we_started: self.we_started }
    }
}

impl ServiceState {
    /// A fresh supervisor tracks nothing and owns nothing.
    pub fn new() -> (s: Self)
        ensures
            s@ == (ServiceModel { child_pid: None::<u32>, we_started: false }),
            service_wf(s@),
    {
        ServiceState { child_pid: None, we_started: false }
    }

    /// Decides whether a start operation must spawn a process: only when the
    /// health probe found nothing already running.  When no spawn is needed
    /// the state is left untouched and the start reports "already running".
    pub fn start_needs_spawn(&self, already_running: bool) -> (spawn: bool)
        ensures
            spawn == !already_running,
            !spawn ==> start_model(self@, already_running, 0) == (self@, false),
    {
        !already_running
    }

    /// Records a successful spawn: the child is tracked and ownership is
    /// claimed, unconditionally.
    pub fn record_spawn(&mut self, pid: u32)
        ensures
            final(self)@ == start_model(old(self)@, false, pid).0,
            final(self)@.child_pid == Some(pid),
            final(self)@.we_started,
            service_wf(final(self)@),
    {
        self.child_pid = Some(pid);
        self.we_started = true;
    }

    /// Takes the tracked process for termination and clears ownership; the
    /// returned pid, if any, is the process the caller must now kill.
    /// A stop with nothing tracked is a no-op that still succeeds.
    pub fn stop(&mut self) -> (pid: Option<u32>)
        ensures
            pid == old(self)@.child_pid,
            final(self)@ == stop_model(old(self)@),
            service_wf(final(self)@),
    {
        let pid = self.child_pid;
        self.child_pid = None;
        self.we_started = false;
        pid
    }

    /// Confirms application close: takes the tracked process for termination
    /// exactly when the caller asked for the service to be stopped, and
    /// leaves an externally running worker untouched otherwise.
    pub fn confirm_close(&mut self, stop_service: bool) -> (pid: Option<u32>)
        ensures
            final(self)@ == confirm_close_model(old(self)@, stop_service),
            pid == if stop_service {
                old(self)@.child_pid
            } else {
                None::<u32>
            },
            service_wf(old(self)@) ==> service_wf(final(self)@),
    {
        if stop_service {
            self.stop()
        } else {
            None
        }
    }

    /// Reports whether our own start operation produced the tracked process.
    pub fn query_ownership(&self) -> (b: bool)
        ensures
            b == self@.we_started,
    {
        self.we_started
    }

    /// The currently tracked worker process, if any.
    pub fn tracked_pid(&self) -> (pid: Option<u32>)
        ensures
            pid == self@.child_pid,
    {
        self.child_pid
    }
}

impl Default for ServiceState {
    /// A fresh supervisor tracks nothing and owns nothing.
    fn default() -> (s: Self)
        ensures
            s@ == (ServiceModel { child_pid: None::<u32>, we_started: false }),
            service_wf(s@),
    {
        ServiceState::new()
    }
}

/// The URL with its trailing slashes removed.
pub open spec fn trim_trailing_slashes(s: Seq<char>) -> Seq<char>
    decreases s.len(),
{
    if s.len() > 0 && s.last() == '/' {
        trim_trailing_slashes(s.drop_last())
    } else {
        s
    }
}

/// The fixed health endpoint derived from a service base URL.
pub open spec fn health_url_text(url: Seq<char>) -> Seq<char> {
    trim_trailing_slashes(url) + "/global/health"@
}

/// Derives the health-probe URL: the base URL, trailing slashes trimmed,
/// with the fixed health path appended.
pub fn health_url(url: &str) -> (r: String)
    ensures
        r@ == health_url_text(url@),
{
    let n = url.unicode_len();
    let mut j = n;
    proof {
        assert(url@.take(n as int) =~= url@);
    }
    while j > 0 && url.get_char(j - 1) == '/'
        invariant
            j <= n,
            n == url@.len(),
            trim_trailing_slashes(url@) == trim_trailing_slashes(url@.take(j as int)),
        decreases j,
    {
        proof {
            let t = url@.take(j as int);
            assert(t.last() == url@[j - 1]);
            assert(t.drop_last() =~= url@.take(j as int - 1));
        }
        j -= 1;
    }
    proof {
        let t = url@.take(j as int);
        if j > 0 {
            assert(t.last() == url@[j - 1]);
            assert(trim_trailing_slashes(t) == t);
        } else {
            assert(t.len() == 0);
        }
    }
    let base = url.substring_char(0, j);
    let mut r = String::from_str(base);
    r.append("/global/health");
    proof {
        assert(url@.take(j as int) =~= url@.subrange(0, j as int));
    }
    r
}

/// Collapses a health-probe outcome to liveness: only a success status
/// counts as running; a timeout, a refused connection or an error status is
/// simply "not running", never an error.
pub fn interpret_probe(status: Option<u16>) -> (running: bool)
    ensures
        running == (status matches Some(s) && 200 <= s < 300),
{
    match status {
        Some(s) => 200 <= s && s < 300,
        None => false,
    }
}

/// Whether the readiness loop after a spawn should poll the health probe
/// again, given how many polls came back negative so far.
pub fn should_keep_polling(checks_done: u32) -> (b: bool)
    ensures
        b == (checks_done < START_POLL_ATTEMPTS),
{
    checks_done < START_POLL_ATTEMPTS
}

/// The message a failed spawn reports, naming the attempted binary path.
pub open spec fn spawn_failure_text(path: Seq<char>, err: Seq<char>) -> Seq<char> {
    "Failed to start '"@ + path + "': "@ + err + ". Check that the path is correct."@
}

/// Builds the message a failed spawn reports.
pub fn spawn_failure_message(path: &str, err: &str) -> (m: String)
    ensures
        m@ == spawn_failure_text(path@, err@),
{
    let mut m = String::from_str("Failed to start '");
    m.append(path);
    m.append("': ");
    m.append(err);
    m.append(". Check that the path is correct.");
    m
}

/// The argument vector of the platform command that force-kills the tracked
/// process: the console tool takes the process id in decimal, with the
/// flags that force termination of the whole process tree where supported.
pub fn terminate_command(pid: u32, use_taskkill: bool) -> (cmd: Vec<String>)
    ensures
        use_taskkill ==> cmd@.len() == 5 && cmd@[0]@ == "taskkill"@ && cmd@[1]@ == "/PID"@
            && cmd@[2]@ == dec_digits(pid as nat) && cmd@[3]@ == "/F"@ && cmd@[4]@ == "/T"@,
        !use_taskkill ==> cmd@.len() == 2 && cmd@[0]@ == "kill"@ && cmd@[1]@ == dec_digits(
            pid as nat,
        ),
{
    let mut cmd: Vec<String> = Vec::new();
    if use_taskkill {
        cmd.push(String::from_str("taskkill"));
        cmd.push(String::from_str("/PID"));
        cmd.push(u64_to_decimal(pid as u64));
        cmd.push(String::from_str("/F"));
        cmd.push(String::from_str("/T"));
    } else {
        cmd.push(String::from_str("kill"));
        cmd.push(u64_to_decimal(pid as u64));
    }
    cmd
}

/// A start that observes a healthy service reports "already running" without
/// recording anything; in particular, once a first start has spawned and the
/// service has become healthy, a second start changes nothing and never
/// tracks a second process.
pub proof fn lemma_second_start_spawns_nothing(m: ServiceModel, pid: u32, pid2: u32)
    ensures
        ({
            let (m1, started) = start_model(m, false, pid);
            let (m2, started2) = start_model(m1, true, pid2);
            m2 == m1 && started && !started2 && m2.child_pid == Some(pid)
        }),
{
}

/// A stop with no tracked process is a no-op: it leaves the (well-formed)
/// state exactly as it was.
pub proof fn lemma_stop_without_process_is_noop(m: ServiceModel)
    requires
        m.child_pid is None,
        service_wf(m),
    ensures
        stop_model(m) == m,
{
}

/// After a start that spawned the worker, a stop clears both the tracked
/// pid and the ownership flag, so a subsequent ownership query reports
/// `false`.
pub proof fn lemma_stop_clears_ownership(m: ServiceModel, pid: u32)
    ensures
        ({
            let (m1, started) = start_model(m, false, pid);
            let m2 = stop_model(m1);
            m1.we_started && m2.child_pid is None && !m2.we_started
        }),
{
}

} // verus!
