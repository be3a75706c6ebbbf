//! The decisions of the boot sequence: attach to a running harness web
//! server or launch one, then wait until it is reachable, has exited, or the
//! time is up. The caller performs the probes, the launch, the sleeps and
//! the events; these functions decide what comes next and what is said.

use vstd::prelude::*;
use crate::text::{
    decimal, i32_text, join_with, joined, non_blank, non_blank_spec, opt_view, parse_u64,
    parsed_u64, signed_decimal, u64_text, views,
};
use crate::web_url::WebUrl;

verus! {

/// Default number of seconds to wait for the server to become reachable.
pub const DEFAULT_START_TIMEOUT: u64 = 180;

/// How often, in milliseconds, a waiting boot reports progress.
pub const REPORT_INTERVAL_MS: u64 = 2000;

/// How long to wait for the server: the configured number of seconds
/// (`DSH_WEB_START_TIMEOUT_SECS`) when it is set, not blank and parses as a
/// `u64`, 180 seconds otherwise.
pub open spec fn start_timeout_spec(configured: Option<Seq<char>>) -> u64 {
    match non_blank_spec(configured) {
        Some(v) => match parsed_u64(v) {
            Some(n) => n,
            None => DEFAULT_START_TIMEOUT,
        },
        None => DEFAULT_START_TIMEOUT,
    }
}

/// How long, in seconds, to wait for the server to become reachable.
pub fn start_timeout_secs(configured: Option<String>) -> (secs: u64)
    ensures
        secs == start_timeout_spec(opt_view(configured)),
{
    match non_blank(configured) {
        Some(v) => match parse_u64(v.as_str()) {
            Some(n) => n,
            None => DEFAULT_START_TIMEOUT,
        },
        None => DEFAULT_START_TIMEOUT,
    }
}

/// The status when a server is already listening at `url`.
pub open spec fn attach_status(url: Seq<char>) -> Seq<char> {
    url + " is already listening — attaching"@
}

/// The status when the client launches the server for `url` from `repo`.
pub open spec fn launch_status(url: Seq<char>, repo: Option<Seq<char>>) -> Seq<char> {
    "launching the harness web server for "@ + url + match repo {
        Some(r) => " (repo: "@ + r + ")"@,
        None => Seq::<char>::empty(),
    }
}

/// How the boot sequence begins.
pub enum BootStart {
    /// A server already listens: attach to it, launch nothing.
    Attach { status: String },
    /// Nothing listens: launch the server.
    Launch { status: String },
}

/// Decides how the boot begins: attach when a server already listens at
/// `url`, launch one otherwise. `repo` is the checkout found for the launch,
/// which the status names.
pub fn boot_start(url: &WebUrl, listening: bool, repo: Option<String>) -> (b: BootStart)
    ensures
        listening ==> (b matches BootStart::Attach { status } && status@ == attach_status(
            url@.text,
        )),
        !listening ==> (b matches BootStart::Launch { status } && status@ == launch_status(
            url@.text,
            opt_view(repo),
        )),
{
    if listening {
        let mut status = String::from_str(url.as_str());
        status.append(" is already listening — attaching");
        BootStart::Attach { status }
    } else {
        let mut status = String::from_str("launching the harness web server for ");
        status.append(url.as_str());
        match repo {
            Some(r) => {
                status.append(" (repo: ");
                status.append(r.as_str());
                status.append(")");
            },
            None => {
                assert(status@ =~= status@ + Seq::<char>::empty());
            },
        }
        BootStart::Launch { status }
    }
}

/// What follows an attempt to launch the server.
pub enum LaunchFollowUp {
    /// The server was launched: wait for it.
    Wait,
    /// The launch failed: report this message and end the boot.
    Fail { message: String },
}

/// Decides what follows a launch attempt that failed with `error`, if it
/// failed: a failed launch ends the boot with its message, a launched server
/// is waited for.
pub fn after_launch(error: Option<String>) -> (f: LaunchFollowUp)
    ensures
        error is None ==> f is Wait,
        error matches Some(m) ==> (f matches LaunchFollowUp::Fail { message } && message@ == m@),
{
    match error {
        Some(message) => LaunchFollowUp::Fail { message },
        None => LaunchFollowUp::Wait,
    }
}

/// The failure when the launched server exits before it is reachable: its
/// exit code when it has one, then the captured output tail when there is
/// any.
pub open spec fn exited_message(code: Option<i32>, tail: Seq<Seq<char>>) -> Seq<char> {
    "the harness web server exited"@ + (match code {
        Some(c) => " (exit code "@ + signed_decimal(c as int) + ")"@,
        None => Seq::<char>::empty(),
    }) + " before becoming ready"@ + (if tail.len() == 0 {
        Seq::<char>::empty()
    } else {
        "\nserver output:\n"@ + joined(tail, "\n"@)
    })
}

/// The failure when the server is not reachable in time.
pub open spec fn timed_out_message(url: Seq<char>, secs: u64) -> Seq<char> {
    "timed out waiting for "@ + url + " after "@ + decimal(secs as nat) + "s"@
}

/// The failure message for a server that exited with `code` (if any) after
/// printing `tail`.
pub fn exit_failure_message(code: Option<i32>, tail: &Vec<String>) -> (m: String)
    ensures
        m@ == exited_message(code, views(tail@)),
{
    let mut m = String::from_str("the harness web server exited");
    match code {
        Some(c) => {
            m.append(" (exit code ");
            let t = i32_text(c);
            m.append(t.as_str());
            m.append(")");
        },
        None => {},
    }
    m.append(" before becoming ready");
    if tail.len() > 0 {
        m.append("\nserver output:\n");
        let t = join_with(tail, "\n");
        m.append(t.as_str());
    }
    m
}

/// The failure message for a server not reachable at `url` after `secs`
/// seconds.
pub fn timeout_message(url: &WebUrl, secs: u64) -> (m: String)
    ensures
        m@ == timed_out_message(url@.text, secs),
{
    let mut m = String::from_str("timed out waiting for ");
    m.append(url.as_str());
    m.append(" after ");
    let t = u64_text(secs);
    m.append(t.as_str());
    m.append("s");
    m
}

/// What the caller saw in one round of waiting.
pub struct WaitObservation {
    /// Whether the server accepted a connection.
    pub listening: bool,
    /// `Some(code)` when the launched server has exited, with its exit code
    /// when it has one; `None` while it runs or when none was launched.
    pub exited: Option<Option<i32>>,
    /// Milliseconds since the wait began.
    pub elapsed_ms: u64,
    /// Milliseconds since progress was last reported.
    pub since_report_ms: u64,
}

/// What one round of waiting decides.
pub enum WaitDecision {
    /// The server is reachable: hand the webview over to it.
    Ready,
    /// The boot failed with this message.
    Failed { message: String },
    /// Keep waiting; report progress first when `report` holds.
    Waiting { report: bool },
}

/// Whether the wait has reached its deadline of `timeout_secs` seconds.
pub open spec fn deadline_reached(elapsed_ms: u64, timeout_secs: u64) -> bool {
    elapsed_ms >= timeout_secs * 1000
}

/// The wait for the server ends in a timeout exactly when the configured
/// number of seconds has passed, counted in milliseconds: not before, and no
/// other limit cuts it short.
pub proof fn law_deadline_is_the_configured_timeout(elapsed_ms: u64, timeout_secs: u64)
    ensures
        deadline_reached(elapsed_ms, timeout_secs) <==> elapsed_ms >= timeout_secs * 1000,
        elapsed_ms < timeout_secs * 1000 ==> !deadline_reached(elapsed_ms, timeout_secs),
{
}

/// Decides one round of waiting, in order: a reachable server ends the wait;
/// an exited server fails it with its exit code and output tail; a reached
/// deadline fails it; otherwise the wait goes on, reporting progress when
/// [`REPORT_INTERVAL_MS`] have passed since the last report.
pub fn wait_step(obs: &WaitObservation, url: &WebUrl, timeout_secs: u64, tail: &Vec<String>) -> (d:
    WaitDecision)
    ensures
        obs.listening ==> d is Ready,
        !obs.listening && obs.exited is Some ==> (d matches WaitDecision::Failed { message }
            && message@ == exited_message(obs.exited->0, views(tail@))),
        !obs.listening && obs.exited is None && deadline_reached(obs.elapsed_ms, timeout_secs)
            ==> (d matches WaitDecision::Failed { message } && message@ == timed_out_message(
            url@.text,
            timeout_secs,
        )),
        !obs.listening && obs.exited is None && !deadline_reached(obs.elapsed_ms, timeout_secs)
            ==> d == (WaitDecision::Waiting { report: obs.since_report_ms >= REPORT_INTERVAL_MS }),
        !obs.listening && obs.exited is None ==> (d is Failed <==> obs.elapsed_ms >= timeout_secs
            * 1000),
        !obs.listening && obs.exited is None && obs.elapsed_ms < timeout_secs * 1000 ==> d
            is Waiting,
{
    proof {
        law_deadline_is_the_configured_timeout(obs.elapsed_ms, timeout_secs);
    }
    if obs.listening {
        return WaitDecision::Ready;
    }
    match obs.exited {
        Some(code) => {
            return WaitDecision::Failed { message: exit_failure_message(code, tail) };
        },
        None => {},
    }
    if obs.elapsed_ms / 1000 >= timeout_secs {
        return WaitDecision::Failed { message: timeout_message(url, timeout_secs) };
    }
    WaitDecision::Waiting { report: obs.since_report_ms >= REPORT_INTERVAL_MS }
}

} // verus!
