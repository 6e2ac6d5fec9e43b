//! `clove daemon <start|stop|status>`.
//!
//! The daemon is an optional accelerator: one per user (the hub) serves every project
//! that asks. `start` has the hub serve this project, `stop` has it stop, `stop --all`
//! stops the hub, and `status` reports both.

use vstd::prelude::*;

use crate::cmd::plugin::push_lines;
use crate::error::{CloveError, ErrorView};
use crate::json::{
    law_distinct_pairs_are_members, num, number, obj, object, string, string_or_null, text_or_null,
    Json, JsonView,
};
use crate::output::{
    law_a_success_carries_its_data, pairs, success, success_envelope, Out, OutView, OutputFormat,
};
use crate::registry::install::borrowed;
use crate::text;

verus! {

/// How long `start` and `stop` wait, in milliseconds.
pub const WAIT_TIMEOUT_MS: u64 = 5000;

/// How long to sleep between two looks, in milliseconds.
pub const WAIT_POLL_MS: u64 = 50;

/// A failure to talk to the daemon: it has an exit code of its own, and is not the
/// filesystem's.
pub open spec fn daemon_failure(message: Seq<char>) -> ErrorView {
    ErrorView::Remote { code: "DAEMON_ERROR"@, exit: 7, message }
}

/// A failure to talk to the daemon.
pub fn daemon_err(message: &str) -> (r: CloveError)
    ensures
        r.deep_view() == daemon_failure(message@),
{
    CloveError::Remote {
        code: "DAEMON_ERROR".to_owned(),
        exit: 7,
        message: message.to_owned(),
    }
}

/// A result of a daemon command: an envelope without metadata, or a line.
pub open spec fn reported(format: OutputFormat, data: JsonView, human: Seq<char>) -> Seq<OutView> {
    seq![
        if format == OutputFormat::Human {
            OutView::Text(human)
        } else {
            OutView::Json(success(data, obj(Seq::empty())))
        },
    ]
}

fn empty_object() -> (r: Json)
    ensures
        r.shape() == obj(Seq::empty()),
{
    let v: Vec<(String, Json)> = Vec::new();
    assert(pairs(v@) =~= Seq::<(Seq<char>, JsonView)>::empty());
    object(v)
}

fn emit(format: OutputFormat, data: Json, human: &str) -> (r: Vec<Out>)
    ensures
        r.deep_view() == reported(format, data.shape(), human@),
{
    let line: Out = match format {
        OutputFormat::Human => Out::Text(human.to_owned()),
        _ => Out::Json(success_envelope(data, empty_object())),
    };
    let ghost view = line.deep_view();
    let out: Vec<Out> = vec![line];
    assert(out.deep_view() =~= seq![view]);
    out
}

/// A number, or `null` where there is none.
pub open spec fn num_or_null(n: Option<u64>) -> JsonView {
    match n {
        Some(n) => num(n as int),
        None => JsonView::Null,
    }
}

fn number_or_null(n: Option<u64>) -> (r: Json)
    ensures
        r.shape() == num_or_null(n),
{
    match n {
        Some(n) => number(n),
        None => Json::Null,
    }
}

/// A process id as a number that may be missing.
pub open spec fn pid_number(pid: Option<u32>) -> Option<u64> {
    match pid {
        Some(p) => Some(p as u64),
        None => None,
    }
}

fn pid_of(pid: Option<u32>) -> (r: Option<u64>)
    ensures
        r == pid_number(pid),
{
    match pid {
        Some(p) => Some(p as u64),
        None => None,
    }
}

// ---- Start --------------------------------------------------------------------

/// The object of a start that found the project served.
pub open spec fn serving_object(pid: Option<u32>) -> JsonView {
    obj(
        seq![
            ("started"@, JsonView::Bool(false)),
            ("running"@, JsonView::Bool(true)),
            ("pid"@, num_or_null(pid_number(pid))),
        ],
    )
}

/// What is printed if the project is served already.
pub fn already_serving(format: OutputFormat, clove_dir: &str, pid: Option<u32>) -> (r: Vec<Out>)
    ensures
        r.deep_view() == reported(
            format,
            serving_object(pid),
            "daemon already serving "@ + clove_dir@,
        ),
{
    let v: Vec<(String, Json)> = vec![
        ("started".to_owned(), Json::Bool(false)),
        ("running".to_owned(), Json::Bool(true)),
        ("pid".to_owned(), number_or_null(pid_of(pid))),
    ];
    assert(pairs(v@) =~= seq![
        ("started"@, JsonView::Bool(false)),
        ("running"@, JsonView::Bool(true)),
        ("pid"@, num_or_null(pid_number(pid))),
    ]);
    let line = text::cat2("daemon already serving ", clove_dir);
    emit(format, object(v), line.as_str())
}

/// How an attempt to have the project served ended.
#[derive(Debug, PartialEq, Eq)]
pub enum StartAttempt {
    Serving,
    /// The hub answered, and refused.
    Refused(String),
    /// No connection could be made.
    NoConnection(String),
    /// Anything else, such as no answer in time.
    NotReady,
}

/// Why an attempt counts as failed. `legacy` is the process of an old daemon that serves
/// the project already.
pub open spec fn start_problem(attempt: StartAttempt, legacy: Option<u32>) -> Option<ErrorView> {
    match attempt {
        StartAttempt::Serving => None,
        StartAttempt::Refused(message) => Some(
            daemon_failure(
                match legacy {
                    Some(pid) => "a clove 0.1.0 daemon (pid "@ + text::decimal(pid as nat)
                        + ") already serves this project; `clove daemon stop` stops it, then start again"@,
                    None => "the daemon cannot serve this project: "@ + message@,
                },
            ),
        ),
        StartAttempt::NoConnection(e) => Some(
            daemon_failure("could not start the daemon: "@ + e@),
        ),
        StartAttempt::NotReady => Some(
            daemon_failure(
                "could not start the daemon (it did not become ready within 5s); is `cloved` installed next to `clove`?"@,
            ),
        ),
    }
}

/// Judges an attempt to have the project served.
pub fn start_outcome(attempt: &StartAttempt, legacy: Option<u32>) -> (r: Result<(), CloveError>)
    ensures
        crate::error::verdict(r) == start_problem(*attempt, legacy),
{
    match attempt {
        StartAttempt::Serving => Ok(()),
        StartAttempt::Refused(message) => {
            let told = match legacy {
                Some(pid) => {
                    let p = text::decimal_of(pid as u64);
                    text::cat3(
                        "a clove 0.1.0 daemon (pid ",
                        p.as_str(),
                        ") already serves this project; `clove daemon stop` stops it, then start again",
                    )
                },
                None => text::cat2("the daemon cannot serve this project: ", message.as_str()),
            };
            Err(daemon_err(told.as_str()))
        },
        StartAttempt::NoConnection(e) => {
            let told = text::cat2("could not start the daemon: ", e.as_str());
            Err(daemon_err(told.as_str()))
        },
        StartAttempt::NotReady => Err(
            daemon_err(
                "could not start the daemon (it did not become ready within 5s); is `cloved` installed next to `clove`?",
            ),
        ),
    }
}

/// A process id for people.
pub open spec fn pid_told(pid: Option<u32>) -> Seq<char> {
    match pid {
        Some(p) => text::decimal(p as nat),
        None => "?"@,
    }
}

/// The object of a start.
pub open spec fn started_object(pid: Option<u32>) -> JsonView {
    obj(
        seq![("started"@, JsonView::Bool(true)), ("pid"@, num_or_null(pid_number(pid)))],
    )
}

/// What is printed once the project is served.
pub fn started(format: OutputFormat, clove_dir: &str, pid: Option<u32>) -> (r: Vec<Out>)
    ensures
        r.deep_view() == reported(
            format,
            started_object(pid),
            "daemon serving "@ + clove_dir@ + " (pid "@ + pid_told(pid) + ")"@,
        ),
{
    let v: Vec<(String, Json)> = vec![
        ("started".to_owned(), Json::Bool(true)),
        ("pid".to_owned(), number_or_null(pid_of(pid))),
    ];
    assert(pairs(v@) =~= seq![
        ("started"@, JsonView::Bool(true)),
        ("pid"@, num_or_null(pid_number(pid))),
    ]);
    let p: String = match pid {
        Some(p) => text::decimal_of(p as u64),
        None => "?".to_owned(),
    };
    let line = text::cat5("daemon serving ", clove_dir, " (pid ", p.as_str(), ")");
    emit(format, object(v), line.as_str())
}

// ---- Stop ---------------------------------------------------------------------

/// What to do while waiting for a daemon's pid file to disappear.
#[derive(Debug, Clone, Copy, PartialEq, Eq, Structural)]
pub enum Waiting {
    /// It is gone.
    Gone,
    /// Look again after [`WAIT_POLL_MS`].
    Sleep,
    /// Time is up.
    TimedOut,
}

/// What to do after some time, while the file is there or not.
pub open spec fn waiting(elapsed_ms: u64, exists: bool) -> Waiting {
    if elapsed_ms >= WAIT_TIMEOUT_MS {
        Waiting::TimedOut
    } else if exists {
        Waiting::Sleep
    } else {
        Waiting::Gone
    }
}

/// Waits for the pid file to disappear, which is the last thing a daemon does.
pub fn wait_step(elapsed_ms: u64, exists: bool) -> (r: Waiting)
    ensures
        r == waiting(elapsed_ms, exists),
{
    if elapsed_ms >= WAIT_TIMEOUT_MS {
        Waiting::TimedOut
    } else if exists {
        Waiting::Sleep
    } else {
        Waiting::Gone
    }
}

/// What is said of a daemon that does not stop.
pub fn wait_timed_out() -> (r: CloveError)
    ensures
        r.deep_view() == daemon_failure("daemon did not stop within 5s"@),
{
    daemon_err("daemon did not stop within 5s")
}

/// What is wrong when a signal could not be sent.
pub open spec fn signal_problem(failure: Option<(Option<i32>, String)>) -> Option<ErrorView> {
    match failure {
        Some((code, message)) => if code == Some(3i32) {
            None
        } else {
            Some(daemon_failure("sending SIGTERM: "@ + message@))
        },
        None => None,
    }
}

/// What sending the signal came to: `failure` is the system's error, by number where it
/// has one. That there is no such process counts as stopped.
pub fn signal_pid(failure: Option<(Option<i32>, String)>) -> (r: Result<(), CloveError>)
    ensures
        crate::error::verdict(r) == signal_problem(failure),
{
    match failure {
        Some((code, message)) => {
            if code == Some(3i32) {
                Ok(())
            } else {
                let told = text::cat2("sending SIGTERM: ", message.as_str());
                Err(daemon_err(told.as_str()))
            }
        },
        None => Ok(()),
    }
}

/// The object of a stop of an old daemon.
pub open spec fn legacy_object() -> JsonView {
    obj(seq![("stopped"@, JsonView::Bool(true)), ("legacy"@, JsonView::Bool(true))])
}

/// What is printed of an old daemon that was stopped.
pub fn stopped_legacy(format: OutputFormat, pid: u32) -> (r: Vec<Out>)
    ensures
        r.deep_view() == reported(
            format,
            legacy_object(),
            "stopped the clove 0.1.0 daemon (pid "@ + text::decimal(pid as nat) + ")"@,
        ),
{
    let v: Vec<(String, Json)> = vec![
        ("stopped".to_owned(), Json::Bool(true)),
        ("legacy".to_owned(), Json::Bool(true)),
    ];
    assert(pairs(v@) =~= seq![
        ("stopped"@, JsonView::Bool(true)),
        ("legacy"@, JsonView::Bool(true)),
    ]);
    let p = text::decimal_of(pid as u64);
    let line = text::cat3("stopped the clove 0.1.0 daemon (pid ", p.as_str(), ")");
    emit(format, object(v), line.as_str())
}

/// The object of a stop that found nothing to stop.
pub open spec fn nothing_stopped() -> JsonView {
    obj(seq![("stopped"@, JsonView::Bool(false)), ("running"@, JsonView::Bool(false))])
}

fn emit_nothing(format: OutputFormat, human: &str) -> (r: Vec<Out>)
    ensures
        r.deep_view() == reported(format, nothing_stopped(), human@),
{
    let v: Vec<(String, Json)> = vec![
        ("stopped".to_owned(), Json::Bool(false)),
        ("running".to_owned(), Json::Bool(false)),
    ];
    assert(pairs(v@) =~= seq![
        ("stopped"@, JsonView::Bool(false)),
        ("running"@, JsonView::Bool(false)),
    ]);
    emit(format, object(v), human)
}

/// What the hub did when it was asked to let a project go.
#[derive(Debug, Clone, Copy, PartialEq, Eq, Structural)]
pub struct Detached {
    /// Was the project served?
    pub detached: bool,
    /// Was it the last one, so that the hub exits?
    pub hub_exiting: bool,
}

/// How the hub was asked to let a project go.
#[derive(Debug, PartialEq, Eq)]
pub enum DetachAttempt {
    /// There is no hub.
    NoHub,
    /// It answered.
    Answered(Detached),
    /// The request failed.
    Failed(String),
}

/// What `stop` does next.
#[derive(Debug, Clone, Copy, PartialEq, Eq, Structural)]
pub enum StopStep {
    /// Signal the old daemon with this number and wait for it to go.
    SignalLegacy(u32),
    /// Clear away what an old daemon left, and ask the hub to let the project go.
    Detach,
    /// Wait for the hub to go.
    AwaitHub,
    /// Say what was done.
    Report,
}

/// The first step of stopping.
pub open spec fn first_stop(legacy: Option<u32>) -> StopStep {
    match legacy {
        Some(pid) => StopStep::SignalLegacy(pid),
        None => StopStep::Detach,
    }
}

/// The first step: `legacy` is the number of an old daemon that answers for the project.
pub fn stop_first(legacy: Option<u32>) -> (r: StopStep)
    ensures
        r == first_stop(legacy),
{
    match legacy {
        Some(pid) => StopStep::SignalLegacy(pid),
        None => StopStep::Detach,
    }
}

/// The step behind the hub's answer.
pub open spec fn next_stop(attempt: DetachAttempt) -> StopStep {
    match attempt {
        DetachAttempt::Answered(d) => if d.detached && d.hub_exiting {
            StopStep::AwaitHub
        } else {
            StopStep::Report
        },
        _ => StopStep::Report,
    }
}

/// The step behind the hub's answer: a hub that let its last project go is waited for.
pub fn stop_next(attempt: &DetachAttempt) -> (r: StopStep)
    ensures
        r == next_stop(*attempt),
{
    match attempt {
        DetachAttempt::Answered(d) => if d.detached && d.hub_exiting {
            StopStep::AwaitHub
        } else {
            StopStep::Report
        },
        _ => StopStep::Report,
    }
}

/// What `stop` prints, if the hub was asked.
pub open spec fn stop_output(
    format: OutputFormat,
    attempt: DetachAttempt,
) -> Result<Seq<OutView>, ErrorView> {
    match attempt {
        DetachAttempt::NoHub => Ok(
            reported(format, nothing_stopped(), "no daemon serving this project"@),
        ),
        DetachAttempt::Failed(e) => Err(daemon_failure("detaching this project: "@ + e@)),
        DetachAttempt::Answered(d) => if d.detached {
            Ok(
                reported(
                    format,
                    obj(
                        seq![
                            ("stopped"@, JsonView::Bool(true)),
                            ("hub_stopped"@, JsonView::Bool(d.hub_exiting)),
                        ],
                    ),
                    "daemon stopped serving this project"@,
                ),
            )
        } else {
            Ok(reported(format, nothing_stopped(), "no daemon serving this project"@))
        },
    }
}

/// Reports a stop. Where the hub exits, the caller waits for it first.
pub fn stop(format: OutputFormat, attempt: &DetachAttempt) -> (r: Result<Vec<Out>, CloveError>)
    ensures
        crate::cmd::plugin_install::lines_view(r) == stop_output(format, *attempt),
{
    match attempt {
        DetachAttempt::NoHub => Ok(emit_nothing(format, "no daemon serving this project")),
        DetachAttempt::Failed(e) => {
            let told = text::cat2("detaching this project: ", e.as_str());
            Err(daemon_err(told.as_str()))
        },
        DetachAttempt::Answered(d) => {
            if !d.detached {
                return Ok(emit_nothing(format, "no daemon serving this project"));
            }
            let v: Vec<(String, Json)> = vec![
                ("stopped".to_owned(), Json::Bool(true)),
                ("hub_stopped".to_owned(), Json::Bool(d.hub_exiting)),
            ];
            assert(pairs(v@) =~= seq![
                ("stopped"@, JsonView::Bool(true)),
                ("hub_stopped"@, JsonView::Bool(d.hub_exiting)),
            ]);
            Ok(emit(format, object(v), "daemon stopped serving this project"))
        },
    }
}

/// How an attempt to reach the hub ended.
#[derive(Debug, Clone, Copy, PartialEq, Eq, Structural)]
pub enum Reached {
    Connected,
    /// It answered, and refused.
    Refused,
    /// It answered, in another protocol.
    Garbled,
    /// Nothing answered.
    Nothing,
}

/// The process that is signalled in order to stop the hub.
pub open spec fn hub_signalled(reached: Reached, pid: Option<u32>) -> Option<u32> {
    if reached == Reached::Nothing {
        None
    } else {
        pid
    }
}

/// The process to signal in order to stop the hub: the one it left its number of, but
/// only if something answered. A leftover number can be that of an unrelated process.
pub fn hub_to_stop(reached: Reached, pid: Option<u32>) -> (r: Option<u32>)
    ensures
        r == hub_signalled(reached, pid),
{
    match reached {
        Reached::Nothing => None,
        _ => pid,
    }
}

/// What `stop --all` prints: `stopped` if there was a hub to stop.
pub fn stop_hub(format: OutputFormat, stopped: bool) -> (r: Vec<Out>)
    ensures
        r.deep_view() == (if stopped {
            reported(format, obj(seq![("stopped"@, JsonView::Bool(true))]), "daemon stopped"@)
        } else {
            reported(format, nothing_stopped(), "no daemon running"@)
        }),
{
    if !stopped {
        return emit_nothing(format, "no daemon running");
    }
    let v: Vec<(String, Json)> = vec![("stopped".to_owned(), Json::Bool(true))];
    assert(pairs(v@) =~= seq![("stopped"@, JsonView::Bool(true))]);
    emit(format, object(v), "daemon stopped")
}

// ---- Status -------------------------------------------------------------------

/// The state of one project's daemon.
#[derive(Debug, PartialEq, Eq)]
pub struct ProjectStatus {
    pub uptime_s: u64,
    pub items_indexed: u64,
    pub watcher_state: String,
    pub last_event_ms: Option<u64>,
    pub batches_applied: u64,
    pub ping_count: u64,
    pub last_ping_ms: Option<u64>,
    pub web_addr: Option<String>,
    pub web_url: Option<String>,
}

/// The model of a [`ProjectStatus`].
pub struct ProjectView {
    pub uptime_s: u64,
    pub items_indexed: u64,
    pub watcher_state: Seq<char>,
    pub last_event_ms: Option<u64>,
    pub batches_applied: u64,
    pub ping_count: u64,
    pub last_ping_ms: Option<u64>,
    pub web_addr: Option<Seq<char>>,
    pub web_url: Option<Seq<char>>,
}

impl DeepView for ProjectStatus {
    type V = ProjectView;

    open spec fn deep_view(&self) -> ProjectView {
        ProjectView {
            uptime_s: self.uptime_s,
            items_indexed: self.items_indexed,
            watcher_state: self.watcher_state@,
            last_event_ms: self.last_event_ms,
            batches_applied: self.batches_applied,
            ping_count: self.ping_count,
            last_ping_ms: self.last_ping_ms,
            web_addr: self.web_addr.deep_view(),
            web_url: self.web_url.deep_view(),
        }
    }
}

/// A project that the hub serves.
#[derive(Debug, PartialEq, Eq)]
pub struct ServedProject {
    pub clove_dir: String,
    pub status: ProjectStatus,
}

/// The model of a [`ServedProject`].
pub struct ServedView {
    pub clove_dir: Seq<char>,
    pub status: ProjectView,
}

impl DeepView for ServedProject {
    type V = ServedView;

    open spec fn deep_view(&self) -> ServedView {
        ServedView { clove_dir: self.clove_dir@, status: self.status.deep_view() }
    }
}

/// The state of the hub.
#[derive(Debug, PartialEq, Eq)]
pub struct HubStatus {
    pub pid: u32,
    pub uptime_s: u64,
    pub web_addr: Option<String>,
    pub projects: Vec<ServedProject>,
}

/// The model of a [`HubStatus`].
pub struct HubView {
    pub pid: u32,
    pub uptime_s: u64,
    pub web_addr: Option<Seq<char>>,
    pub projects: Seq<ServedView>,
}

impl DeepView for HubStatus {
    type V = HubView;

    open spec fn deep_view(&self) -> HubView {
        HubView {
            pid: self.pid,
            uptime_s: self.uptime_s,
            web_addr: self.web_addr.deep_view(),
            projects: self.projects.deep_view(),
        }
    }
}

/// The object of a project that the hub serves.
pub open spec fn served_object(p: ServedView) -> JsonView {
    obj(
        seq![
            ("clove_dir"@, JsonView::Text(p.clove_dir)),
            ("items_indexed"@, num(p.status.items_indexed as int)),
            ("watcher_state"@, JsonView::Text(p.status.watcher_state)),
            ("last_event_ms"@, num_or_null(p.status.last_event_ms)),
            ("web_url"@, text_or_null(p.status.web_url)),
        ],
    )
}

fn served_json(p: &ServedProject) -> (r: Json)
    ensures
        r.shape() == served_object(p.deep_view()),
{
    let v: Vec<(String, Json)> = vec![
        ("clove_dir".to_owned(), string(p.clove_dir.as_str())),
        ("items_indexed".to_owned(), number(p.status.items_indexed)),
        ("watcher_state".to_owned(), string(p.status.watcher_state.as_str())),
        ("last_event_ms".to_owned(), number_or_null(p.status.last_event_ms)),
        ("web_url".to_owned(), string_or_null(borrowed(&p.status.web_url))),
    ];
    let ghost w = p.deep_view();
    assert(pairs(v@) =~= seq![
        ("clove_dir"@, JsonView::Text(w.clove_dir)),
        ("items_indexed"@, num(w.status.items_indexed as int)),
        ("watcher_state"@, JsonView::Text(w.status.watcher_state)),
        ("last_event_ms"@, num_or_null(w.status.last_event_ms)),
        ("web_url"@, text_or_null(w.status.web_url)),
    ]);
    object(v)
}

/// The object of the hub.
pub open spec fn hub_object(h: HubView) -> JsonView {
    obj(
        seq![
            ("pid"@, num(h.pid as int)),
            ("uptime_s"@, num(h.uptime_s as int)),
            ("web_addr"@, text_or_null(h.web_addr)),
            (
                "projects"@,
                JsonView::Array(
                    Seq::new(h.projects.len(), |i: int| served_object(h.projects[i])),
                ),
            ),
        ],
    )
}

fn hub_json(h: &HubStatus) -> (r: Json)
    ensures
        r.shape() == hub_object(h.deep_view()),
{
    let ghost w = h.deep_view();
    let mut items: Vec<Json> = Vec::new();
    let mut i: usize = 0;
    while i < h.projects.len()
        invariant
            i <= h.projects.len(),
            w == h.deep_view(),
            items.len() == i,
            forall|j: int|
                0 <= j < i ==> (#[trigger] items@[j]).shape() == served_object(w.projects[j]),
        decreases h.projects.len() - i,
    {
        assert(w.projects[i as int] == h.projects@[i as int].deep_view());
        items.push(served_json(&h.projects[i]));
        i += 1;
    }
    proof {
        crate::json::lemma_array_shape(items);
        assert(items.deep_view() =~= Seq::new(
            w.projects.len(),
            |i: int| served_object(w.projects[i]),
        ));
    }
    let ghost array = Json::Array(items).shape();
    let v: Vec<(String, Json)> = vec![
        ("pid".to_owned(), number(h.pid as u64)),
        ("uptime_s".to_owned(), number(h.uptime_s)),
        ("web_addr".to_owned(), string_or_null(borrowed(&h.web_addr))),
        ("projects".to_owned(), Json::Array(items)),
    ];
    assert(pairs(v@) =~= seq![
        ("pid"@, num(w.pid as int)),
        ("uptime_s"@, num(w.uptime_s as int)),
        ("web_addr"@, text_or_null(w.web_addr)),
        ("projects"@, array),
    ]);
    object(v)
}

/// The fields of a project that is served.
pub open spec fn project_entries(s: ProjectView) -> Seq<(Seq<char>, JsonView)> {
    seq![
        ("uptime_s"@, num(s.uptime_s as int)),
        ("items_indexed"@, num(s.items_indexed as int)),
        ("watcher_state"@, JsonView::Text(s.watcher_state)),
        ("last_event_ms"@, num_or_null(s.last_event_ms)),
        ("batches_applied"@, num(s.batches_applied as int)),
        ("ping_count"@, num(s.ping_count as int)),
        ("last_ping_ms"@, num_or_null(s.last_ping_ms)),
        ("web_addr"@, text_or_null(s.web_addr)),
        ("web_url"@, text_or_null(s.web_url)),
    ]
}

/// The hub's object, or `null`.
pub open spec fn hub_or_null(hub: Option<HubView>) -> JsonView {
    match hub {
        Some(h) => hub_object(h),
        None => JsonView::Null,
    }
}

/// The entries of a status report.
pub open spec fn status_entries(hub: Option<HubView>, project: Option<ProjectView>) -> Seq<
    (Seq<char>, JsonView),
> {
    let head = seq![("running"@, JsonView::Bool(project is Some)), ("hub"@, hub_or_null(hub))];
    match project {
        Some(s) => head + project_entries(s),
        None => head,
    }
}

/// The data of a status report.
pub open spec fn status_object(hub: Option<HubView>, project: Option<ProjectView>) -> JsonView {
    obj(status_entries(hub, project))
}

/// The view of an optional hub.
pub open spec fn hub_view(h: Option<&HubStatus>) -> Option<HubView> {
    match h {
        Some(h) => Some(h.deep_view()),
        None => None,
    }
}

/// The view of an optional project.
pub open spec fn project_view(p: Option<&ProjectStatus>) -> Option<ProjectView> {
    match p {
        Some(p) => Some(p.deep_view()),
        None => None,
    }
}

#[verifier::rlimit(30)]
fn status_json(hub: Option<&HubStatus>, project: Option<&ProjectStatus>) -> (r: Json)
    ensures
        r.shape() == status_object(hub_view(hub), project_view(project)),
{
    let hub_value: Json = match hub {
        Some(h) => hub_json(h),
        None => Json::Null,
    };
    let ghost hub_shape = hub_value.shape();
    let mut v: Vec<(String, Json)> = vec![
        ("running".to_owned(), Json::Bool(project.is_some())),
        ("hub".to_owned(), hub_value),
    ];
    assert(hub_shape == hub_or_null(hub_view(hub)));
    match project {
        Some(s) => {
            v.push(("uptime_s".to_owned(), number(s.uptime_s)));
            v.push(("items_indexed".to_owned(), number(s.items_indexed)));
            v.push(("watcher_state".to_owned(), string(s.watcher_state.as_str())));
            v.push(("last_event_ms".to_owned(), number_or_null(s.last_event_ms)));
            v.push(("batches_applied".to_owned(), number(s.batches_applied)));
            v.push(("ping_count".to_owned(), number(s.ping_count)));
            v.push(("last_ping_ms".to_owned(), number_or_null(s.last_ping_ms)));
            v.push(("web_addr".to_owned(), string_or_null(borrowed(&s.web_addr))));
            v.push(("web_url".to_owned(), string_or_null(borrowed(&s.web_url))));
            assert(pairs(v@) =~= status_entries(hub_view(hub), project_view(project)));
        },
        None => {
            assert(pairs(v@) =~= status_entries(hub_view(hub), project_view(project)));
        },
    }
    object(v)
}

/// The line of a project that is served.
pub open spec fn project_told(s: ProjectView) -> Seq<char> {
    "running  uptime "@ + text::decimal(s.uptime_s as nat) + "s  items "@ + text::decimal(
        s.items_indexed as nat,
    ) + "  watcher "@ + s.watcher_state + "  batches "@ + text::decimal(s.batches_applied as nat)
        + "  pings "@ + text::decimal(s.ping_count as nat) + (match s.web_url {
        Some(url) => "  web "@ + url,
        None => Seq::empty(),
    })
}

fn project_line(s: &ProjectStatus) -> (r: String)
    ensures
        r@ == project_told(s.deep_view()),
{
    let up = text::decimal_of(s.uptime_s);
    let items = text::decimal_of(s.items_indexed);
    let batches = text::decimal_of(s.batches_applied);
    let pings = text::decimal_of(s.ping_count);
    let mut line = text::cat8(
        "running  uptime ",
        up.as_str(),
        "s  items ",
        items.as_str(),
        "  watcher ",
        s.watcher_state.as_str(),
        "  batches ",
        batches.as_str(),
    );
    line.append("  pings ");
    line.append(pings.as_str());
    let ghost head = line@;
    match &s.web_url {
        Some(url) => {
            let web = text::cat2("  web ", url.as_str());
            line.append(web.as_str());
        },
        None => {
            assert(head + Seq::<char>::empty() =~= head);
        },
    }
    line
}

/// The line of the hub.
pub open spec fn hub_told(h: HubView) -> Seq<char> {
    "daemon pid "@ + text::decimal(h.pid as nat) + "  uptime "@ + text::decimal(h.uptime_s as nat)
        + "s  projects "@ + text::decimal(h.projects.len()) + (match h.web_addr {
        Some(a) => "  web http://"@ + a + "/"@,
        None => Seq::empty(),
    })
}

fn hub_line(h: &HubStatus) -> (r: String)
    ensures
        r@ == hub_told(h.deep_view()),
{
    let pid = text::decimal_of(h.pid as u64);
    let up = text::decimal_of(h.uptime_s);
    let n = text::decimal_of(h.projects.len() as u64);
    assert(h.deep_view().projects.len() == h.projects.len());
    let mut line = text::cat6(
        "daemon pid ",
        pid.as_str(),
        "  uptime ",
        up.as_str(),
        "s  projects ",
        n.as_str(),
    );
    let ghost head = line@;
    match &h.web_addr {
        Some(a) => {
            let web = text::cat3("  web http://", a.as_str(), "/");
            line.append(web.as_str());
        },
        None => {
            assert(head + Seq::<char>::empty() =~= head);
        },
    }
    line
}

/// The lines of a status report.
pub open spec fn status_lines(hub: Option<HubView>, project: Option<ProjectView>) -> Seq<OutView> {
    seq![
        OutView::Text(
            match project {
                Some(s) => project_told(s),
                None => if hub is Some {
                    "daemon not serving this project"@
                } else {
                    "daemon not running"@
                },
            },
        ),
    ] + (match hub {
        Some(h) => seq![OutView::Text(hub_told(h))] + Seq::new(
            h.projects.len(),
            |i: int|
                OutView::Text(
                    "  "@ + h.projects[i].clove_dir + "  items "@ + text::decimal(
                        h.projects[i].status.items_indexed as nat,
                    ),
                ),
        ),
        None => Seq::empty(),
    })
}

/// What `daemon status` prints.
pub open spec fn status_output(
    format: OutputFormat,
    hub: Option<HubView>,
    project: Option<ProjectView>,
) -> Seq<OutView> {
    if format == OutputFormat::Human {
        status_lines(hub, project)
    } else {
        seq![OutView::Json(success(status_object(hub, project), obj(Seq::empty())))]
    }
}

/// Renders this project's daemon status, and the hub's.
pub fn status(format: OutputFormat, hub: Option<&HubStatus>, project: Option<&ProjectStatus>) -> (r:
    Vec<Out>)
    ensures
        r.deep_view() == status_output(format, hub_view(hub), project_view(project)),
{
    match format {
        OutputFormat::Human => {
            let first = match project {
                Some(s) => project_line(s),
                None => if hub.is_some() {
                    "daemon not serving this project".to_owned()
                } else {
                    "daemon not running".to_owned()
                },
            };
            let mut out: Vec<Out> = vec![Out::Text(first)];
            let ghost head = seq![OutView::Text(first@)];
            assert(out.deep_view() =~= head);
            match hub {
                Some(h) => {
                    let ghost w = h.deep_view();
                    let mut lines: Vec<Out> = vec![Out::Text(hub_line(h))];
                    let ghost want = seq![OutView::Text(hub_told(w))] + Seq::new(
                        w.projects.len(),
                        |i: int|
                            OutView::Text(
                                "  "@ + w.projects[i].clove_dir + "  items "@ + text::decimal(
                                    w.projects[i].status.items_indexed as nat,
                                ),
                            ),
                    );
                    assert(lines@[0].deep_view() == want[0]);
                    let mut i: usize = 0;
                    while i < h.projects.len()
                        invariant
                            i <= h.projects.len(),
                            w == h.deep_view(),
                            want == seq![OutView::Text(hub_told(w))] + Seq::new(
                                w.projects.len(),
                                |i: int|
                                    OutView::Text(
                                        "  "@ + w.projects[i].clove_dir + "  items "@
                                            + text::decimal(
                                            w.projects[i].status.items_indexed as nat,
                                        ),
                                    ),
                            ),
                            lines.len() == i + 1,
                            forall|j: int|
                                0 <= j <= i ==> (#[trigger] lines@[j]).deep_view() == want[j],
                        decreases h.projects.len() - i,
                    {
                        let p = &h.projects[i];
                        assert(w.projects[i as int] == p.deep_view());
                        let n = text::decimal_of(p.status.items_indexed);
                        let line = text::cat4("  ", p.clove_dir.as_str(), "  items ", n.as_str());
                        assert(want[i + 1] == OutView::Text(line@));
                        lines.push(Out::Text(line));
                        i += 1;
                    }
                    assert(lines.deep_view() =~= want);
                    push_lines(&mut out, lines);
                },
                None => {
                    assert(out.deep_view() =~= head + Seq::<OutView>::empty());
                },
            }
            out
        },
        _ => {
            let line = Out::Json(success_envelope(status_json(hub, project), empty_object()));
            let ghost view = line.deep_view();
            let out: Vec<Out> = vec![line];
            assert(out.deep_view() =~= seq![view]);
            out
        },
    }
}

/// What is said of a status query that failed.
pub fn status_failed(error: &str) -> (r: CloveError)
    ensures
        r.deep_view() == daemon_failure("status query failed: "@ + error@),
{
    let told = text::cat2("status query failed: ", error);
    daemon_err(told.as_str())
}

/// Every failure to talk to the daemon exits with 7, and none with the filesystem's code.
pub proof fn law_daemon_failures_exit_with_seven(
    attempt: StartAttempt,
    legacy: Option<u32>,
    format: OutputFormat,
    detach: DetachAttempt,
)
    ensures
        start_problem(attempt, legacy) matches Some(e) ==> crate::error::coded(e) == (
            "DAEMON_ERROR"@,
            7int,
        ),
        stop_output(format, detach) matches Err(e) ==> crate::error::coded(e) == (
            "DAEMON_ERROR"@,
            7int,
        ),
{
}

/// Of a served project it is told which it is and how it stands.
pub proof fn law_a_served_project_is_told(p: ServedView)
    ensures
        served_object(p).member("clove_dir"@) == Some(JsonView::Text(p.clove_dir)),
        served_object(p).member("items_indexed"@) == Some(num(p.status.items_indexed as int)),
        served_object(p).member("watcher_state"@) == Some(JsonView::Text(p.status.watcher_state)),
        served_object(p).member("last_event_ms"@) == Some(num_or_null(p.status.last_event_ms)),
        served_object(p).member("web_url"@) == Some(text_or_null(p.status.web_url)),
{
    reveal_strlit("clove_dir");
    reveal_strlit("items_indexed");
    reveal_strlit("watcher_state");
    reveal_strlit("last_event_ms");
    reveal_strlit("web_url");
    let q = seq![
        ("clove_dir"@, JsonView::Text(p.clove_dir)),
        ("items_indexed"@, num(p.status.items_indexed as int)),
        ("watcher_state"@, JsonView::Text(p.status.watcher_state)),
        ("last_event_ms"@, num_or_null(p.status.last_event_ms)),
        ("web_url"@, text_or_null(p.status.web_url)),
    ];
    assert(served_object(p) == obj(q));
    assert(q[0].0 == "clove_dir"@ && q[1].0 == "items_indexed"@ && q[2].0 == "watcher_state"@ && q[3].0 == "last_event_ms"@ && q[4].0 == "web_url"@);
    assert("items_indexed"@[0] != "watcher_state"@[0]);
    assert("items_indexed"@[0] != "last_event_ms"@[0]);
    assert("watcher_state"@[0] != "last_event_ms"@[0]);
    assert forall|i: int, j: int| 0 <= i < j < q.len() implies (#[trigger] q[i]).0 != (
    #[trigger] q[j]).0 by {
        assert(i == 0 || i == 1 || i == 2 || i == 3);
        assert(j == 1 || j == 2 || j == 3 || j == 4);
    }
    law_distinct_pairs_are_members(q);
}

/// Of the hub it is told which process it is, how long it runs, where its page is, and each
/// project that it serves.
pub proof fn law_a_hub_is_told(h: HubView)
    ensures
        hub_object(h).member("pid"@) == Some(num(h.pid as int)),
        hub_object(h).member("uptime_s"@) == Some(num(h.uptime_s as int)),
        hub_object(h).member("web_addr"@) == Some(text_or_null(h.web_addr)),
        hub_object(h).member("projects"@) == Some(JsonView::Array(Seq::new(h.projects.len(), |i: int| served_object(h.projects[i])))),
{
    reveal_strlit("pid");
    reveal_strlit("uptime_s");
    reveal_strlit("web_addr");
    reveal_strlit("projects");
    let p = seq![
        ("pid"@, num(h.pid as int)),
        ("uptime_s"@, num(h.uptime_s as int)),
        ("web_addr"@, text_or_null(h.web_addr)),
        ("projects"@, JsonView::Array(Seq::new(h.projects.len(), |i: int| served_object(h.projects[i])))),
    ];
    assert(hub_object(h) == obj(p));
    assert(p[0].0 == "pid"@ && p[1].0 == "uptime_s"@ && p[2].0 == "web_addr"@ && p[3].0 == "projects"@);
    assert("uptime_s"@[0] != "web_addr"@[0]);
    assert("uptime_s"@[0] != "projects"@[0]);
    assert("web_addr"@[0] != "projects"@[0]);
    law_distinct_pairs_are_members(p);
}

/// The status says that the project is served if, and only if, it is, with all that its daemon
/// says of it, and what the hub says of itself if there is one.
#[verifier::rlimit(30)]
pub proof fn law_the_status_of_a_project_is_told(hub: Option<HubView>, project: Option<ProjectView>)
    ensures
        ({
            let o = status_object(hub, project);
            &&& o.member("running"@) == Some(JsonView::Bool(project is Some))
            &&& hub matches Some(h) ==> o.member("hub"@) == Some(hub_object(h))
            &&& hub is None ==> o.member("hub"@) == Some(JsonView::Null)
            &&& project matches Some(s) ==> {
                &&& o.member("uptime_s"@) == Some(num(s.uptime_s as int))
                &&& o.member("items_indexed"@) == Some(num(s.items_indexed as int))
                &&& o.member("watcher_state"@) == Some(JsonView::Text(s.watcher_state))
                &&& o.member("last_event_ms"@) == Some(num_or_null(s.last_event_ms))
                &&& o.member("batches_applied"@) == Some(num(s.batches_applied as int))
                &&& o.member("ping_count"@) == Some(num(s.ping_count as int))
                &&& o.member("last_ping_ms"@) == Some(num_or_null(s.last_ping_ms))
                &&& o.member("web_addr"@) == Some(text_or_null(s.web_addr))
                &&& o.member("web_url"@) == Some(text_or_null(s.web_url))
            }
        }),
{
    if let Some(s) = project {
        reveal_strlit("running");
        reveal_strlit("hub");
        reveal_strlit("uptime_s");
        reveal_strlit("items_indexed");
        reveal_strlit("watcher_state");
        reveal_strlit("last_event_ms");
        reveal_strlit("batches_applied");
        reveal_strlit("ping_count");
        reveal_strlit("last_ping_ms");
        reveal_strlit("web_addr");
        reveal_strlit("web_url");
        let p = seq![
            ("running"@, JsonView::Bool(project is Some)),
            ("hub"@, hub_or_null(hub)),
            ("uptime_s"@, num(s.uptime_s as int)),
            ("items_indexed"@, num(s.items_indexed as int)),
            ("watcher_state"@, JsonView::Text(s.watcher_state)),
            ("last_event_ms"@, num_or_null(s.last_event_ms)),
            ("batches_applied"@, num(s.batches_applied as int)),
            ("ping_count"@, num(s.ping_count as int)),
            ("last_ping_ms"@, num_or_null(s.last_ping_ms)),
            ("web_addr"@, text_or_null(s.web_addr)),
            ("web_url"@, text_or_null(s.web_url)),
        ];
        assert(p =~= status_entries(hub, project));
        assert(status_object(hub, project) == obj(p));
        assert(p[0].0 == "running"@ && p[1].0 == "hub"@ && p[2].0 == "uptime_s"@ && p[3].0 == "items_indexed"@ && p[4].0 == "watcher_state"@ && p[5].0 == "last_event_ms"@ && p[6].0 == "batches_applied"@ && p[7].0 == "ping_count"@ && p[8].0 == "last_ping_ms"@ && p[9].0 == "web_addr"@ && p[10].0 == "web_url"@);
        assert("running"@[0] != "web_url"@[0]);
        assert("uptime_s"@[0] != "web_addr"@[0]);
        assert("items_indexed"@[0] != "watcher_state"@[0]);
        assert("items_indexed"@[0] != "last_event_ms"@[0]);
        assert("watcher_state"@[0] != "last_event_ms"@[0]);
        assert forall|i: int, j: int| 0 <= i < j < p.len() implies (#[trigger] p[i]).0 != (
        #[trigger] p[j]).0 by {
            assert(i == 0 || i == 1 || i == 2 || i == 3 || i == 4 || i == 5 || i == 6 || i == 7 || i == 8 || i == 9);
            assert(j == 1 || j == 2 || j == 3 || j == 4 || j == 5 || j == 6 || j == 7 || j == 8 || j == 9 || j == 10);
        }
        law_distinct_pairs_are_members(p);
    } else {
        reveal_strlit("running");
        reveal_strlit("hub");
        let p = seq![
            ("running"@, JsonView::Bool(project is Some)),
            ("hub"@, hub_or_null(hub)),
        ];
        assert(status_object(hub, project) == obj(p));
        assert(p[0].0 == "running"@ && p[1].0 == "hub"@);
        law_distinct_pairs_are_members(p);
    }
}

/// The line on a served project shows each of its numbers behind its name.
pub proof fn law_a_project_line_shows_each_number(s: ProjectView)
    ensures
        text::occurs(project_told(s), "running  uptime "@ + text::decimal(s.uptime_s as nat)),
        text::occurs(project_told(s), "s  items "@ + text::decimal(s.items_indexed as nat)),
        text::occurs(project_told(s), "  watcher "@ + s.watcher_state),
        text::occurs(project_told(s), "  batches "@ + text::decimal(s.batches_applied as nat)),
        text::occurs(project_told(s), "  pings "@ + text::decimal(s.ping_count as nat)),
{
    assert(project_told(s) =~= (Seq::<char>::empty()) + ("running  uptime "@ + text::decimal(s.uptime_s as nat)) + ("s  items "@ + text::decimal(s.items_indexed as nat) + "  watcher "@ + s.watcher_state + "  batches "@ + text::decimal(s.batches_applied as nat) + "  pings "@ + text::decimal(s.ping_count as nat) + (match s.web_url {
            Some(url) => "  web "@ + url,
            None => Seq::empty(),
        })));
    text::lemma_occurs_between(Seq::<char>::empty(), "running  uptime "@ + text::decimal(s.uptime_s as nat), "s  items "@ + text::decimal(s.items_indexed as nat) + "  watcher "@ + s.watcher_state + "  batches "@ + text::decimal(s.batches_applied as nat) + "  pings "@ + text::decimal(s.ping_count as nat) + (match s.web_url {
            Some(url) => "  web "@ + url,
            None => Seq::empty(),
        }));
    assert(project_told(s) =~= ("running  uptime "@ + text::decimal(s.uptime_s as nat)) + ("s  items "@ + text::decimal(s.items_indexed as nat)) + ("  watcher "@ + s.watcher_state + "  batches "@ + text::decimal(s.batches_applied as nat) + "  pings "@ + text::decimal(s.ping_count as nat) + (match s.web_url {
            Some(url) => "  web "@ + url,
            None => Seq::empty(),
        })));
    text::lemma_occurs_between("running  uptime "@ + text::decimal(s.uptime_s as nat), "s  items "@ + text::decimal(s.items_indexed as nat), "  watcher "@ + s.watcher_state + "  batches "@ + text::decimal(s.batches_applied as nat) + "  pings "@ + text::decimal(s.ping_count as nat) + (match s.web_url {
            Some(url) => "  web "@ + url,
            None => Seq::empty(),
        }));
    assert(project_told(s) =~= ("running  uptime "@ + text::decimal(s.uptime_s as nat) + "s  items "@ + text::decimal(s.items_indexed as nat)) + ("  watcher "@ + s.watcher_state) + ("  batches "@ + text::decimal(s.batches_applied as nat) + "  pings "@ + text::decimal(s.ping_count as nat) + (match s.web_url {
            Some(url) => "  web "@ + url,
            None => Seq::empty(),
        })));
    text::lemma_occurs_between("running  uptime "@ + text::decimal(s.uptime_s as nat) + "s  items "@ + text::decimal(s.items_indexed as nat), "  watcher "@ + s.watcher_state, "  batches "@ + text::decimal(s.batches_applied as nat) + "  pings "@ + text::decimal(s.ping_count as nat) + (match s.web_url {
            Some(url) => "  web "@ + url,
            None => Seq::empty(),
        }));
    assert(project_told(s) =~= ("running  uptime "@ + text::decimal(s.uptime_s as nat) + "s  items "@ + text::decimal(s.items_indexed as nat) + "  watcher "@ + s.watcher_state) + ("  batches "@ + text::decimal(s.batches_applied as nat)) + ("  pings "@ + text::decimal(s.ping_count as nat) + (match s.web_url {
            Some(url) => "  web "@ + url,
            None => Seq::empty(),
        })));
    text::lemma_occurs_between("running  uptime "@ + text::decimal(s.uptime_s as nat) + "s  items "@ + text::decimal(s.items_indexed as nat) + "  watcher "@ + s.watcher_state, "  batches "@ + text::decimal(s.batches_applied as nat), "  pings "@ + text::decimal(s.ping_count as nat) + (match s.web_url {
            Some(url) => "  web "@ + url,
            None => Seq::empty(),
        }));
    assert(project_told(s) =~= ("running  uptime "@ + text::decimal(s.uptime_s as nat) + "s  items "@ + text::decimal(s.items_indexed as nat) + "  watcher "@ + s.watcher_state + "  batches "@ + text::decimal(s.batches_applied as nat)) + ("  pings "@ + text::decimal(s.ping_count as nat)) + ((match s.web_url {
            Some(url) => "  web "@ + url,
            None => Seq::empty(),
        })));
    text::lemma_occurs_between("running  uptime "@ + text::decimal(s.uptime_s as nat) + "s  items "@ + text::decimal(s.items_indexed as nat) + "  watcher "@ + s.watcher_state + "  batches "@ + text::decimal(s.batches_applied as nat), "  pings "@ + text::decimal(s.ping_count as nat), (match s.web_url {
            Some(url) => "  web "@ + url,
            None => Seq::empty(),
        }));
}

/// The line on the hub shows its process, how long it runs and how many projects it serves.
pub proof fn law_a_hub_line_shows_each_number(h: HubView)
    ensures
        text::occurs(hub_told(h), "daemon pid "@ + text::decimal(h.pid as nat)),
        text::occurs(hub_told(h), "  uptime "@ + text::decimal(h.uptime_s as nat)),
        text::occurs(hub_told(h), "s  projects "@ + text::decimal(h.projects.len())),
{
    assert(hub_told(h) =~= (Seq::<char>::empty()) + ("daemon pid "@ + text::decimal(h.pid as nat)) + ("  uptime "@ + text::decimal(h.uptime_s as nat) + "s  projects "@ + text::decimal(h.projects.len()) + (match h.web_addr {
            Some(a) => "  web http://"@ + a + "/"@,
            None => Seq::empty(),
        })));
    text::lemma_occurs_between(Seq::<char>::empty(), "daemon pid "@ + text::decimal(h.pid as nat), "  uptime "@ + text::decimal(h.uptime_s as nat) + "s  projects "@ + text::decimal(h.projects.len()) + (match h.web_addr {
            Some(a) => "  web http://"@ + a + "/"@,
            None => Seq::empty(),
        }));
    assert(hub_told(h) =~= ("daemon pid "@ + text::decimal(h.pid as nat)) + ("  uptime "@ + text::decimal(h.uptime_s as nat)) + ("s  projects "@ + text::decimal(h.projects.len()) + (match h.web_addr {
            Some(a) => "  web http://"@ + a + "/"@,
            None => Seq::empty(),
        })));
    text::lemma_occurs_between("daemon pid "@ + text::decimal(h.pid as nat), "  uptime "@ + text::decimal(h.uptime_s as nat), "s  projects "@ + text::decimal(h.projects.len()) + (match h.web_addr {
            Some(a) => "  web http://"@ + a + "/"@,
            None => Seq::empty(),
        }));
    assert(hub_told(h) =~= ("daemon pid "@ + text::decimal(h.pid as nat) + "  uptime "@ + text::decimal(h.uptime_s as nat)) + ("s  projects "@ + text::decimal(h.projects.len())) + ((match h.web_addr {
            Some(a) => "  web http://"@ + a + "/"@,
            None => Seq::empty(),
        })));
    text::lemma_occurs_between("daemon pid "@ + text::decimal(h.pid as nat) + "  uptime "@ + text::decimal(h.uptime_s as nat), "s  projects "@ + text::decimal(h.projects.len()), (match h.web_addr {
            Some(a) => "  web http://"@ + a + "/"@,
            None => Seq::empty(),
        }));
}

/// People are told whether the project is served, and of the hub a line for each project that
/// it serves, in order.
pub proof fn law_the_status_lists_every_served_project(
    hub: Option<HubView>,
    project: Option<ProjectView>,
    i: int,
)
    ensures
        project matches Some(s) ==> status_lines(hub, project)[0] == OutView::Text(project_told(s)),
        project is None && hub is Some ==> status_lines(hub, project)[0] == OutView::Text(
            "daemon not serving this project"@,
        ),
        project is None && hub is None ==> status_lines(hub, project)[0] == OutView::Text(
            "daemon not running"@,
        ),
        hub is None ==> status_lines(hub, project).len() == 1,
        hub matches Some(h) ==> {
            &&& status_lines(hub, project).len() == h.projects.len() + 2
            &&& status_lines(hub, project)[1] == OutView::Text(hub_told(h))
            &&& 0 <= i < h.projects.len() ==> (status_lines(hub, project)[i + 2] matches OutView::Text(
                t,
            ) && text::occurs(t, h.projects[i].clove_dir) && text::ends(
                t,
                text::decimal(h.projects[i].status.items_indexed as nat),
            ))
        },
{
    if let Some(h) = hub {
        if 0 <= i < h.projects.len() {
            let dir = h.projects[i].clove_dir;
            let n = text::decimal(h.projects[i].status.items_indexed as nat);
            let t = "  "@ + dir + "  items "@ + n;
            assert(t =~= "  "@ + dir + ("  items "@ + n));
            text::lemma_occurs_between("  "@, dir, "  items "@ + n);
            assert(t.skip(t.len() - n.len()) =~= n);
            assert(status_lines(hub, project)[i + 2] == OutView::Text(t));
        }
    }
}

/// What is reported goes to people as it is worded and to programs as it is.
pub proof fn law_a_report_reaches_people_and_programs(data: JsonView, human: Seq<char>)
    ensures
        reported(OutputFormat::Human, data, human) == seq![OutView::Text(human)],
        reported(OutputFormat::Json, data, human).len() == 1,
        reported(OutputFormat::Json, data, human)[0] matches OutView::Json(v) && v.member("data"@)
            == Some(data) && v.member("ok"@) == Some(JsonView::Bool(true)),
{
    law_a_success_carries_its_data(data, obj(Seq::empty()));
}

/// Stopping says that it stopped something only where the hub let the project go, and that the
/// hub stopped only where it exits; a failed request is an error, and no hub is none.
pub proof fn law_stopping_says_what_stopped(attempt: DetachAttempt)
    ensures
        ({
            let out = stop_output(OutputFormat::Json, attempt);
            &&& out is Err <==> attempt is Failed
            &&& out matches Ok(lines) ==> (lines[0] matches OutView::Json(v) && (v.member("data"@)
                matches Some(d) && d.member("stopped"@) == Some(
                JsonView::Bool(attempt matches DetachAttempt::Answered(a) && a.detached),
            )))
            &&& attempt matches DetachAttempt::Answered(a) ==> (a.detached ==> (out->Ok_0[0]
                matches OutView::Json(v) && (v.member("data"@) matches Some(d) && d.member(
                "hub_stopped"@,
            ) == Some(JsonView::Bool(a.hub_exiting)))))
        }),
{
    reveal_strlit("stopped");
    reveal_strlit("running");
    reveal_strlit("hub_stopped");
    assert("stopped"@[0] != "running"@[0]);
    let none = seq![("stopped"@, JsonView::Bool(false)), ("running"@, JsonView::Bool(false))];
    assert(none[0].0 == "stopped"@ && none[1].0 == "running"@);
    law_distinct_pairs_are_members(none);
    law_a_success_carries_its_data(nothing_stopped(), obj(Seq::empty()));
    if let DetachAttempt::Answered(a) = attempt {
        let done = seq![
            ("stopped"@, JsonView::Bool(true)),
            ("hub_stopped"@, JsonView::Bool(a.hub_exiting)),
        ];
        assert(done[0].0 == "stopped"@ && done[1].0 == "hub_stopped"@);
        law_distinct_pairs_are_members(done);
        law_a_success_carries_its_data(obj(done), obj(Seq::empty()));
    }
}

/// A start fails unless the daemon serves; a refusal names the old daemon that is in the way,
/// if there is one, and otherwise what the daemon said.
pub proof fn law_a_start_fails_unless_it_serves(attempt: StartAttempt, legacy: Option<u32>)
    ensures
        start_problem(attempt, legacy) is None <==> attempt is Serving,
        attempt matches StartAttempt::Refused(m) ==> (start_problem(attempt, legacy) matches Some(
            ErrorView::Remote { message, .. },
        ) && (legacy matches Some(pid) ==> text::occurs(
            message,
            "pid "@ + text::decimal(pid as nat),
        )) && (legacy is None ==> text::ends(message, m@))),
        attempt matches StartAttempt::NoConnection(m) ==> (start_problem(attempt, legacy) matches Some(
            ErrorView::Remote { message, .. },
        ) && text::ends(message, m@)),
{
    if let StartAttempt::Refused(m) = attempt {
        if let Some(pid) = legacy {
            reveal_strlit("a clove 0.1.0 daemon (pid ");
            reveal_strlit("pid ");
            let n = text::decimal(pid as nat);
            let back = ") already serves this project; `clove daemon stop` stops it, then start again"@;
            let front = "a clove 0.1.0 daemon (pid "@.take(22);
            assert(front + "pid "@ =~= "a clove 0.1.0 daemon (pid "@);
            assert("a clove 0.1.0 daemon (pid "@ + n + back =~= front + ("pid "@ + n) + back);
            text::lemma_occurs_between(front, "pid "@ + n, back);
        } else {
            let front = "the daemon cannot serve this project: "@;
            assert((front + m@).skip(front.len() as int) =~= m@);
        }
    }
    if let StartAttempt::NoConnection(m) = attempt {
        let front = "could not start the daemon: "@;
        assert((front + m@).skip(front.len() as int) =~= m@);
    }
}

/// A daemon is waited for while its file is there and its time is not up; a file that is gone
/// in time means that it stopped.
pub proof fn law_a_daemon_is_waited_for_in_time(elapsed_ms: u64)
    ensures
        elapsed_ms < 5000 ==> waiting(elapsed_ms, true) == Waiting::Sleep && waiting(
            elapsed_ms,
            false,
        ) == Waiting::Gone,
        elapsed_ms >= 5000 ==> waiting(elapsed_ms, true) == Waiting::TimedOut && waiting(
            elapsed_ms,
            false,
        ) == Waiting::TimedOut,
{
}

/// An old daemon is signalled by its own number, and any other is asked to let the project go;
/// the hub is waited for only when it said that it is leaving. Nothing is signalled where
/// nothing answered.
pub proof fn law_stopping_goes_step_by_step(
    legacy: u32,
    attempt: DetachAttempt,
    reached: Reached,
    pid: Option<u32>,
)
    ensures
        first_stop(Some(legacy)) == StopStep::SignalLegacy(legacy),
        first_stop(None) == StopStep::Detach,
        next_stop(attempt) == StopStep::AwaitHub <==> (attempt matches DetachAttempt::Answered(d)
            && d.detached && d.hub_exiting),
        next_stop(attempt) == StopStep::AwaitHub || next_stop(attempt) == StopStep::Report,
        hub_signalled(Reached::Nothing, pid) is None,
        reached != Reached::Nothing ==> hub_signalled(reached, pid) == pid,
{
}

/// A failure of the daemon has its own code and exit; a number that is missing is shown as one.
pub proof fn law_a_daemon_failure_is_its_own(message: Seq<char>, pid: u32)
    ensures
        daemon_failure(message) == (ErrorView::Remote { code: "DAEMON_ERROR"@, exit: 7, message }),
        pid_number(Some(pid)) == Some(pid as u64) && pid_number(None) is None,
        pid_told(Some(pid)) == text::decimal(pid as nat) && pid_told(None) == "?"@,
        nothing_stopped().member("stopped"@) == Some(JsonView::Bool(false)),
        nothing_stopped().member("running"@) == Some(JsonView::Bool(false)),
{
    reveal_strlit("stopped");
    reveal_strlit("running");
    let p = seq![
        ("stopped"@, JsonView::Bool(false)),
        ("running"@, JsonView::Bool(false)),
    ];
    assert(nothing_stopped() == obj(p));
    assert(p[0].0 == "stopped"@ && p[1].0 == "running"@);
    assert("stopped"@[0] != "running"@[0]);
    law_distinct_pairs_are_members(p);
}

/// The status is told in lines for people and as one object for programs.
pub proof fn law_the_status_reaches_people_and_programs(
    hub: Option<HubView>,
    project: Option<ProjectView>,
)
    ensures
        status_output(OutputFormat::Human, hub, project) == status_lines(hub, project),
        status_output(OutputFormat::Json, hub, project).len() == 1,
        status_output(OutputFormat::Json, hub, project)[0] matches OutView::Json(v) && v.member(
            "data"@,
        ) == Some(status_object(hub, project)),
        status_output(OutputFormat::Jsonl, hub, project) == status_output(
            OutputFormat::Json,
            hub,
            project,
        ),
{
    law_a_success_carries_its_data(status_object(hub, project), obj(Seq::empty()));
}

/// A start that finds the project served says that it runs, by which process, and that nothing
/// was started.
pub proof fn law_a_served_project_is_not_started_again(pid: Option<u32>)
    ensures
        serving_object(pid).member("started"@) == Some(JsonView::Bool(false)),
        serving_object(pid).member("running"@) == Some(JsonView::Bool(true)),
        serving_object(pid).member("pid"@) == Some(num_or_null(pid_number(pid))),
{
    reveal_strlit("started");
    reveal_strlit("running");
    reveal_strlit("pid");
    let p = seq![
        ("started"@, JsonView::Bool(false)),
        ("running"@, JsonView::Bool(true)),
        ("pid"@, num_or_null(pid_number(pid))),
    ];
    assert(serving_object(pid) == obj(p));
    assert(p[0].0 == "started"@ && p[1].0 == "running"@ && p[2].0 == "pid"@);
    assert("started"@[0] != "running"@[0]);
    law_distinct_pairs_are_members(p);
}

/// A start says that it was one, and by which process.
pub proof fn law_a_start_says_by_which_process(pid: Option<u32>)
    ensures
        started_object(pid).member("started"@) == Some(JsonView::Bool(true)),
        started_object(pid).member("pid"@) == Some(num_or_null(pid_number(pid))),
{
    reveal_strlit("started");
    reveal_strlit("pid");
    let p = seq![
        ("started"@, JsonView::Bool(true)),
        ("pid"@, num_or_null(pid_number(pid))),
    ];
    assert(started_object(pid) == obj(p));
    assert(p[0].0 == "started"@ && p[1].0 == "pid"@);
    law_distinct_pairs_are_members(p);
}

/// That an old daemon was stopped is told as such.
pub proof fn law_an_old_daemon_is_told_of_as_such()
    ensures
        legacy_object().member("stopped"@) == Some(JsonView::Bool(true)),
        legacy_object().member("legacy"@) == Some(JsonView::Bool(true)),
{
    reveal_strlit("stopped");
    reveal_strlit("legacy");
    let p = seq![
        ("stopped"@, JsonView::Bool(true)),
        ("legacy"@, JsonView::Bool(true)),
    ];
    assert(legacy_object() == obj(p));
    assert(p[0].0 == "stopped"@ && p[1].0 == "legacy"@);
    law_distinct_pairs_are_members(p);
}

/// A process that is gone already counts as stopped; any other failure is told as the system
/// did.
pub proof fn law_a_process_that_is_gone_is_stopped(code: Option<i32>, message: String)
    ensures
        signal_problem(None) is None,
        signal_problem(Some((Some(3i32), message))) is None,
        code != Some(3i32) ==> signal_problem(Some((code, message))) == Some(
            daemon_failure("sending SIGTERM: "@ + message@),
        ),
{
}

} // verus!
