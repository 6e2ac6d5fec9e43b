//! `clove stats`: work-item analytics.

use vstd::prelude::*;

use crate::cli::StatsArgs;
use crate::cmd::plugin::push_lines;
use crate::item_json::copy_entries;
use crate::json::{
    entries, insert, law_distinct_pairs_are_members, law_put_then_lookup, lookup, num, number, obj,
    object, put, string, Json, JsonView,
};
use crate::output::{
    law_a_success_carries_its_data, pairs, success, success_envelope, Out, OutView, OutputFormat,
};
use crate::text;
use crate::view::{limit_in_force, Page};

verus! {

// ---- The report ---------------------------------------------------------------

/// How often a key occurs.
#[derive(Debug, PartialEq, Eq)]
pub struct KeyCount {
    pub key: String,
    pub count: u64,
}

impl DeepView for KeyCount {
    type V = (Seq<char>, u64);

    open spec fn deep_view(&self) -> (Seq<char>, u64) {
        (self.key@, self.count)
    }
}

#[derive(Debug, Clone, Copy, PartialEq, Eq, Structural)]
pub struct StatusCounts {
    pub open: u64,
    pub in_progress: u64,
    pub closed: u64,
}

#[derive(Debug, Clone, Copy, PartialEq, Eq, Structural)]
pub struct TypeCounts {
    pub bug: u64,
    pub feature: u64,
    pub chore: u64,
    pub docs: u64,
    pub epic: u64,
}

/// How many items have each priority.
#[derive(Debug, Clone, Copy, PartialEq, Eq, Structural)]
pub struct PriorityCounts {
    pub p0: u64,
    pub p1: u64,
    pub p2: u64,
    pub p3: u64,
    pub p4: u64,
}

#[derive(Debug, Clone, Copy, PartialEq, Eq, Structural)]
pub struct Throughput {
    pub created_7d: u64,
    pub created_30d: u64,
    pub created_total: u64,
    pub closed_7d: u64,
    pub closed_30d: u64,
    pub closed_total: u64,
}

/// How far an epic is.
#[derive(Debug, PartialEq, Eq)]
pub struct EpicRollup {
    pub id: String,
    pub title: String,
    pub closed: u64,
    pub total: u64,
    pub pct: u64,
    /// Is everything in it closed, so that it can be closed too?
    pub completable: bool,
}

/// The model of an [`EpicRollup`].
pub struct EpicView {
    pub id: Seq<char>,
    pub title: Seq<char>,
    pub closed: u64,
    pub total: u64,
    pub pct: u64,
    pub completable: bool,
}

impl DeepView for EpicRollup {
    type V = EpicView;

    open spec fn deep_view(&self) -> EpicView {
        EpicView {
            id: self.id@,
            title: self.title@,
            closed: self.closed,
            total: self.total,
            pct: self.pct,
            completable: self.completable,
        }
    }
}

/// The figures of a store.
#[derive(Debug, PartialEq, Eq)]
pub struct StatsReport {
    pub total: u64,
    pub by_status: StatusCounts,
    pub by_type: TypeCounts,
    pub by_priority: PriorityCounts,
    pub ready: u64,
    pub blocked: u64,
    pub excluded: u64,
    pub dangling: u64,
    pub cycles: u64,
    pub by_assignee: Vec<KeyCount>,
    pub unassigned: u64,
    pub by_label: Vec<KeyCount>,
    pub throughput: Throughput,
    pub epics: Vec<EpicRollup>,
}

/// The model of a [`StatsReport`].
pub struct ReportView {
    pub total: u64,
    pub by_status: StatusCounts,
    pub by_type: TypeCounts,
    pub by_priority: PriorityCounts,
    pub ready: u64,
    pub blocked: u64,
    pub excluded: u64,
    pub dangling: u64,
    pub cycles: u64,
    pub by_assignee: Seq<(Seq<char>, u64)>,
    pub unassigned: u64,
    pub by_label: Seq<(Seq<char>, u64)>,
    pub throughput: Throughput,
    pub epics: Seq<EpicView>,
}

impl DeepView for StatsReport {
    type V = ReportView;

    open spec fn deep_view(&self) -> ReportView {
        ReportView {
            total: self.total,
            by_status: self.by_status,
            by_type: self.by_type,
            by_priority: self.by_priority,
            ready: self.ready,
            blocked: self.blocked,
            excluded: self.excluded,
            dangling: self.dangling,
            cycles: self.cycles,
            by_assignee: self.by_assignee.deep_view(),
            unassigned: self.unassigned,
            by_label: self.by_label.deep_view(),
            throughput: self.throughput,
            epics: self.epics.deep_view(),
        }
    }
}

// ---- Telemetry ----------------------------------------------------------------

/// What a daemon says of itself.
#[derive(Debug, PartialEq, Eq)]
pub struct DaemonStats {
    pub uptime_s: u64,
    pub items_indexed: u64,
    pub watcher_state: String,
    pub last_event_ms: Option<u64>,
    pub batches_applied: u64,
}

/// What is known of the index.
#[derive(Debug, Clone, Copy, PartialEq, Eq, Structural)]
pub struct IndexStats {
    pub items_indexed: u64,
    pub schema_version: u64,
    pub stale: bool,
}

/// A number, or nothing.
pub open spec fn num_or_null(n: Option<u64>) -> JsonView {
    match n {
        Some(n) => num(n as int),
        None => JsonView::Null,
    }
}

fn number_or_null(n: Option<u64>) -> (r: Json)
    ensures
        r.shape() == num_or_null(n),
{
    match n {
        Some(n) => number(n),
        None => Json::Null,
    }
}

/// The daemon's telemetry: only that none runs where none does.
pub open spec fn daemon_object(d: Option<DaemonStats>) -> JsonView {
    match d {
        None => obj(seq![("running"@, JsonView::Bool(false))]),
        Some(s) => obj(
            seq![
                ("running"@, JsonView::Bool(true)),
                ("uptime_s"@, num(s.uptime_s as int)),
                ("items_indexed"@, num(s.items_indexed as int)),
                ("watcher_state"@, JsonView::Text(s.watcher_state@)),
                ("last_event_ms"@, num_or_null(s.last_event_ms)),
                ("batches_applied"@, num(s.batches_applied as int)),
            ],
        ),
    }
}

/// Renders the daemon's telemetry.
pub fn daemon_telemetry(d: &Option<DaemonStats>) -> (r: Json)
    ensures
        r.shape() == daemon_object(*d),
{
    match d {
        None => {
            let v: Vec<(String, Json)> = vec![("running".to_owned(), Json::Bool(false))];
            assert(pairs(v@) =~= seq![("running"@, JsonView::Bool(false))]);
            object(v)
        },
        Some(s) => {
            let v: Vec<(String, Json)> = vec![
                ("running".to_owned(), Json::Bool(true)),
                ("uptime_s".to_owned(), number(s.uptime_s)),
                ("items_indexed".to_owned(), number(s.items_indexed)),
                ("watcher_state".to_owned(), string(s.watcher_state.as_str())),
                ("last_event_ms".to_owned(), number_or_null(s.last_event_ms)),
                ("batches_applied".to_owned(), number(s.batches_applied)),
            ];
            assert(pairs(v@) =~= seq![
                ("running"@, JsonView::Bool(true)),
                ("uptime_s"@, num(s.uptime_s as int)),
                ("items_indexed"@, num(s.items_indexed as int)),
                ("watcher_state"@, JsonView::Text(s.watcher_state@)),
                ("last_event_ms"@, num_or_null(s.last_event_ms)),
                ("batches_applied"@, num(s.batches_applied as int)),
            ]);
            object(v)
        },
    }
}

/// The index's telemetry.
pub open spec fn index_object(i: Option<IndexStats>) -> JsonView {
    match i {
        None => obj(seq![("present"@, JsonView::Bool(false))]),
        Some(s) => obj(
            seq![
                ("present"@, JsonView::Bool(true)),
                ("items_indexed"@, num(s.items_indexed as int)),
                ("schema_version"@, num(s.schema_version as int)),
                ("stale"@, JsonView::Bool(s.stale)),
            ],
        ),
    }
}

/// Renders the index's telemetry.
pub fn index_telemetry(i: Option<IndexStats>) -> (r: Json)
    ensures
        r.shape() == index_object(i),
{
    match i {
        None => {
            let v: Vec<(String, Json)> = vec![("present".to_owned(), Json::Bool(false))];
            assert(pairs(v@) =~= seq![("present"@, JsonView::Bool(false))]);
            object(v)
        },
        Some(s) => {
            let v: Vec<(String, Json)> = vec![
                ("present".to_owned(), Json::Bool(true)),
                ("items_indexed".to_owned(), number(s.items_indexed)),
                ("schema_version".to_owned(), number(s.schema_version)),
                ("stale".to_owned(), Json::Bool(s.stale)),
            ];
            assert(pairs(v@) =~= seq![
                ("present"@, JsonView::Bool(true)),
                ("items_indexed"@, num(s.items_indexed as int)),
                ("schema_version"@, num(s.schema_version as int)),
                ("stale"@, JsonView::Bool(s.stale)),
            ]);
            object(v)
        },
    }
}

// ---- Rendering ----------------------------------------------------------------

/// Keys with their counts, in a row.
pub open spec fn counts_told(v: Seq<(Seq<char>, u64)>) -> Seq<char> {
    text::joined(
        Seq::new(v.len(), |i: int| v[i].0 + " "@ + text::decimal(v[i].1 as nat)),
        "  "@,
    )
}

fn counts(v: &Vec<KeyCount>) -> (r: String)
    ensures
        r@ == counts_told(v.deep_view()),
{
    let ghost all = v.deep_view();
    let mut parts: Vec<String> = Vec::new();
    let mut i: usize = 0;
    while i < v.len()
        invariant
            i <= v.len(),
            all == v.deep_view(),
            parts.len() == i,
            forall|j: int|
                0 <= j < i ==> (#[trigger] parts@[j])@ == all[j].0 + " "@ + text::decimal(
                    all[j].1 as nat,
                ),
        decreases v.len() - i,
    {
        assert(all[i as int] == v@[i as int].deep_view());
        let n = text::decimal_of(v[i].count);
        parts.push(text::cat3(v[i].key.as_str(), " ", n.as_str()));
        i += 1;
    }
    assert(parts.deep_view() =~= Seq::new(
        all.len(),
        |i: int| all[i].0 + " "@ + text::decimal(all[i].1 as nat),
    ));
    text::join(&parts, "  ")
}

fn counted(key: &str, count: u64) -> (r: KeyCount)
    ensures
        r.deep_view() == (key@, count),
{
    KeyCount { key: key.to_owned(), count }
}

/// The counts of the statuses.
pub open spec fn status_row(c: StatusCounts) -> Seq<(Seq<char>, u64)> {
    seq![("open"@, c.open), ("in_progress"@, c.in_progress), ("closed"@, c.closed)]
}

/// The counts of the types.
pub open spec fn type_row(c: TypeCounts) -> Seq<(Seq<char>, u64)> {
    seq![
        ("bug"@, c.bug),
        ("feature"@, c.feature),
        ("chore"@, c.chore),
        ("docs"@, c.docs),
        ("epic"@, c.epic),
    ]
}

/// The counts of the priorities.
pub open spec fn priority_row(c: PriorityCounts) -> Seq<(Seq<char>, u64)> {
    seq![("p0"@, c.p0), ("p1"@, c.p1), ("p2"@, c.p2), ("p3"@, c.p3), ("p4"@, c.p4)]
}

/// The counts of the workflow.
pub open spec fn workflow_row(r: ReportView) -> Seq<(Seq<char>, u64)> {
    seq![
        ("ready"@, r.ready),
        ("blocked"@, r.blocked),
        ("excluded"@, r.excluded),
        ("dangling"@, r.dangling),
        ("cycles"@, r.cycles),
    ]
}

/// The lines that every report has at its head.
pub open spec fn head_lines(r: ReportView) -> Seq<OutView> {
    seq![
        OutView::Text("clove stats — "@ + text::decimal(r.total as nat) + " items\n"@),
        OutView::Text("Status     "@ + counts_told(status_row(r.by_status))),
        OutView::Text("Type       "@ + counts_told(type_row(r.by_type))),
        OutView::Text("Priority   "@ + counts_told(priority_row(r.by_priority))),
        OutView::Text("Workflow   "@ + counts_told(workflow_row(r))),
    ]
}

fn status_counts(c: StatusCounts) -> (r: String)
    ensures
        r@ == counts_told(status_row(c)),
{
    let v: Vec<KeyCount> = vec![
        counted("open", c.open),
        counted("in_progress", c.in_progress),
        counted("closed", c.closed),
    ];
    assert(v.deep_view() =~= status_row(c));
    counts(&v)
}

fn type_counts(c: TypeCounts) -> (r: String)
    ensures
        r@ == counts_told(type_row(c)),
{
    let v: Vec<KeyCount> = vec![
        counted("bug", c.bug),
        counted("feature", c.feature),
        counted("chore", c.chore),
        counted("docs", c.docs),
        counted("epic", c.epic),
    ];
    assert(v.deep_view() =~= type_row(c));
    counts(&v)
}

fn priority_counts(c: PriorityCounts) -> (r: String)
    ensures
        r@ == counts_told(priority_row(c)),
{
    let v: Vec<KeyCount> = vec![
        counted("p0", c.p0),
        counted("p1", c.p1),
        counted("p2", c.p2),
        counted("p3", c.p3),
        counted("p4", c.p4),
    ];
    assert(v.deep_view() =~= priority_row(c));
    counts(&v)
}

fn workflow_counts(report: &StatsReport) -> (r: String)
    ensures
        r@ == counts_told(workflow_row(report.deep_view())),
{
    let v: Vec<KeyCount> = vec![
        counted("ready", report.ready),
        counted("blocked", report.blocked),
        counted("excluded", report.excluded),
        counted("dangling", report.dangling),
        counted("cycles", report.cycles),
    ];
    assert(v.deep_view() =~= workflow_row(report.deep_view()));
    counts(&v)
}

fn head(report: &StatsReport) -> (r: Vec<Out>)
    ensures
        r.deep_view() == head_lines(report.deep_view()),
{
    let n = text::decimal_of(report.total);
    let s = status_counts(report.by_status);
    let t = type_counts(report.by_type);
    let p = priority_counts(report.by_priority);
    let w = workflow_counts(report);
    let out: Vec<Out> = vec![
        Out::Text(text::cat3("clove stats — ", n.as_str(), " items\n")),
        Out::Text(text::cat2("Status     ", s.as_str())),
        Out::Text(text::cat2("Type       ", t.as_str())),
        Out::Text(text::cat2("Priority   ", p.as_str())),
        Out::Text(text::cat2("Workflow   ", w.as_str())),
    ];
    assert(out.deep_view() =~= head_lines(report.deep_view()));
    out
}

/// The lines on who works on items and how they are labelled, where there is any.
pub open spec fn people_lines(r: ReportView) -> Seq<OutView> {
    (if r.by_assignee.len() > 0 || r.unassigned > 0 {
        seq![
            OutView::Text(
                "Assignees  "@ + counts_told(r.by_assignee.push(("unassigned"@, r.unassigned))),
            ),
        ]
    } else {
        Seq::empty()
    }) + (if r.by_label.len() > 0 {
        seq![OutView::Text("Labels     "@ + counts_told(r.by_label))]
    } else {
        Seq::empty()
    })
}

fn copy_counts(v: &Vec<KeyCount>) -> (r: Vec<KeyCount>)
    ensures
        r.deep_view() == v.deep_view(),
{
    let mut out: Vec<KeyCount> = Vec::new();
    let mut i: usize = 0;
    while i < v.len()
        invariant
            i <= v.len(),
            out.len() == i,
            forall|j: int| 0 <= j < i ==> (#[trigger] out@[j]).deep_view() == v@[j].deep_view(),
        decreases v.len() - i,
    {
        out.push(KeyCount { key: v[i].key.clone(), count: v[i].count });
        i += 1;
    }
    assert(out.deep_view() =~= v.deep_view());
    out
}

fn people(report: &StatsReport) -> (r: Vec<Out>)
    ensures
        r.deep_view() == people_lines(report.deep_view()),
{
    let ghost v = report.deep_view();
    let mut out: Vec<Out> = Vec::new();
    assert(v.by_assignee.len() == report.by_assignee.len());
    assert(v.by_label.len() == report.by_label.len());
    if report.by_assignee.len() > 0 || report.unassigned > 0 {
        let mut who = copy_counts(&report.by_assignee);
        who.push(counted("unassigned", report.unassigned));
        assert(who.deep_view() =~= v.by_assignee.push(("unassigned"@, v.unassigned)));
        let told = counts(&who);
        out.push(Out::Text(text::cat2("Assignees  ", told.as_str())));
    }
    if report.by_label.len() > 0 {
        let told = counts(&report.by_label);
        out.push(Out::Text(text::cat2("Labels     ", told.as_str())));
    }
    assert(out.deep_view() =~= people_lines(v));
    out
}

/// The line on the throughput.
pub open spec fn throughput_told(t: Throughput) -> Seq<char> {
    "Throughput created 7d "@ + text::decimal(t.created_7d as nat) + " / 30d "@ + text::decimal(
        t.created_30d as nat,
    ) + " / all "@ + text::decimal(t.created_total as nat) + "    closed 7d "@ + text::decimal(
        t.closed_7d as nat,
    ) + " / 30d "@ + text::decimal(t.closed_30d as nat) + " / all "@ + text::decimal(
        t.closed_total as nat,
    )
}

fn throughput_line(t: Throughput) -> (r: String)
    ensures
        r@ == throughput_told(t),
{
    let a = text::decimal_of(t.created_7d);
    let b = text::decimal_of(t.created_30d);
    let c = text::decimal_of(t.created_total);
    let d = text::decimal_of(t.closed_7d);
    let e = text::decimal_of(t.closed_30d);
    let f = text::decimal_of(t.closed_total);
    let mut line = text::cat8(
        "Throughput created 7d ",
        a.as_str(),
        " / 30d ",
        b.as_str(),
        " / all ",
        c.as_str(),
        "    closed 7d ",
        d.as_str(),
    );
    line.append(" / 30d ");
    line.append(e.as_str());
    line.append(" / all ");
    line.append(f.as_str());
    line
}

/// The line of an epic; a mark says that it can be closed.
pub open spec fn epic_told(e: EpicView) -> Seq<char> {
    "  "@ + text::padded(e.id, 14) + " "@ + text::padded(e.title, 24) + " "@ + text::decimal(
        e.closed as nat,
    ) + "/"@ + text::decimal(e.total as nat) + "  "@ + text::decimal(e.pct as nat) + "%"@ + (
    if e.completable {
        " ✓"@
    } else {
        Seq::empty()
    })
}

fn epic_line(e: &EpicRollup) -> (r: String)
    ensures
        r@ == epic_told(e.deep_view()),
{
    let id = text::pad_right(e.id.as_str(), 14);
    let title = text::pad_right(e.title.as_str(), 24);
    let c = text::decimal_of(e.closed);
    let t = text::decimal_of(e.total);
    let p = text::decimal_of(e.pct);
    let mut line = text::cat8(
        "  ",
        id.as_str(),
        " ",
        title.as_str(),
        " ",
        c.as_str(),
        "/",
        t.as_str(),
    );
    line.append("  ");
    line.append(p.as_str());
    line.append("%");
    let ghost told = line@;
    assert(told + Seq::<char>::empty() =~= told);
    if e.completable {
        line.append(" ✓");
    }
    line
}

/// The lines of the epics, where there are any.
pub open spec fn epic_lines(epics: Seq<EpicView>) -> Seq<OutView> {
    if epics.len() == 0 {
        Seq::empty()
    } else {
        seq![OutView::Text("\nEpics"@)] + Seq::new(
            epics.len(),
            |i: int| OutView::Text(epic_told(epics[i])),
        )
    }
}

fn epic_section(epics: &Vec<EpicRollup>) -> (r: Vec<Out>)
    ensures
        r.deep_view() == epic_lines(epics.deep_view()),
{
    let ghost all = epics.deep_view();
    let mut out: Vec<Out> = Vec::new();
    assert(all.len() == epics.len());
    if epics.len() == 0 {
        assert(out.deep_view() =~= Seq::<OutView>::empty());
        return out;
    }
    out.push(Out::Text("\nEpics".to_owned()));
    let mut i: usize = 0;
    while i < epics.len()
        invariant
            i <= epics.len(),
            all == epics.deep_view(),
            out.len() == i + 1,
            out@[0].deep_view() == OutView::Text("\nEpics"@),
            forall|j: int|
                1 <= j < i + 1 ==> (#[trigger] out@[j]).deep_view() == OutView::Text(
                    epic_told(all[j - 1]),
                ),
        decreases epics.len() - i,
    {
        assert(all[i as int] == epics@[i as int].deep_view());
        out.push(Out::Text(epic_line(&epics[i])));
        i += 1;
    }
    assert(out.deep_view() =~= epic_lines(all));
    out
}

/// The line on the daemon.
pub open spec fn daemon_told(d: Option<DaemonStats>) -> Seq<char> {
    match d {
        None => "Daemon     not running"@,
        Some(s) => "Daemon     running  uptime "@ + text::decimal(s.uptime_s as nat) + "s  items "@
            + text::decimal(s.items_indexed as nat) + "  watcher "@ + s.watcher_state@,
    }
}

fn daemon_line(d: &Option<DaemonStats>) -> (r: String)
    ensures
        r@ == daemon_told(*d),
{
    match d {
        None => "Daemon     not running".to_owned(),
        Some(s) => {
            let u = text::decimal_of(s.uptime_s);
            let n = text::decimal_of(s.items_indexed);
            text::cat6(
                "Daemon     running  uptime ",
                u.as_str(),
                "s  items ",
                n.as_str(),
                "  watcher ",
                s.watcher_state.as_str(),
            )
        },
    }
}

/// The line on the index.
pub open spec fn index_told(i: Option<IndexStats>) -> Seq<char> {
    match i {
        None => "Index      not present"@,
        Some(s) => "Index      present  items "@ + text::decimal(s.items_indexed as nat)
            + "  schema "@ + text::decimal(s.schema_version as nat) + "  "@ + (if s.stale {
            "stale"@
        } else {
            "fresh"@
        }),
    }
}

fn index_line(i: Option<IndexStats>) -> (r: String)
    ensures
        r@ == index_told(i),
{
    match i {
        None => "Index      not present".to_owned(),
        Some(s) => {
            let n = text::decimal_of(s.items_indexed);
            let v = text::decimal_of(s.schema_version);
            let fresh = if s.stale {
                "stale"
            } else {
                "fresh"
            };
            text::cat6(
                "Index      present  items ",
                n.as_str(),
                "  schema ",
                v.as_str(),
                "  ",
                fresh,
            )
        },
    }
}

/// The lines at the end of a report.
pub open spec fn tail_lines(d: Option<DaemonStats>, i: Option<IndexStats>, snapshotted: bool) -> Seq<
    OutView,
> {
    seq![OutView::Text(""@), OutView::Text(daemon_told(d)), OutView::Text(index_told(i))] + (
    if snapshotted {
        seq![OutView::Text("\nsnapshot recorded to the index history (.clove/index.db)"@)]
    } else {
        Seq::empty()
    })
}

fn tail(d: &Option<DaemonStats>, i: Option<IndexStats>, snapshotted: bool) -> (r: Vec<Out>)
    ensures
        r.deep_view() == tail_lines(*d, i, snapshotted),
{
    let mut out: Vec<Out> = vec![
        Out::Text("".to_owned()),
        Out::Text(daemon_line(d)),
        Out::Text(index_line(i)),
    ];
    if snapshotted {
        out.push(
            Out::Text("\nsnapshot recorded to the index history (.clove/index.db)".to_owned()),
        );
    }
    assert(out.deep_view() =~= tail_lines(*d, i, snapshotted));
    out
}

/// The report as people read it.
pub open spec fn human_lines(
    r: ReportView,
    d: Option<DaemonStats>,
    i: Option<IndexStats>,
    snapshotted: bool,
) -> Seq<OutView> {
    head_lines(r) + people_lines(r) + seq![OutView::Text(throughput_told(r.throughput))]
        + epic_lines(r.epics) + tail_lines(d, i, snapshotted)
}

/// Renders the report in sections.
pub fn render_human(
    report: &StatsReport,
    daemon: &Option<DaemonStats>,
    index: Option<IndexStats>,
    snapshotted: bool,
) -> (r: Vec<Out>)
    ensures
        r.deep_view() == human_lines(report.deep_view(), *daemon, index, snapshotted),
{
    let mut out = head(report);
    push_lines(&mut out, people(report));
    let ghost before = out.deep_view();
    out.push(Out::Text(throughput_line(report.throughput)));
    assert(out.deep_view() =~= before + seq![OutView::Text(throughput_told(report.throughput))]);
    push_lines(&mut out, epic_section(&report.epics));
    push_lines(&mut out, tail(daemon, index, snapshotted));
    out
}

/// The data of a report: its own entries, and the telemetry.
pub open spec fn report_entries(
    e: Seq<(Seq<char>, JsonView)>,
    d: Option<DaemonStats>,
    i: Option<IndexStats>,
) -> Seq<(Seq<char>, JsonView)> {
    put(put(e, "daemon"@, daemon_object(d)), "index"@, index_object(i))
}

/// What is printed of a live report.
pub open spec fn stats_output(
    format: OutputFormat,
    r: ReportView,
    e: Seq<(Seq<char>, JsonView)>,
    d: Option<DaemonStats>,
    i: Option<IndexStats>,
    generated_at: Seq<char>,
    snapshotted: bool,
) -> Seq<OutView> {
    if format == OutputFormat::Human {
        human_lines(r, d, i, snapshotted)
    } else {
        seq![
            OutView::Json(
                success(
                    JsonView::Object(report_entries(e, d, i)),
                    obj(
                        seq![
                            ("source"@, JsonView::Text("files"@)),
                            ("generated_at"@, JsonView::Text(generated_at)),
                            ("snapshotted"@, JsonView::Bool(snapshotted)),
                        ],
                    ),
                ),
            ),
        ]
    }
}

/// Renders a live report. `serialized` holds the entries of the report as JSON.
pub fn run(
    format: OutputFormat,
    report: &StatsReport,
    serialized: &Vec<(String, Json)>,
    daemon: &Option<DaemonStats>,
    index: Option<IndexStats>,
    generated_at: &str,
    snapshotted: bool,
) -> (r: Vec<Out>)
    ensures
        r.deep_view() == stats_output(
            format,
            report.deep_view(),
            entries(serialized@),
            *daemon,
            index,
            generated_at@,
            snapshotted,
        ),
{
    match format {
        OutputFormat::Human => render_human(report, daemon, index, snapshotted),
        _ => {
            let mut map = copy_entries(serialized);
            insert(&mut map, "daemon".to_owned(), daemon_telemetry(daemon));
            insert(&mut map, "index".to_owned(), index_telemetry(index));
            proof {
                crate::json::lemma_object_shape(map);
            }
            let m: Vec<(String, Json)> = vec![
                ("source".to_owned(), string("files")),
                ("generated_at".to_owned(), string(generated_at)),
                ("snapshotted".to_owned(), Json::Bool(snapshotted)),
            ];
            assert(pairs(m@) =~= seq![
                ("source"@, JsonView::Text("files"@)),
                ("generated_at"@, JsonView::Text(generated_at@)),
                ("snapshotted"@, JsonView::Bool(snapshotted)),
            ]);
            let line = Out::Json(success_envelope(Json::Object(map), object(m)));
            let ghost view = line.deep_view();
            let out: Vec<Out> = vec![line];
            assert(out.deep_view() =~= seq![view]);
            out
        },
    }
}

/// What the report asks to be computed.
#[derive(Debug, Clone, Copy, PartialEq, Eq, Structural)]
pub struct StatsOptions {
    /// How many assignees and labels are listed.
    pub top: usize,
    pub include_epics: bool,
}

/// Reads what is to be computed: the ten most frequent without `--top`.
pub fn options(args: &StatsArgs) -> (r: StatsOptions)
    ensures
        r == (StatsOptions {
            top: match args.top {
                Some(n) => n,
                None => 10,
            },
            include_epics: !args.no_epics,
        }),
{
    StatsOptions {
        top: match args.top {
            Some(n) => n,
            None => 10,
        },
        include_epics: !args.no_epics,
    }
}

/// Are the arguments that window the history given without `--history`? A live report has
/// nothing to page, so that is a usage error.
pub fn stray_window(args: &StatsArgs) -> (r: bool)
    ensures
        r == (!args.history && (args.since is Some || args.limit is Some || args.offset is Some)),
{
    !args.history && (args.since.is_some() || args.limit.is_some() || args.offset.is_some())
}

// ---- The history --------------------------------------------------------------

/// A recorded report.
#[derive(Debug, PartialEq, Eq)]
pub struct Snapshot {
    pub captured_at: String,
    /// The same moment, in milliseconds.
    pub moment: i64,
    pub report: StatsReport,
    /// The report as JSON.
    pub stats: Json,
}

/// The model of a [`Snapshot`].
pub struct SnapshotView {
    pub captured_at: Seq<char>,
    pub moment: i64,
    pub report: ReportView,
    pub stats: JsonView,
}

impl DeepView for Snapshot {
    type V = SnapshotView;

    open spec fn deep_view(&self) -> SnapshotView {
        SnapshotView {
            captured_at: self.captured_at@,
            moment: self.moment,
            report: self.report.deep_view(),
            stats: self.stats.shape(),
        }
    }
}

/// How many recorded reports are shown without a limit of one's own.
pub const HISTORY_LIMIT: usize = 100;

/// Those reports of a series that were recorded at or after a moment.
pub open spec fn recorded_since(all: Seq<SnapshotView>, since: Option<i64>) -> Seq<SnapshotView>
    decreases all.len(),
{
    if all.len() == 0 {
        Seq::empty()
    } else {
        let rest = recorded_since(all.drop_last(), since);
        if since is None || all.last().moment >= since->0 {
            rest.push(all.last())
        } else {
            rest
        }
    }
}

/// The part of a history that is asked for: what was recorded since, without the first
/// `offset` of it, and no more than the limit. The default limit is [`HISTORY_LIMIT`], and 0
/// is none.
pub open spec fn history_part(
    all: Seq<SnapshotView>,
    since: Option<i64>,
    limit: Option<usize>,
    offset: Option<usize>,
) -> Seq<SnapshotView> {
    let kept = recorded_since(all, since);
    let from = if offset is None {
        0
    } else if offset->0 < kept.len() {
        offset->0 as int
    } else {
        kept.len() as int
    };
    let rest = kept.skip(from);
    match limit_in_force(limit, HISTORY_LIMIT) {
        Some(n) if n < rest.len() => rest.take(n as int),
        _ => rest,
    }
}

/// Cuts the part that is asked for out of the recorded series.
pub fn history_window(
    series: Vec<Snapshot>,
    since: Option<i64>,
    limit: Option<usize>,
    offset: Option<usize>,
) -> (r: Vec<Snapshot>)
    ensures
        r.deep_view() == history_part(series.deep_view(), since, limit, offset),
{
    let ghost all = series.deep_view();
    let skip: usize = match offset {
        Some(n) => n,
        None => 0,
    };
    let most: Option<usize> = Page::new(skip, limit, HISTORY_LIMIT).limit;
    let ghost mut done: int = 0;
    let mut seen: usize = 0;
    let mut rest: Vec<Snapshot> = series;
    let mut part: Vec<Snapshot> = Vec::new();
    assert(all.len() == series.len());
    assert(all.skip(0) =~= all);
    assert(recorded_since(all.take(0), since) =~= Seq::empty());
    assert(part.deep_view() =~= Seq::<SnapshotView>::empty());
    while rest.len() > 0
        invariant
            0 <= done <= all.len(),
            rest.deep_view() == all.skip(done),
            seen == recorded_since(all.take(done), since).len(),
            seen <= done,
            all.len() <= usize::MAX,
            part.deep_view() == recorded_since(all.take(done), since).skip(
                if skip < seen {
                    skip as int
                } else {
                    seen as int
                },
            ),
        decreases rest.len(),
    {
        let ghost prev = rest.deep_view();
        let ghost before = part.deep_view();
        let ghost so_far = recorded_since(all.take(done), since);
        assert(prev.len() == rest.len());
        assert(prev[0] == all[done]);
        let first = rest.remove(0);
        assert(first.deep_view() == all[done]);
        assert(rest.deep_view() =~= prev.drop_first());
        assert(prev.drop_first() =~= all.skip(done + 1));
        assert(all.take(done + 1).drop_last() =~= all.take(done));
        let wanted = match since {
            Some(m) => first.moment >= m,
            None => true,
        };
        let ghost view = first.deep_view();
        if wanted {
            if seen >= skip {
                part.push(first);
                assert(part.deep_view() =~= before.push(view));
                assert(so_far.push(view).skip(skip as int) =~= before.push(view));
            } else {
                assert(so_far.push(view).skip(seen + 1) =~= before);
            }
            seen += 1;
        }
        proof {
            done = done + 1;
        }
    }
    proof {
        assert(rest.deep_view().len() == 0);
        assert(all.take(done) =~= all);
    }
    let ghost whole = part.deep_view();
    if let Some(n) = most {
        if n < part.len() {
            part.truncate(n);
            assert(part.deep_view() =~= whole.take(n as int));
        }
    }
    part
}

/// What is left out of a history is left out at its ends alone: with nothing asked for, a
/// series that fits is shown whole, and an offset of `k` drops its first `k` reports.
pub proof fn law_an_offset_skips_that_many(all: Seq<SnapshotView>, k: usize)
    ensures
        history_part(all, None, Some(0), Some(k)) == all.skip(
            if k < all.len() {
                k as int
            } else {
                all.len() as int
            },
        ),
        all.len() <= HISTORY_LIMIT ==> history_part(all, None, None, None) == all,
{
    lemma_none_is_too_old(all);
    assert(all.skip(0) =~= all);
}

proof fn lemma_none_is_too_old(all: Seq<SnapshotView>)
    ensures
        recorded_since(all, None) == all,
    decreases all.len(),
{
    if all.len() > 0 {
        lemma_none_is_too_old(all.drop_last());
        assert(all.drop_last().push(all.last()) =~= all);
    } else {
        assert(all =~= Seq::empty());
    }
}

/// The object of a recorded report.
pub open spec fn snapshot_object(s: SnapshotView) -> JsonView {
    obj(seq![("captured_at"@, JsonView::Text(s.captured_at)), ("stats"@, s.stats)])
}

fn snapshot_json(s: &Snapshot) -> (r: Json)
    ensures
        r.shape() == snapshot_object(s.deep_view()),
{
    let v: Vec<(String, Json)> = vec![
        ("captured_at".to_owned(), string(s.captured_at.as_str())),
        ("stats".to_owned(), s.stats.copy()),
    ];
    assert(pairs(v@) =~= seq![
        ("captured_at"@, JsonView::Text(s.captured_at@)),
        ("stats"@, s.stats.shape()),
    ]);
    object(v)
}

/// A number in a column.
pub open spec fn column(n: u64, width: int) -> Seq<char> {
    text::padded_left(text::decimal(n as nat), width)
}

/// The row of a recorded report.
pub open spec fn snapshot_told(s: SnapshotView) -> Seq<char> {
    let r = s.report;
    text::padded(s.captured_at, 24) + " "@ + column(r.total, 5) + "  "@ + column(
        r.by_status.open,
        4,
    ) + "  "@ + column(r.by_status.in_progress, 7) + "  "@ + column(r.by_status.closed, 6) + "  "@
        + column(r.ready, 5) + "  "@ + column(r.blocked, 7) + "  "@ + column(r.cycles, 6)
}

fn push_column(line: &mut String, sep: &str, n: u64, width: usize)
    ensures
        final(line)@ == old(line)@ + sep@ + column(n, width as int),
{
    let d = text::decimal_of(n);
    let c = text::pad_left(d.as_str(), width);
    line.append(sep);
    line.append(c.as_str());
}

fn snapshot_line(s: &Snapshot) -> (r: String)
    ensures
        r@ == snapshot_told(s.deep_view()),
{
    let mut line = text::pad_right(s.captured_at.as_str(), 24);
    let r = &s.report;
    push_column(&mut line, " ", r.total, 5);
    push_column(&mut line, "  ", r.by_status.open, 4);
    push_column(&mut line, "  ", r.by_status.in_progress, 7);
    push_column(&mut line, "  ", r.by_status.closed, 6);
    push_column(&mut line, "  ", r.ready, 5);
    push_column(&mut line, "  ", r.blocked, 7);
    push_column(&mut line, "  ", r.cycles, 6);
    line
}

/// What is printed of the history. Without an index there is none: an empty series, no
/// error.
pub open spec fn history_output(format: OutputFormat, all: Option<Seq<SnapshotView>>) -> Seq<OutView> {
    let series = match all {
        Some(s) => s,
        None => Seq::empty(),
    };
    if format == OutputFormat::Human {
        match all {
            None => seq![
                OutView::Text(
                    "no stats snapshots recorded yet (run `clove stats --snapshot`)"@,
                ),
            ],
            Some(s) => if s.len() == 0 {
                seq![OutView::Text("no stats snapshots in range"@)]
            } else {
                seq![
                    OutView::Text(
                        "captured_at              total  open  in_prog  closed  ready  blocked  cycles"@,
                    ),
                ] + Seq::new(s.len(), |i: int| OutView::Text(snapshot_told(s[i])))
            },
        }
    } else {
        seq![
            OutView::Json(
                success(
                    JsonView::Array(Seq::new(series.len(), |i: int| snapshot_object(series[i]))),
                    obj(
                        seq![
                            ("total"@, num(series.len() as int)),
                            ("source"@, JsonView::Text("index"@)),
                        ],
                    ),
                ),
            ),
        ]
    }
}

fn history_json(series: &Vec<Snapshot>) -> (r: Out)
    ensures
        r.deep_view() == OutView::Json(
            success(
                JsonView::Array(
                    Seq::new(
                        series.deep_view().len(),
                        |i: int| snapshot_object(series.deep_view()[i]),
                    ),
                ),
                obj(
                    seq![
                        ("total"@, num(series.len() as int)),
                        ("source"@, JsonView::Text("index"@)),
                    ],
                ),
            ),
        ),
{
    let ghost all = series.deep_view();
    let mut items: Vec<Json> = Vec::new();
    let mut i: usize = 0;
    while i < series.len()
        invariant
            i <= series.len(),
            all == series.deep_view(),
            items.len() == i,
            forall|j: int| 0 <= j < i ==> (#[trigger] items@[j]).shape() == snapshot_object(all[j]),
        decreases series.len() - i,
    {
        assert(all[i as int] == series@[i as int].deep_view());
        items.push(snapshot_json(&series[i]));
        i += 1;
    }
    proof {
        crate::json::lemma_array_shape(items);
        assert(items.deep_view() =~= Seq::new(all.len(), |i: int| snapshot_object(all[i])));
    }
    let m: Vec<(String, Json)> = vec![
        ("total".to_owned(), number(series.len() as u64)),
        ("source".to_owned(), string("index")),
    ];
    assert(pairs(m@) =~= seq![
        ("total"@, num(series.len() as int)),
        ("source"@, JsonView::Text("index"@)),
    ]);
    Out::Json(success_envelope(Json::Array(items), object(m)))
}

/// The model of a history.
pub open spec fn history_view(h: Option<Vec<Snapshot>>) -> Option<Seq<SnapshotView>> {
    match h {
        Some(v) => Some(v.deep_view()),
        None => None,
    }
}

/// Renders the history.
pub fn show_history(format: OutputFormat, history: &Option<Vec<Snapshot>>) -> (r: Vec<Out>)
    ensures
        r.deep_view() == history_output(format, history_view(*history)),
{
    let mut out: Vec<Out> = Vec::new();
    match format {
        OutputFormat::Human => match history {
            None => {
                out.push(
                    Out::Text(
                        "no stats snapshots recorded yet (run `clove stats --snapshot`)".to_owned(),
                    ),
                );
                assert(out.deep_view() =~= history_output(format, None));
            },
            Some(s) => {
                let ghost all = s.deep_view();
                assert(all.len() == s.len());
                if s.len() == 0 {
                    out.push(Out::Text("no stats snapshots in range".to_owned()));
                    assert(out.deep_view() =~= history_output(format, Some(all)));
                    return out;
                }
                out.push(
                    Out::Text(
                        "captured_at              total  open  in_prog  closed  ready  blocked  cycles".to_owned(),
                    ),
                );
                let mut i: usize = 0;
                while i < s.len()
                    invariant
                        i <= s.len(),
                        all == s.deep_view(),
                        out.len() == i + 1,
                        out@[0].deep_view() == OutView::Text(
                            "captured_at              total  open  in_prog  closed  ready  blocked  cycles"@,
                        ),
                        forall|j: int|
                            1 <= j < i + 1 ==> (#[trigger] out@[j]).deep_view() == OutView::Text(
                                snapshot_told(all[j - 1]),
                            ),
                    decreases s.len() - i,
                {
                    assert(all[i as int] == s@[i as int].deep_view());
                    out.push(Out::Text(snapshot_line(&s[i])));
                    i += 1;
                }
                assert(out.deep_view() =~= history_output(format, Some(all)));
            },
        },
        _ => {
            match history {
                Some(s) => {
                    assert(s.deep_view().len() == s.len());
                    out.push(history_json(s));
                    assert(out.deep_view() =~= history_output(format, Some(s.deep_view())));
                },
                None => {
                    let none: Vec<Snapshot> = Vec::new();
                    assert(none.deep_view() =~= Seq::<SnapshotView>::empty());
                    out.push(history_json(&none));
                    assert(out.deep_view() =~= history_output(format, None));
                },
            }
        },
    }
    out
}

// ---- What a report shows --------------------------------------------------------

/// A row of counts shows each key with its count.
pub proof fn law_a_row_shows_each_count(v: Seq<(Seq<char>, u64)>, i: int)
    requires
        0 <= i < v.len(),
    ensures
        text::occurs(counts_told(v), v[i].0 + " "@ + text::decimal(v[i].1 as nat)),
{
    let parts = Seq::new(v.len(), |i: int| v[i].0 + " "@ + text::decimal(v[i].1 as nat));
    text::law_joined_parts_occur(parts, "  "@, i);
}

/// Has none of the keys a blank in it?
pub open spec fn keys_without_blanks(v: Seq<(Seq<char>, u64)>) -> bool {
    forall|i: int| 0 <= i < v.len() ==> !(#[trigger] v[i]).0.contains(' ')
}

/// Two rows of counts that read the same have the same keys with the same counts, in the
/// same order.
pub proof fn law_rows_tell_counts_apart(v: Seq<(Seq<char>, u64)>, w: Seq<(Seq<char>, u64)>)
    requires
        keys_without_blanks(v),
        keys_without_blanks(w),
        counts_told(v) == counts_told(w),
    ensures
        v == w,
    decreases v.len(),
{
    reveal_strlit(" ");
    reveal_strlit("  ");
    if v.len() == 0 {
        if w.len() > 0 {
            lemma_row_end(w);
            assert(counts_told(v).len() == 0);
        }
        assert(v =~= w);
    } else if w.len() == 0 {
        lemma_row_end(v);
        assert(counts_told(w).len() == 0);
    } else {
        lemma_row_end(v);
        lemma_row_end(w);
        let a = v.last();
        let b = w.last();
        assert(!v[v.len() - 1].0.contains(' ') && !w[w.len() - 1].0.contains(' '));
        text::law_decimals_tell_numbers_apart(a.1 as nat, b.1 as nat);
        text::law_decimals_tell_numbers_apart(b.1 as nat, a.1 as nat);
        text::lemma_last_apart(
            row_front(v) + a.0,
            text::decimal(a.1 as nat),
            row_front(w) + b.0,
            text::decimal(b.1 as nat),
            ' ',
        );
        let x = v.drop_last();
        let y = w.drop_last();
        assert(row_front(v) + a.0 == row_front(w) + b.0);
        if v.len() == 1 && w.len() == 1 {
            assert(row_front(v) + a.0 =~= a.0);
            assert(row_front(w) + b.0 =~= b.0);
            assert(v =~= w);
        } else if v.len() == 1 {
            assert(row_front(v) + a.0 =~= a.0);
            assert((row_front(w) + b.0)[row_front(w).len() - 1] == ' ');
            assert(a.0.contains(' '));
        } else if w.len() == 1 {
            assert(row_front(w) + b.0 =~= b.0);
            assert((row_front(v) + a.0)[row_front(v).len() - 1] == ' ');
            assert(b.0.contains(' '));
        } else {
            assert(row_front(v) + a.0 =~= counts_told(x).push(' ').push(' ') + a.0);
            assert(row_front(w) + b.0 =~= counts_told(y).push(' ').push(' ') + b.0);
            text::lemma_last_apart(counts_told(x).push(' '), a.0, counts_told(y).push(' '), b.0, ' ');
            assert(counts_told(x).push(' ').drop_last() =~= counts_told(x));
            assert(counts_told(y).push(' ').drop_last() =~= counts_told(y));
            assert forall|i: int| 0 <= i < x.len() implies !(#[trigger] x[i]).0.contains(' ') by {
                assert(x[i] == v[i]);
            }
            assert forall|i: int| 0 <= i < y.len() implies !(#[trigger] y[i]).0.contains(' ') by {
                assert(y[i] == w[i]);
            }
            law_rows_tell_counts_apart(x, y);
            assert(v =~= x.push(a));
            assert(w =~= y.push(b));
        }
    }
}

/// What stands in front of the last key of a row.
spec fn row_front(v: Seq<(Seq<char>, u64)>) -> Seq<char> {
    if v.len() <= 1 {
        Seq::empty()
    } else {
        counts_told(v.drop_last()) + "  "@
    }
}

proof fn lemma_row_end(v: Seq<(Seq<char>, u64)>)
    requires
        v.len() > 0,
    ensures
        counts_told(v) == (row_front(v) + v.last().0).push(' ') + text::decimal(
            v.last().1 as nat,
        ),
        v.len() > 1 ==> row_front(v).len() > 0 && row_front(v).last() == ' ',
{
    reveal_strlit(" ");
    reveal_strlit("  ");
    let parts = Seq::new(v.len(), |i: int| v[i].0 + " "@ + text::decimal(v[i].1 as nat));
    let init = v.drop_last();
    let parts2 = Seq::new(init.len(), |i: int| init[i].0 + " "@ + text::decimal(init[i].1 as nat));
    assert(parts.drop_last() =~= parts2);
    assert(counts_told(v) =~= (row_front(v) + v.last().0).push(' ') + text::decimal(
        v.last().1 as nat,
    ));
}

/// Is this the line of a report that begins with these words?
pub open spec fn is_headed(line: OutView, words: Seq<char>) -> bool {
    line matches OutView::Text(s) && text::begins(s, words)
}

/// The lines of a report that begin with these words all say this, and there is one.
pub open spec fn section_says(lines: Seq<OutView>, words: Seq<char>, said: Seq<char>) -> bool {
    &&& exists|i: int| 0 <= i < lines.len() && #[trigger] lines[i] == OutView::Text(words + said)
    &&& forall|i: int|
        0 <= i < lines.len() && is_headed(#[trigger] lines[i], words) ==> lines[i] == OutView::Text(
            words + said,
        )
}

/// What line a report has begins with these words in none of its lines.
pub open spec fn section_missing(lines: Seq<OutView>, words: Seq<char>) -> bool {
    forall|i: int| 0 <= i < lines.len() ==> !is_headed(#[trigger] lines[i], words)
}

/// The first letter of a line of text, if it has one.
spec fn first_letter(line: OutView) -> Option<char> {
    match line {
        OutView::Text(s) => if s.len() > 0 {
            Some(s[0])
        } else {
            None
        },
        _ => None,
    }
}

proof fn lemma_headed_letter(line: OutView, words: Seq<char>)
    ensures
        is_headed(line, words) && words.len() > 0 ==> first_letter(line) == Some(words[0]),
        is_headed(line, words) && words.len() > 1 ==> line->Text_0.len() > 1 && line->Text_0[1]
            == words[1],
{
    if is_headed(line, words) {
        let s = line->Text_0;
        let t = s.take(words.len() as int);
        if words.len() > 0 {
            assert(t[0] == s[0]);
        }
        if words.len() > 1 {
            assert(t[1] == s[1]);
        }
    }
}

proof fn lemma_section_letters(
    r: ReportView,
    d: Option<DaemonStats>,
    i: Option<IndexStats>,
    snapshotted: bool,
)
    ensures
        head_lines(r).len() == 5,
        first_letter(head_lines(r)[0]) == Some('c'),
        first_letter(head_lines(r)[1]) == Some('S'),
        first_letter(head_lines(r)[2]) == Some('T'),
        first_letter(head_lines(r)[3]) == Some('P'),
        first_letter(head_lines(r)[4]) == Some('W'),
        head_lines(r)[2]->Text_0.len() > 1 && head_lines(r)[2]->Text_0[1] == 'y',
        throughput_told(r.throughput).len() > 1 && throughput_told(r.throughput)[0] == 'T'
            && throughput_told(r.throughput)[1] == 'h',
        forall|k: int|
            0 <= k < people_lines(r).len() ==> (first_letter(#[trigger] people_lines(r)[k]) == Some(
                'A',
            ) || first_letter(people_lines(r)[k]) == Some('L')),
        forall|k: int|
            0 <= k < epic_lines(r.epics).len() ==> (first_letter(#[trigger] epic_lines(r.epics)[k])
                == Some('\n') || first_letter(epic_lines(r.epics)[k]) == Some(' ')),
        tail_lines(d, i, snapshotted).len() >= 3,
        first_letter(tail_lines(d, i, snapshotted)[0]) is None,
        first_letter(tail_lines(d, i, snapshotted)[1]) == Some('D'),
        first_letter(tail_lines(d, i, snapshotted)[2]) == Some('I'),
        forall|k: int|
            3 <= k < tail_lines(d, i, snapshotted).len() ==> first_letter(
                #[trigger] tail_lines(d, i, snapshotted)[k],
            ) == Some('\n'),
{
    reveal_strlit("clove stats — ");
    reveal_strlit("Status     ");
    reveal_strlit("Type       ");
    reveal_strlit("Priority   ");
    reveal_strlit("Workflow   ");
    reveal_strlit("Assignees  ");
    reveal_strlit("Labels     ");
    reveal_strlit("Throughput created 7d ");
    reveal_strlit("\nEpics");
    reveal_strlit("  ");
    reveal_strlit("");
    reveal_strlit("Daemon     not running");
    reveal_strlit("Daemon     running  uptime ");
    reveal_strlit("Index      not present");
    reveal_strlit("Index      present  items ");
    reveal_strlit("\nsnapshot recorded to the index history (.clove/index.db)");
    let e = epic_lines(r.epics);
    assert forall|k: int| 0 <= k < e.len() implies (first_letter(#[trigger] e[k]) == Some('\n')
        || first_letter(e[k]) == Some(' ')) by {
        if k > 0 {
            assert(e[k] == OutView::Text(epic_told(r.epics[k - 1])));
            assert(epic_told(r.epics[k - 1])[0] == ' ');
        }
    }
    let p = people_lines(r);
    assert forall|k: int| 0 <= k < p.len() implies (first_letter(#[trigger] p[k]) == Some('A')
        || first_letter(p[k]) == Some('L')) by {
        assert(k == 0 || k == 1);
    }
}

proof fn lemma_lines_are_these(
    r: ReportView,
    d: Option<DaemonStats>,
    i: Option<IndexStats>,
    snapshotted: bool,
    k: int,
)
    requires
        0 <= k < human_lines(r, d, i, snapshotted).len(),
    ensures
        ({
            let line = human_lines(r, d, i, snapshotted)[k];
            ||| k < 5 && line == head_lines(r)[k]
            ||| exists|j: int| 0 <= j < people_lines(r).len() && line == #[trigger] people_lines(r)[j]
            ||| line == OutView::Text(throughput_told(r.throughput))
            ||| exists|j: int|
                0 <= j < epic_lines(r.epics).len() && line == #[trigger] epic_lines(r.epics)[j]
            ||| exists|j: int|
                0 <= j < tail_lines(d, i, snapshotted).len() && line == #[trigger] tail_lines(
                    d,
                    i,
                    snapshotted,
                )[j]
        }),
{
    let a = head_lines(r);
    let b = people_lines(r);
    let c = seq![OutView::Text(throughput_told(r.throughput))];
    let e = epic_lines(r.epics);
    let f = tail_lines(d, i, snapshotted);
    let line = human_lines(r, d, i, snapshotted)[k];
    assert(a.len() == 5);
    if k < 5 {
    } else if k < 5 + b.len() {
        assert(line == b[k - 5]);
    } else if k < 6 + b.len() {
    } else if k < 6 + b.len() + e.len() {
        assert(line == e[k - 6 - b.len()]);
    } else {
        assert(line == f[k - 6 - b.len() - e.len()]);
    }
}

/// The line of the labels shows the labels of the report with their counts, in the report's
/// order, and nothing else of it; a report without labels has no such line. The same of the
/// people, behind whom those items are counted that nobody has.
pub proof fn law_labels_and_people_have_their_own_lines(
    r: ReportView,
    d: Option<DaemonStats>,
    i: Option<IndexStats>,
    snapshotted: bool,
)
    ensures
        ({
            let lines = human_lines(r, d, i, snapshotted);
            &&& r.by_label.len() > 0 ==> section_says(lines, "Labels     "@, counts_told(r.by_label))
            &&& r.by_label.len() == 0 ==> section_missing(lines, "Labels"@)
            &&& r.by_assignee.len() > 0 || r.unassigned > 0 ==> section_says(
                lines,
                "Assignees  "@,
                counts_told(r.by_assignee.push(("unassigned"@, r.unassigned))),
            )
            &&& r.by_assignee.len() == 0 && r.unassigned == 0 ==> section_missing(
                lines,
                "Assignees"@,
            )
        }),
{
    let lines = human_lines(r, d, i, snapshotted);
    let p = people_lines(r);
    reveal_strlit("Labels     ");
    reveal_strlit("Assignees  ");
    reveal_strlit("Labels");
    reveal_strlit("Assignees");
    lemma_section_letters(r, d, i, snapshotted);
    let labels = OutView::Text("Labels     "@ + counts_told(r.by_label));
    let people = OutView::Text(
        "Assignees  "@ + counts_told(r.by_assignee.push(("unassigned"@, r.unassigned))),
    );
    assert forall|j: int| 0 <= j < p.len() && first_letter(#[trigger] p[j]) == Some('L') implies p[j]
        == labels && r.by_label.len() > 0 by {
        assert(people->Text_0[0] == 'A');
        assert(j == 0 || j == 1);
    }
    assert forall|j: int| 0 <= j < p.len() && first_letter(#[trigger] p[j]) == Some('A') implies p[j]
        == people && (r.by_assignee.len() > 0 || r.unassigned > 0) by {
        assert(labels->Text_0[0] == 'L');
        assert(j == 0 || j == 1);
    }
    if r.by_label.len() > 0 {
        let at = p.len() - 1;
        assert(p[at] == labels);
        assert(lines[5 + at] == labels);
    }
    if r.by_assignee.len() > 0 || r.unassigned > 0 {
        assert(p[0] == people);
        assert(lines[5] == people);
    }
    assert forall|k: int| 0 <= k < lines.len() implies (first_letter(#[trigger] lines[k]) == Some(
        'L',
    ) ==> lines[k] == labels && r.by_label.len() > 0) && (first_letter(lines[k]) == Some('A')
        ==> lines[k] == people && (r.by_assignee.len() > 0 || r.unassigned > 0)) by {
        lemma_lines_are_these(r, d, i, snapshotted, k);
        assert(k < 5 ==> k == 0 || k == 1 || k == 2 || k == 3 || k == 4);
        if exists|j: int|
            0 <= j < tail_lines(d, i, snapshotted).len() && lines[k] == #[trigger] tail_lines(
                d,
                i,
                snapshotted,
            )[j] {
            let j = choose|j: int|
                0 <= j < tail_lines(d, i, snapshotted).len() && lines[k] == #[trigger] tail_lines(
                    d,
                    i,
                    snapshotted,
                )[j];
            assert(j == 0 || j == 1 || j == 2 || j >= 3);
        }
    }
    assert forall|k: int| 0 <= k < lines.len() && (is_headed(#[trigger] lines[k], "Labels     "@)
        || is_headed(lines[k], "Labels"@)) implies first_letter(lines[k]) == Some('L') by {
        lemma_headed_letter(lines[k], "Labels     "@);
        lemma_headed_letter(lines[k], "Labels"@);
    }
    assert forall|k: int| 0 <= k < lines.len() && (is_headed(#[trigger] lines[k], "Assignees  "@)
        || is_headed(lines[k], "Assignees"@)) implies first_letter(lines[k]) == Some('A') by {
        lemma_headed_letter(lines[k], "Assignees  "@);
        lemma_headed_letter(lines[k], "Assignees"@);
    }
}

/// Two reports with the same labels have the same line on them, whatever else they say; two
/// with different labels have not. Labels have no blanks in them.
pub proof fn law_the_labels_line_depends_on_the_labels_alone(
    r: ReportView,
    q: ReportView,
    d: Option<DaemonStats>,
    i: Option<IndexStats>,
    snapshotted: bool,
    k: int,
    m: int,
)
    requires
        keys_without_blanks(r.by_label),
        keys_without_blanks(q.by_label),
        0 <= k < human_lines(r, d, i, snapshotted).len(),
        0 <= m < human_lines(q, d, i, snapshotted).len(),
        is_headed(human_lines(r, d, i, snapshotted)[k], "Labels"@),
        is_headed(human_lines(q, d, i, snapshotted)[m], "Labels"@),
    ensures
        human_lines(r, d, i, snapshotted)[k] == human_lines(q, d, i, snapshotted)[m] <==> r.by_label
            == q.by_label,
{
    law_labels_and_people_have_their_own_lines(r, d, i, snapshotted);
    law_labels_and_people_have_their_own_lines(q, d, i, snapshotted);
    lemma_labels_line(r, d, i, snapshotted, k);
    lemma_labels_line(q, d, i, snapshotted, m);
    let a = "Labels     "@ + counts_told(r.by_label);
    let b = "Labels     "@ + counts_told(q.by_label);
    if a == b {
        let n = "Labels     "@.len() as int;
        assert(a.skip(n) =~= counts_told(r.by_label));
        assert(b.skip(n) =~= counts_told(q.by_label));
        law_rows_tell_counts_apart(r.by_label, q.by_label);
    }
}

proof fn lemma_labels_line(
    r: ReportView,
    d: Option<DaemonStats>,
    i: Option<IndexStats>,
    snapshotted: bool,
    k: int,
)
    requires
        0 <= k < human_lines(r, d, i, snapshotted).len(),
        is_headed(human_lines(r, d, i, snapshotted)[k], "Labels"@),
    ensures
        human_lines(r, d, i, snapshotted)[k] == OutView::Text(
            "Labels     "@ + counts_told(r.by_label),
        ),
{
    let lines = human_lines(r, d, i, snapshotted);
    reveal_strlit("Labels     ");
    reveal_strlit("Labels");
    law_labels_and_people_have_their_own_lines(r, d, i, snapshotted);
    lemma_section_letters(r, d, i, snapshotted);
    lemma_lines_are_these(r, d, i, snapshotted, k);
    lemma_headed_letter(lines[k], "Labels"@);
    assert(k < 5 ==> k == 0 || k == 1 || k == 2 || k == 3 || k == 4);
    if exists|j: int| 0 <= j < people_lines(r).len() && lines[k] == #[trigger] people_lines(r)[j] {
        let j = choose|j: int|
            0 <= j < people_lines(r).len() && lines[k] == #[trigger] people_lines(r)[j];
        assert(j == 0 || j == 1);
        reveal_strlit("Assignees  ");
    } else if exists|j: int|
        0 <= j < tail_lines(d, i, snapshotted).len() && lines[k] == #[trigger] tail_lines(
            d,
            i,
            snapshotted,
        )[j] {
        let j = choose|j: int|
            0 <= j < tail_lines(d, i, snapshotted).len() && lines[k] == #[trigger] tail_lines(
                d,
                i,
                snapshotted,
            )[j];
        assert(j == 0 || j == 1 || j == 2 || j >= 3);
    }
}

proof fn lemma_sections(
    r: ReportView,
    d: Option<DaemonStats>,
    i: Option<IndexStats>,
    snapshotted: bool,
    k: int,
)
    requires
        0 <= k < human_lines(r, d, i, snapshotted).len(),
    ensures
        ({
            let line = human_lines(r, d, i, snapshotted)[k];
            &&& first_letter(line) == Some('S') ==> line == head_lines(r)[1]
            &&& first_letter(line) == Some('P') ==> line == head_lines(r)[3]
            &&& first_letter(line) == Some('W') ==> line == head_lines(r)[4]
            &&& first_letter(line) == Some('c') ==> line == head_lines(r)[0]
            &&& first_letter(line) == Some('T') ==> line == head_lines(r)[2] || line
                == OutView::Text(throughput_told(r.throughput))
            &&& first_letter(line) == Some('D') ==> line == tail_lines(d, i, snapshotted)[1]
            &&& first_letter(line) == Some('I') ==> line == tail_lines(d, i, snapshotted)[2]
        }),
{
    lemma_section_letters(r, d, i, snapshotted);
    lemma_lines_are_these(r, d, i, snapshotted, k);
    let line = human_lines(r, d, i, snapshotted)[k];
    assert(k < 5 ==> k == 0 || k == 1 || k == 2 || k == 3 || k == 4);
    if exists|j: int|
        0 <= j < tail_lines(d, i, snapshotted).len() && line == #[trigger] tail_lines(
            d,
            i,
            snapshotted,
        )[j] {
        let j = choose|j: int|
            0 <= j < tail_lines(d, i, snapshotted).len() && line == #[trigger] tail_lines(
                d,
                i,
                snapshotted,
            )[j];
        assert(j == 0 || j == 1 || j == 2 || j >= 3);
    }
}

/// Does the line that begins with these words show a number behind a name?
pub open spec fn shows(lines: Seq<OutView>, words: Seq<char>, name: Seq<char>, n: u64) -> bool {
    &&& exists|i: int| 0 <= i < lines.len() && is_headed(#[trigger] lines[i], words)
    &&& forall|i: int|
        0 <= i < lines.len() && is_headed(#[trigger] lines[i], words) ==> text::occurs(
            lines[i]->Text_0,
            name + " "@ + text::decimal(n as nat),
        )
}

proof fn lemma_row_shown(
    lines: Seq<OutView>,
    words: Seq<char>,
    front: Seq<char>,
    row: Seq<(Seq<char>, u64)>,
    at: int,
)
    requires
        0 <= at < lines.len(),
        lines[at] == OutView::Text(front + counts_told(row)),
        text::begins(front, words),
        forall|k: int|
            0 <= k < lines.len() && is_headed(#[trigger] lines[k], words) ==> lines[k] == lines[at],
    ensures
        forall|j: int|
            0 <= j < row.len() ==> shows(lines, words, (#[trigger] row[j]).0, row[j].1),
{
    let s = front + counts_told(row);
    assert(s.take(words.len() as int) =~= front.take(words.len() as int));
    assert(is_headed(lines[at], words));
    assert forall|j: int| 0 <= j < row.len() implies shows(
        lines,
        words,
        (#[trigger] row[j]).0,
        row[j].1,
    ) by {
        law_a_row_shows_each_count(row, j);
        text::lemma_occurs_in_back(
            front,
            counts_told(row),
            row[j].0 + " "@ + text::decimal(row[j].1 as nat),
        );
    }
}

/// A report shows the number of items with each status, each type and each priority behind
/// its name, and the numbers of the workflow behind theirs.
pub proof fn law_a_report_shows_each_number_behind_its_name(
    r: ReportView,
    d: Option<DaemonStats>,
    i: Option<IndexStats>,
    snapshotted: bool,
)
    ensures
        ({
            let lines = human_lines(r, d, i, snapshotted);
            &&& shows(lines, "Status"@, "open"@, r.by_status.open)
            &&& shows(lines, "Status"@, "in_progress"@, r.by_status.in_progress)
            &&& shows(lines, "Status"@, "closed"@, r.by_status.closed)
            &&& shows(lines, "Type"@, "bug"@, r.by_type.bug)
            &&& shows(lines, "Type"@, "feature"@, r.by_type.feature)
            &&& shows(lines, "Type"@, "chore"@, r.by_type.chore)
            &&& shows(lines, "Type"@, "docs"@, r.by_type.docs)
            &&& shows(lines, "Type"@, "epic"@, r.by_type.epic)
            &&& shows(lines, "Priority"@, "p0"@, r.by_priority.p0)
            &&& shows(lines, "Priority"@, "p1"@, r.by_priority.p1)
            &&& shows(lines, "Priority"@, "p2"@, r.by_priority.p2)
            &&& shows(lines, "Priority"@, "p3"@, r.by_priority.p3)
            &&& shows(lines, "Priority"@, "p4"@, r.by_priority.p4)
            &&& shows(lines, "Workflow"@, "ready"@, r.ready)
            &&& shows(lines, "Workflow"@, "blocked"@, r.blocked)
            &&& shows(lines, "Workflow"@, "excluded"@, r.excluded)
            &&& shows(lines, "Workflow"@, "dangling"@, r.dangling)
            &&& shows(lines, "Workflow"@, "cycles"@, r.cycles)
        }),
{
    let lines = human_lines(r, d, i, snapshotted);
    lemma_section_letters(r, d, i, snapshotted);
    assert(lines[1] == head_lines(r)[1] && lines[2] == head_lines(r)[2] && lines[3] == head_lines(
        r,
    )[3] && lines[4] == head_lines(r)[4]);
    reveal_strlit("Status");
    reveal_strlit("Status     ");
    assert("Status     "@.take(6) =~= "Status"@);
    assert forall|k: int| 0 <= k < lines.len() && is_headed(
        #[trigger] lines[k],
        "Status"@,
    ) implies lines[k] == lines[1] by {
        lemma_headed_letter(lines[k], "Status"@);
        lemma_sections(r, d, i, snapshotted, k);
    }
    let row1 = status_row(r.by_status);
    lemma_row_shown(lines, "Status"@, "Status     "@, row1, 1);
    assert(row1[0] == ("open"@, r.by_status.open) && row1[1] == ("in_progress"@, r.by_status.in_progress) && row1[2] == ("closed"@, r.by_status.closed));
    reveal_strlit("Type");
    reveal_strlit("Type       ");
    assert("Type       "@.take(4) =~= "Type"@);
    assert forall|k: int| 0 <= k < lines.len() && is_headed(
        #[trigger] lines[k],
        "Type"@,
    ) implies lines[k] == lines[2] by {
        lemma_headed_letter(lines[k], "Type"@);
        lemma_sections(r, d, i, snapshotted, k);
    }
    let row2 = type_row(r.by_type);
    lemma_row_shown(lines, "Type"@, "Type       "@, row2, 2);
    assert(row2[0] == ("bug"@, r.by_type.bug) && row2[1] == ("feature"@, r.by_type.feature) && row2[2] == ("chore"@, r.by_type.chore) && row2[3] == ("docs"@, r.by_type.docs) && row2[4] == ("epic"@, r.by_type.epic));
    reveal_strlit("Priority");
    reveal_strlit("Priority   ");
    assert("Priority   "@.take(8) =~= "Priority"@);
    assert forall|k: int| 0 <= k < lines.len() && is_headed(
        #[trigger] lines[k],
        "Priority"@,
    ) implies lines[k] == lines[3] by {
        lemma_headed_letter(lines[k], "Priority"@);
        lemma_sections(r, d, i, snapshotted, k);
    }
    let row3 = priority_row(r.by_priority);
    lemma_row_shown(lines, "Priority"@, "Priority   "@, row3, 3);
    assert(row3[0] == ("p0"@, r.by_priority.p0) && row3[1] == ("p1"@, r.by_priority.p1) && row3[2] == ("p2"@, r.by_priority.p2) && row3[3] == ("p3"@, r.by_priority.p3) && row3[4] == ("p4"@, r.by_priority.p4));
    reveal_strlit("Workflow");
    reveal_strlit("Workflow   ");
    assert("Workflow   "@.take(8) =~= "Workflow"@);
    assert forall|k: int| 0 <= k < lines.len() && is_headed(
        #[trigger] lines[k],
        "Workflow"@,
    ) implies lines[k] == lines[4] by {
        lemma_headed_letter(lines[k], "Workflow"@);
        lemma_sections(r, d, i, snapshotted, k);
    }
    let row4 = workflow_row(r);
    lemma_row_shown(lines, "Workflow"@, "Workflow   "@, row4, 4);
    assert(row4[0] == ("ready"@, r.ready) && row4[1] == ("blocked"@, r.blocked) && row4[2] == ("excluded"@, r.excluded) && row4[3] == ("dangling"@, r.dangling) && row4[4] == ("cycles"@, r.cycles));
}

/// The first line of a report shows how many items there are.
pub proof fn law_a_report_begins_with_its_total(
    r: ReportView,
    d: Option<DaemonStats>,
    i: Option<IndexStats>,
    snapshotted: bool,
)
    ensures
        human_lines(r, d, i, snapshotted)[0] matches OutView::Text(s) && text::occurs(
            s,
            text::decimal(r.total as nat) + " items"@,
        ),
{
    reveal_strlit(" items\n");
    reveal_strlit(" items");
    let n = text::decimal(r.total as nat);
    let front = "clove stats — "@;
    assert(human_lines(r, d, i, snapshotted)[0] == head_lines(r)[0]);
    assert(front + n + " items\n"@ =~= front + (n + " items"@) + seq!['\n']);
    text::lemma_occurs_between(front, n + " items"@, seq!['\n']);
}

/// The line on the throughput shows what was made and then what was closed, of the last seven
/// days, of the last thirty, and of all.
pub proof fn law_the_throughput_line_shows_both_kinds(
    r: ReportView,
    d: Option<DaemonStats>,
    i: Option<IndexStats>,
    snapshotted: bool,
)
    ensures
        ({
            let t = r.throughput;
            exists|k: int|
                0 <= k < human_lines(r, d, i, snapshotted).len() && {
                    &&& #[trigger] human_lines(r, d, i, snapshotted)[k] matches OutView::Text(s)
                    &&& text::begins(
                        s,
                        "Throughput created 7d "@ + text::decimal(t.created_7d as nat) + " / 30d "@
                            + text::decimal(t.created_30d as nat) + " / all "@ + text::decimal(
                            t.created_total as nat,
                        ) + "    closed 7d "@,
                    )
                    &&& text::ends(
                        s,
                        "    closed 7d "@ + text::decimal(t.closed_7d as nat) + " / 30d "@
                            + text::decimal(t.closed_30d as nat) + " / all "@ + text::decimal(
                            t.closed_total as nat,
                        ),
                    )
                }
        }),
{
    let t = r.throughput;
    let made = "Throughput created 7d "@ + text::decimal(t.created_7d as nat) + " / 30d "@
        + text::decimal(t.created_30d as nat) + " / all "@ + text::decimal(t.created_total as nat);
    let closed = text::decimal(t.closed_7d as nat) + " / 30d "@ + text::decimal(
        t.closed_30d as nat,
    ) + " / all "@ + text::decimal(t.closed_total as nat);
    let mid = "    closed 7d "@;
    let s = throughput_told(t);
    assert(s =~= made + mid + closed);
    assert(s.take((made + mid).len() as int) =~= made + mid);
    let told = mid + text::decimal(t.closed_7d as nat) + " / 30d "@ + text::decimal(
        t.closed_30d as nat,
    ) + " / all "@ + text::decimal(t.closed_total as nat);
    assert(told =~= mid + closed);
    assert(s.skip(s.len() - told.len()) =~= told);
    let k = 5 + people_lines(r).len();
    assert(human_lines(r, d, i, snapshotted)[k as int] == OutView::Text(s));
}

/// Every epic has a line of its own, with its id and its title, how many of its items are
/// closed of how many, the share of that, and a mark if, and only if, it can be closed.
pub proof fn law_every_epic_has_its_line(epics: Seq<EpicView>, k: int)
    requires
        0 <= k < epics.len(),
    ensures
        epic_lines(epics).len() == epics.len() + 1,
        ({
            let e = epics[k];
            &&& epic_lines(epics)[k + 1] matches OutView::Text(s)
            &&& text::begins(s, "  "@ + e.id)
            &&& text::occurs(s, e.title)
            &&& text::occurs(
                s,
                " "@ + text::decimal(e.closed as nat) + "/"@ + text::decimal(e.total as nat)
                    + "  "@ + text::decimal(e.pct as nat) + "%"@,
            )
            &&& text::ends(s, "✓"@) <==> e.completable
        }),
{
    let e = epics[k];
    let s = epic_told(e);
    let mark = if e.completable {
        " ✓"@
    } else {
        Seq::empty()
    };
    let a = "  "@ + text::padded(e.id, 14) + " "@ + text::padded(e.title, 24);
    let b = " "@ + text::decimal(e.closed as nat) + "/"@ + text::decimal(e.total as nat) + "  "@
        + text::decimal(e.pct as nat) + "%"@;
    assert(s =~= a + b + mark);
    text::lemma_occurs_between(a, b, mark);
    let front = "  "@ + text::padded(e.id, 14) + " "@;
    let rest = text::blanks(24 - e.title.len()) + b + mark;
    assert(s =~= front + e.title + rest);
    text::lemma_occurs_between(front, e.title, rest);
    assert(s.take(("  "@ + e.id).len() as int) =~= "  "@ + e.id);
    reveal_strlit(" ✓");
    reveal_strlit("✓");
    reveal_strlit("%");
    if e.completable {
        assert(s.skip(s.len() - 1) =~= "✓"@);
    } else {
        assert(s.last() == '%');
        if text::ends(s, "✓"@) {
            assert(s.skip(s.len() - 1)[0] == '✓');
        }
    }
}

/// Telemetry says that there is a daemon, and an index, if, and only if, there is one, with
/// what each says of itself.
pub proof fn law_telemetry_says_what_there_is(d: Option<DaemonStats>, i: Option<IndexStats>)
    ensures
        daemon_object(d).member("running"@) == Some(JsonView::Bool(d is Some)),
        index_object(i).member("present"@) == Some(JsonView::Bool(i is Some)),
        d matches Some(s) ==> {
            &&& daemon_object(d).member("uptime_s"@) == Some(num(s.uptime_s as int))
            &&& daemon_object(d).member("items_indexed"@) == Some(num(s.items_indexed as int))
            &&& daemon_object(d).member("watcher_state"@) == Some(JsonView::Text(s.watcher_state@))
            &&& daemon_object(d).member("last_event_ms"@) == Some(num_or_null(s.last_event_ms))
            &&& daemon_object(d).member("batches_applied"@) == Some(num(s.batches_applied as int))
        },
        i matches Some(s) ==> {
            &&& index_object(i).member("items_indexed"@) == Some(num(s.items_indexed as int))
            &&& index_object(i).member("schema_version"@) == Some(num(s.schema_version as int))
            &&& index_object(i).member("stale"@) == Some(JsonView::Bool(s.stale))
        },
{
    if let Some(s) = d {
        reveal_strlit("running");
        reveal_strlit("uptime_s");
        reveal_strlit("items_indexed");
        reveal_strlit("watcher_state");
        reveal_strlit("last_event_ms");
        reveal_strlit("batches_applied");
        let p = seq![
            ("running"@, JsonView::Bool(true)),
            ("uptime_s"@, num(s.uptime_s as int)),
            ("items_indexed"@, num(s.items_indexed as int)),
            ("watcher_state"@, JsonView::Text(s.watcher_state@)),
            ("last_event_ms"@, num_or_null(s.last_event_ms)),
            ("batches_applied"@, num(s.batches_applied as int)),
        ];
        assert(daemon_object(d) == obj(p));
        assert(p[0].0 == "running"@ && p[1].0 == "uptime_s"@ && p[2].0 == "items_indexed"@ && p[3].0 == "watcher_state"@ && p[4].0 == "last_event_ms"@ && p[5].0 == "batches_applied"@);
        assert("items_indexed"@[0] != "watcher_state"@[0]);
        assert("items_indexed"@[0] != "last_event_ms"@[0]);
        assert("watcher_state"@[0] != "last_event_ms"@[0]);
        assert forall|i: int, j: int| 0 <= i < j < p.len() implies (#[trigger] p[i]).0 != (
        #[trigger] p[j]).0 by {
            assert(i == 0 || i == 1 || i == 2 || i == 3 || i == 4);
            assert(j == 1 || j == 2 || j == 3 || j == 4 || j == 5);
        }
        law_distinct_pairs_are_members(p);
    } else {
        reveal_strlit("running");
        let p = seq![
            ("running"@, JsonView::Bool(false)),
        ];
        assert(daemon_object(d) == obj(p));
        assert(p[0].0 == "running"@);
        law_distinct_pairs_are_members(p);
    }
    if let Some(s) = i {
        reveal_strlit("present");
        reveal_strlit("items_indexed");
        reveal_strlit("schema_version");
        reveal_strlit("stale");
        let q = seq![
            ("present"@, JsonView::Bool(true)),
            ("items_indexed"@, num(s.items_indexed as int)),
            ("schema_version"@, num(s.schema_version as int)),
            ("stale"@, JsonView::Bool(s.stale)),
        ];
        assert(index_object(i) == obj(q));
        assert(q[0].0 == "present"@ && q[1].0 == "items_indexed"@ && q[2].0 == "schema_version"@ && q[3].0 == "stale"@);
        law_distinct_pairs_are_members(q);
    } else {
        reveal_strlit("present");
        let q = seq![
            ("present"@, JsonView::Bool(false)),
        ];
        assert(index_object(i) == obj(q));
        assert(q[0].0 == "present"@);
        law_distinct_pairs_are_members(q);
    }
}

/// A live report in JSON keeps every entry of the report, adds the telemetry, and says when
/// it was made and whether it was recorded.
pub proof fn law_a_report_in_json_keeps_its_entries(
    r: ReportView,
    e: Seq<(Seq<char>, JsonView)>,
    d: Option<DaemonStats>,
    i: Option<IndexStats>,
    generated_at: Seq<char>,
    snapshotted: bool,
    key: Seq<char>,
)
    requires
        key != "daemon"@,
        key != "index"@,
    ensures
        stats_output(OutputFormat::Json, r, e, d, i, generated_at, snapshotted).len() == 1,
        stats_output(OutputFormat::Json, r, e, d, i, generated_at, snapshotted)[0] matches OutView::Json(
            v,
        ) && {
            &&& v.member("data"@) matches Some(data) && data.member(key) == lookup(e, key)
                && data.member("daemon"@) == Some(daemon_object(d)) && data.member("index"@)
                == Some(index_object(i))
            &&& v.member("_meta"@) matches Some(m) && m.member("generated_at"@) == Some(
                JsonView::Text(generated_at),
            ) && m.member("snapshotted"@) == Some(JsonView::Bool(snapshotted))
        },
{
    reveal_strlit("daemon");
    reveal_strlit("index");
    assert("daemon"@.len() != "index"@.len());
    let one = put(e, "daemon"@, daemon_object(d));
    law_put_then_lookup(e, "daemon"@, daemon_object(d), key);
    law_put_then_lookup(one, "index"@, index_object(i), key);
    law_put_then_lookup(one, "index"@, index_object(i), "daemon"@);
    let meta = obj(
        seq![
            ("source"@, JsonView::Text("files"@)),
            ("generated_at"@, JsonView::Text(generated_at)),
            ("snapshotted"@, JsonView::Bool(snapshotted)),
        ],
    );
    law_a_success_carries_its_data(JsonView::Object(report_entries(e, d, i)), meta);
    reveal_strlit("source");
    reveal_strlit("generated_at");
    reveal_strlit("snapshotted");
    let p = seq![
        ("source"@, JsonView::Text("files"@)),
        ("generated_at"@, JsonView::Text(generated_at)),
        ("snapshotted"@, JsonView::Bool(snapshotted)),
    ];
    assert(meta == obj(p));
    assert(p[0].0 == "source"@ && p[1].0 == "generated_at"@ && p[2].0 == "snapshotted"@);
    law_distinct_pairs_are_members(p);
}

/// The history holds the recorded reports from a moment on, all of them and in their order;
/// each is shown with when it was recorded.
pub proof fn law_history_is_from_the_moment_on(all: Seq<SnapshotView>, since: Option<i64>)
    ensures
        forall|k: int|
            0 <= k < all.len() && (since is None || (#[trigger] all[k]).moment >= since->0)
                ==> recorded_since(all, since).contains(all[k]),
        forall|k: int|
            0 <= k < recorded_since(all, since).len() ==> all.contains(
                #[trigger] recorded_since(all, since)[k],
            ) && (since is None || recorded_since(all, since)[k].moment >= since->0),
        since is None ==> recorded_since(all, since) == all,
    decreases all.len(),
{
    if all.len() > 0 {
        let init = all.drop_last();
        law_history_is_from_the_moment_on(init, since);
        let rest = recorded_since(init, since);
        let kept = recorded_since(all, since);
        assert forall|k: int|
            0 <= k < all.len() && (since is None || (#[trigger] all[k]).moment
                >= since->0) implies kept.contains(all[k]) by {
            if k < init.len() {
                assert(init[k] == all[k]);
                let j = choose|j: int| 0 <= j < rest.len() && rest[j] == all[k];
                assert(kept[j] == all[k]);
            } else {
                assert(kept[kept.len() - 1] == all[k]);
            }
        }
        assert forall|k: int| 0 <= k < kept.len() implies all.contains(#[trigger] kept[k]) && (since
            is None || kept[k].moment >= since->0) by {
            if k < rest.len() {
                assert(kept[k] == rest[k]);
                let j = choose|j: int| 0 <= j < init.len() && init[j] == rest[k];
                assert(all[j] == kept[k]);
            } else {
                assert(all[all.len() - 1] == kept[k]);
            }
        }
        if since is None {
            assert(kept =~= all);
        }
    } else {
        assert(recorded_since(all, since) =~= all);
    }
}

/// A window of the history is a part of it: what lies behind the offset, no more than the
/// limit.
pub proof fn law_a_window_is_a_part_of_the_history(
    all: Seq<SnapshotView>,
    since: Option<i64>,
    limit: Option<usize>,
    offset: Option<usize>,
    k: int,
)
    requires
        0 <= k < history_part(all, since, limit, offset).len(),
    ensures
        history_part(all, since, limit, offset)[k] == recorded_since(all, since)[k + (
        if offset is Some {
            offset->0 as int
        } else {
            0
        })],
        limit matches Some(n) && n > 0 ==> history_part(all, since, limit, offset).len() <= limit->0,
        limit is None ==> history_part(all, since, limit, offset).len() <= 100,
{
}

proof fn lemma_snapshot_line(s: SnapshotView)
    ensures
        text::begins(snapshot_told(s), s.captured_at),
        ({
            let r = s.report;
            text::ends(
                snapshot_told(s),
                column(r.total, 5) + "  "@ + column(r.by_status.open, 4) + "  "@ + column(
                    r.by_status.in_progress,
                    7,
                ) + "  "@ + column(r.by_status.closed, 6) + "  "@ + column(r.ready, 5) + "  "@
                    + column(r.blocked, 7) + "  "@ + column(r.cycles, 6),
            )
        }),
{
    let r = s.report;
    let back = column(r.total, 5) + "  "@ + column(r.by_status.open, 4) + "  "@ + column(
        r.by_status.in_progress,
        7,
    ) + "  "@ + column(r.by_status.closed, 6) + "  "@ + column(r.ready, 5) + "  "@ + column(
        r.blocked,
        7,
    ) + "  "@ + column(r.cycles, 6);
    let front = text::padded(s.captured_at, 24) + " "@;
    let line = snapshot_told(s);
    assert(line =~= front + back);
    assert(line.take(s.captured_at.len() as int) =~= s.captured_at);
    assert(line.skip(line.len() - back.len()) =~= back);
}

/// The history in JSON has an entry for each report, in order, with when it was recorded and
/// what it said; for people it has a line for each, with its own numbers.
pub proof fn law_history_shows_each_report(all: Seq<SnapshotView>, k: int)
    requires
        0 <= k < all.len(),
    ensures
        history_output(OutputFormat::Json, Some(all))[0] matches OutView::Json(v) && {
            &&& v.member("data"@) matches Some(JsonView::Array(items)) && items.len() == all.len()
                && items[k].member("captured_at"@) == Some(JsonView::Text(all[k].captured_at))
                && items[k].member("stats"@) == Some(all[k].stats)
            &&& v.member("_meta"@) matches Some(m) && m.member("total"@) == Some(
                num(all.len() as int),
            )
        },
        history_output(OutputFormat::Human, Some(all)).len() == all.len() + 1,
        history_output(OutputFormat::Human, Some(all))[k + 1] matches OutView::Text(s) && {
            let r = all[k].report;
            &&& text::begins(s, all[k].captured_at)
            &&& text::ends(
                s,
                column(r.total, 5) + "  "@ + column(r.by_status.open, 4) + "  "@ + column(
                    r.by_status.in_progress,
                    7,
                ) + "  "@ + column(r.by_status.closed, 6) + "  "@ + column(r.ready, 5) + "  "@
                    + column(r.blocked, 7) + "  "@ + column(r.cycles, 6),
            )
        },
{
    let s = all[k];
    let data = JsonView::Array(Seq::new(all.len(), |i: int| snapshot_object(all[i])));
    let meta = obj(
        seq![("total"@, num(all.len() as int)), ("source"@, JsonView::Text("index"@))],
    );
    law_a_success_carries_its_data(data, meta);
    reveal_strlit("captured_at");
    reveal_strlit("stats");
    let p = seq![
        ("captured_at"@, JsonView::Text(s.captured_at)),
        ("stats"@, s.stats),
    ];
    assert(snapshot_object(s) == obj(p));
    assert(p[0].0 == "captured_at"@ && p[1].0 == "stats"@);
    law_distinct_pairs_are_members(p);
    reveal_strlit("total");
    reveal_strlit("source");
    let q = seq![
        ("total"@, num(all.len() as int)),
        ("source"@, JsonView::Text("index"@)),
    ];
    assert(meta == obj(q));
    assert(q[0].0 == "total"@ && q[1].0 == "source"@);
    law_distinct_pairs_are_members(q);
    lemma_snapshot_line(s);
}

} // verus!
