//! `clove doctor`: the findings on the store, the index and the daemon, and what is
//! repaired of them.

use vstd::prelude::*;

use crate::exit::ExitCode;
use crate::json::{
    law_distinct_pairs_are_members, num, number, obj, object, string, string_or_null, text_or_null,
    Json, JsonView,
};
use crate::output::{
    law_a_success_carries_its_data, meta_without_warnings, pairs, success, success_envelope,
    warnings_meta, Out, OutView, OutputFormat,
};
use crate::registry::install::borrowed;
use crate::text;

verus! {

/// How bad a finding is.
#[derive(Debug, Clone, Copy, PartialEq, Eq, Structural)]
pub enum Severity {
    Error,
    Warning,
}

impl Severity {
    /// The word for a severity.
    pub open spec fn word(self) -> Seq<char> {
        match self {
            Severity::Error => "error"@,
            Severity::Warning => "warning"@,
        }
    }

    pub fn as_str(self) -> (r: &'static str)
        ensures
            r@ == self.word(),
    {
        match self {
            Severity::Error => "error",
            Severity::Warning => "warning",
        }
    }
}

/// A finding.
#[derive(Debug, PartialEq, Eq)]
pub struct DoctorIssue {
    pub severity: Severity,
    pub code: String,
    /// The item it is about, where it is about one.
    pub item: Option<String>,
    pub message: String,
    /// May `--fix` repair it?
    pub fixable: bool,
}

/// The model of a [`DoctorIssue`].
pub struct IssueView {
    pub severity: Severity,
    pub code: Seq<char>,
    pub item: Option<Seq<char>>,
    pub message: Seq<char>,
    pub fixable: bool,
}

impl DeepView for DoctorIssue {
    type V = IssueView;

    open spec fn deep_view(&self) -> IssueView {
        IssueView {
            severity: self.severity,
            code: self.code@,
            item: self.item.deep_view(),
            message: self.message@,
            fixable: self.fixable,
        }
    }
}

fn issue(severity: Severity, code: &str, message: String, fixable: bool) -> (r: DoctorIssue)
    ensures
        r.deep_view() == (IssueView {
            severity,
            code: code@,
            item: None,
            message: message@,
            fixable,
        }),
{
    DoctorIssue { severity, code: code.to_owned(), item: None, message, fixable }
}

// ---- The index ----------------------------------------------------------------

/// What looking at the index came to. It is opened as it is, so that a fault in it is
/// found rather than mended unseen.
#[derive(Debug, PartialEq, Eq)]
pub enum IndexState {
    /// It could be opened; what is wrong inside, if anything is, and by how many items it
    /// differs from the files.
    Opened { fault: Option<String>, changes: u64 },
    SchemaMismatch { found: u64, expected: u64 },
    Corrupt(String),
    Unreadable,
}

/// A corrupt index silently serves wrong results, so it is an error.
pub open spec fn corrupt(detail: Seq<char>) -> IssueView {
    IssueView {
        severity: Severity::Error,
        code: "INDEX_CORRUPT"@,
        item: None,
        message: "index is corrupt ("@ + detail + "); run `clove reindex`"@,
        fixable: true,
    }
}

/// The finding on the index, if there is one. A rebuild repairs each.
pub open spec fn index_finding(state: IndexState) -> Option<IssueView> {
    match state {
        IndexState::Opened { fault, changes } => match fault {
            Some(reason) => Some(corrupt(reason@)),
            None => if changes == 0 {
                None
            } else {
                Some(
                    IssueView {
                        severity: Severity::Warning,
                        code: "INDEX_DIVERGENCE"@,
                        item: None,
                        message: "index differs from files ("@ + text::decimal(changes as nat)
                            + " change(s)); run `clove reindex`"@,
                        fixable: true,
                    },
                )
            },
        },
        IndexState::SchemaMismatch { found, expected } => Some(
            IssueView {
                severity: Severity::Warning,
                code: "INDEX_SCHEMA_MISMATCH"@,
                item: None,
                message: "index schema is v"@ + text::decimal(found as nat)
                    + " but this clove expects v"@ + text::decimal(expected as nat)
                    + "; run `clove reindex`"@,
                fixable: true,
            },
        ),
        IndexState::Corrupt(msg) => Some(corrupt(msg@)),
        IndexState::Unreadable => Some(
            IssueView {
                severity: Severity::Warning,
                code: "INDEX_UNREADABLE"@,
                item: None,
                message: "index is unreadable; run `clove reindex`"@,
                fixable: true,
            },
        ),
    }
}

fn corrupt_issue(detail: &str) -> (r: DoctorIssue)
    ensures
        r.deep_view() == corrupt(detail@),
{
    issue(
        Severity::Error,
        "INDEX_CORRUPT",
        text::cat3("index is corrupt (", detail, "); run `clove reindex`"),
        true,
    )
}

/// The finding on the index.
pub fn index_checks(state: &IndexState) -> (r: Option<DoctorIssue>)
    ensures
        r.deep_view() == index_finding(*state),
{
    match state {
        IndexState::Opened { fault, changes } => match fault {
            Some(reason) => Some(corrupt_issue(reason.as_str())),
            None => if *changes == 0 {
                None
            } else {
                let n = text::decimal_of(*changes);
                Some(
                    issue(
                        Severity::Warning,
                        "INDEX_DIVERGENCE",
                        text::cat3(
                            "index differs from files (",
                            n.as_str(),
                            " change(s)); run `clove reindex`",
                        ),
                        true,
                    ),
                )
            },
        },
        IndexState::SchemaMismatch { found, expected } => {
            let f = text::decimal_of(*found);
            let e = text::decimal_of(*expected);
            Some(
                issue(
                    Severity::Warning,
                    "INDEX_SCHEMA_MISMATCH",
                    text::cat5(
                        "index schema is v",
                        f.as_str(),
                        " but this clove expects v",
                        e.as_str(),
                        "; run `clove reindex`",
                    ),
                    true,
                ),
            )
        },
        IndexState::Corrupt(msg) => Some(corrupt_issue(msg.as_str())),
        IndexState::Unreadable => Some(
            issue(
                Severity::Warning,
                "INDEX_UNREADABLE",
                "index is unreadable; run `clove reindex`".to_owned(),
                true,
            ),
        ),
    }
}

// ---- The daemon ---------------------------------------------------------------

/// The state of the daemon's footprint.
#[derive(Debug, Clone, Copy, PartialEq, Eq, Structural)]
pub enum DaemonHealth {
    Absent,
    Healthy,
    /// Its files are there and its process is gone.
    Dead,
    /// It is alive and speaks another protocol version.
    Incompatible,
}

/// The finding on the daemon. The files of a dead one may be removed; a live one is never
/// touched.
pub open spec fn daemon_finding(health: DaemonHealth) -> Option<IssueView> {
    match health {
        DaemonHealth::Absent | DaemonHealth::Healthy => None,
        DaemonHealth::Dead => Some(
            IssueView {
                severity: Severity::Warning,
                code: "DAEMON_STALE_SOCKET"@,
                item: None,
                message: "stale daemon socket/pid from a crashed daemon in the runtime directory; run `clove doctor --fix` to remove them"@,
                fixable: true,
            },
        ),
        DaemonHealth::Incompatible => Some(
            IssueView {
                severity: Severity::Warning,
                code: "DAEMON_VERSION_SKEW"@,
                item: None,
                message: "a running daemon speaks an incompatible protocol version (likely an old `cloved` from before a `clove` upgrade); run `clove daemon stop --all` then start it again"@,
                fixable: false,
            },
        ),
    }
}

/// Maps the state of a daemon's footprint to a finding.
pub fn daemon_issue(health: DaemonHealth) -> (r: Option<DoctorIssue>)
    ensures
        r.deep_view() == daemon_finding(health),
{
    match health {
        DaemonHealth::Absent => None,
        DaemonHealth::Healthy => None,
        DaemonHealth::Dead => Some(
            issue(
                Severity::Warning,
                "DAEMON_STALE_SOCKET",
                "stale daemon socket/pid from a crashed daemon in the runtime directory; run `clove doctor --fix` to remove them".to_owned(),
                true,
            ),
        ),
        DaemonHealth::Incompatible => Some(
            issue(
                Severity::Warning,
                "DAEMON_VERSION_SKEW",
                "a running daemon speaks an incompatible protocol version (likely an old `cloved` from before a `clove` upgrade); run `clove daemon stop --all` then start it again".to_owned(),
                false,
            ),
        ),
    }
}

/// The finding on an old daemon of this project: one that is alive keeps the current one
/// from serving the project, and what a dead one left may be removed.
pub open spec fn legacy_finding(sock: bool, pid_file: bool, alive: Option<u32>) -> Option<IssueView> {
    if !sock && !pid_file {
        None
    } else {
        match alive {
            Some(pid) => Some(
                IssueView {
                    severity: Severity::Warning,
                    code: "DAEMON_LEGACY"@,
                    item: None,
                    message: "a clove 0.1.0 daemon (pid "@ + text::decimal(pid as nat)
                        + ") still serves this project, so the current daemon cannot; run `clove daemon stop` to stop it"@,
                    fixable: false,
                },
            ),
            None => Some(
                IssueView {
                    severity: Severity::Warning,
                    code: "DAEMON_STALE_SOCKET"@,
                    item: None,
                    message: "stale daemon socket/pid in .clove/ from a crashed clove 0.1.0 daemon; run `clove doctor --fix` to remove them"@,
                    fixable: true,
                },
            ),
        }
    }
}

/// Maps an old daemon's footprint in `.clove/` to a finding. `alive` is its process, if it
/// answers.
pub fn legacy_daemon_issue(sock: bool, pid_file: bool, alive: Option<u32>) -> (r: Option<
    DoctorIssue,
>)
    ensures
        r.deep_view() == legacy_finding(sock, pid_file, alive),
{
    if !sock && !pid_file {
        return None;
    }
    match alive {
        Some(pid) => {
            let p = text::decimal_of(pid as u64);
            Some(
                issue(
                    Severity::Warning,
                    "DAEMON_LEGACY",
                    text::cat3(
                        "a clove 0.1.0 daemon (pid ",
                        p.as_str(),
                        ") still serves this project, so the current daemon cannot; run `clove daemon stop` to stop it",
                    ),
                    false,
                ),
            )
        },
        None => Some(
            issue(
                Severity::Warning,
                "DAEMON_STALE_SOCKET",
                "stale daemon socket/pid in .clove/ from a crashed clove 0.1.0 daemon; run `clove doctor --fix` to remove them".to_owned(),
                true,
            ),
        ),
    }
}

/// A daemon that is alive is never cleaned up, not even with `--fix`.
pub proof fn law_a_live_daemon_is_never_removed(
    health: DaemonHealth,
    sock: bool,
    pid_file: bool,
    alive: Option<u32>,
)
    ensures
        health == DaemonHealth::Incompatible ==> (daemon_finding(health) matches Some(i)
            && !i.fixable),
        health == DaemonHealth::Healthy ==> daemon_finding(health) is None,
        alive is Some ==> (legacy_finding(sock, pid_file, alive) matches Some(i) ==> !i.fixable),
{
}

// ---- The report ---------------------------------------------------------------

/// The findings so far.
#[derive(Debug, PartialEq, Eq)]
pub struct DoctorReport {
    /// How many items were looked at.
    pub checked: usize,
    pub issues: Vec<DoctorIssue>,
    /// How many findings were repaired.
    pub fixed: usize,
}

/// How many of the findings have this severity.
pub open spec fn count_of(issues: Seq<IssueView>, severity: Severity) -> int
    decreases issues.len(),
{
    if issues.len() == 0 {
        0
    } else {
        count_of(issues.drop_last(), severity) + (if issues.last().severity == severity {
            1int
        } else {
            0
        })
    }
}

fn count(issues: &Vec<DoctorIssue>, severity: Severity) -> (r: usize)
    ensures
        r == count_of(issues.deep_view(), severity),
{
    let ghost all = issues.deep_view();
    let mut n: usize = 0;
    let mut i: usize = 0;
    assert(count_of(all.take(0), severity) == 0);
    while i < issues.len()
        invariant
            i <= issues.len(),
            all == issues.deep_view(),
            n <= i,
            n == count_of(all.take(i as int), severity),
        decreases issues.len() - i,
    {
        assert(all.take(i + 1).drop_last() =~= all.take(i as int));
        assert(all[i as int] == issues@[i as int].deep_view());
        if issues[i].severity == severity {
            n += 1;
        }
        i += 1;
    }
    assert(all.take(i as int) =~= all);
    n
}

impl DoctorReport {
    /// How many errors were found.
    pub fn errors(&self) -> (r: usize)
        ensures
            r == count_of(self.issues.deep_view(), Severity::Error),
    {
        count(&self.issues, Severity::Error)
    }

    /// How many warnings were found.
    pub fn warnings(&self) -> (r: usize)
        ensures
            r == count_of(self.issues.deep_view(), Severity::Warning),
    {
        count(&self.issues, Severity::Warning)
    }

    /// Takes a finding in. With `--fix` one that may be repaired counts as repaired, and
    /// the caller does it (`true`); any other is reported.
    pub fn absorb(&mut self, finding: Option<DoctorIssue>, fix: bool) -> (repair: bool)
        requires
            old(self).fixed < usize::MAX,
        ensures
            repair == (finding matches Some(i) && fix && i.fixable),
            final(self).checked == old(self).checked,
            final(self).fixed == old(self).fixed + (if repair {
                1int
            } else {
                0
            }),
            final(self).issues.deep_view() == (if finding is Some && !repair {
                old(self).issues.deep_view().push(finding->0.deep_view())
            } else {
                old(self).issues.deep_view()
            }),
    {
        match finding {
            Some(i) => {
                if fix && i.fixable {
                    self.fixed = self.fixed + 1;
                    true
                } else {
                    let ghost before = self.issues.deep_view();
                    let ghost view = i.deep_view();
                    self.issues.push(i);
                    assert(self.issues.deep_view() =~= before.push(view));
                    false
                }
            },
            None => false,
        }
    }
}

/// The object of a finding.
pub open spec fn issue_object(i: IssueView) -> JsonView {
    obj(
        seq![
            ("severity"@, JsonView::Text(i.severity.word())),
            ("code"@, JsonView::Text(i.code)),
            ("item"@, text_or_null(i.item)),
            ("message"@, JsonView::Text(i.message)),
            ("fixable"@, JsonView::Bool(i.fixable)),
        ],
    )
}

fn issue_json(i: &DoctorIssue) -> (r: Json)
    ensures
        r.shape() == issue_object(i.deep_view()),
{
    let v: Vec<(String, Json)> = vec![
        ("severity".to_owned(), string(i.severity.as_str())),
        ("code".to_owned(), string(i.code.as_str())),
        ("item".to_owned(), string_or_null(borrowed(&i.item))),
        ("message".to_owned(), string(i.message.as_str())),
        ("fixable".to_owned(), Json::Bool(i.fixable)),
    ];
    assert(pairs(v@) =~= seq![
        ("severity"@, JsonView::Text(i.severity.word())),
        ("code"@, JsonView::Text(i.code@)),
        ("item"@, text_or_null(i.item.deep_view())),
        ("message"@, JsonView::Text(i.message@)),
        ("fixable"@, JsonView::Bool(i.fixable)),
    ]);
    object(v)
}

/// The data of a report.
pub open spec fn report_object(issues: Seq<IssueView>, checked: int, fixed: int) -> JsonView {
    obj(
        seq![
            (
                "issues"@,
                JsonView::Array(Seq::new(issues.len(), |i: int| issue_object(issues[i]))),
            ),
            (
                "summary"@,
                obj(
                    seq![
                        ("errors"@, num(count_of(issues, Severity::Error))),
                        ("warnings"@, num(count_of(issues, Severity::Warning))),
                        ("fixed"@, num(fixed)),
                        ("checked"@, num(checked)),
                    ],
                ),
            ),
        ],
    )
}

/// The line of a finding.
pub open spec fn issue_told(i: IssueView) -> Seq<char> {
    i.severity.word() + ": ["@ + i.code + "] "@ + i.message + (match i.item {
        Some(item) => " ("@ + item + ")"@,
        None => Seq::empty(),
    })
}

fn issue_line(i: &DoctorIssue) -> (r: String)
    ensures
        r@ == issue_told(i.deep_view()),
{
    let mut line = text::cat5(
        i.severity.as_str(),
        ": [",
        i.code.as_str(),
        "] ",
        i.message.as_str(),
    );
    let ghost head = line@;
    match &i.item {
        Some(item) => {
            let tail = text::cat3(" (", item.as_str(), ")");
            line.append(tail.as_str());
        },
        None => {
            assert(head + Seq::<char>::empty() =~= head);
        },
    }
    line
}

/// The last line of a report.
pub open spec fn summary_told(issues: Seq<IssueView>, checked: int, fixed: int) -> Seq<char> {
    "checked "@ + text::decimal(checked as nat) + ", "@ + text::decimal(
        count_of(issues, Severity::Error) as nat,
    ) + " error(s), "@ + text::decimal(count_of(issues, Severity::Warning) as nat)
        + " warning(s), "@ + text::decimal(fixed as nat) + " fixed"@
}

/// What a report prints.
pub open spec fn report_output(
    format: OutputFormat,
    issues: Seq<IssueView>,
    checked: int,
    fixed: int,
) -> Seq<OutView> {
    if format == OutputFormat::Human {
        Seq::new(issues.len(), |i: int| OutView::Text(issue_told(issues[i]))).push(
            OutView::Text(summary_told(issues, checked, fixed)),
        )
    } else {
        seq![
            OutView::Json(
                success(report_object(issues, checked, fixed), warnings_meta(Seq::empty())),
            ),
        ]
    }
}

impl DoctorReport {
    /// Renders the report.
    pub fn emit(&self, format: OutputFormat) -> (r: Vec<Out>)
        ensures
            r.deep_view() == report_output(
                format,
                self.issues.deep_view(),
                self.checked as int,
                self.fixed as int,
            ),
    {
        let ghost all = self.issues.deep_view();
        let errors = self.errors();
        let warnings = self.warnings();
        let mut out: Vec<Out> = Vec::new();
        match format {
            OutputFormat::Human => {
                let mut i: usize = 0;
                while i < self.issues.len()
                    invariant
                        i <= self.issues.len(),
                        all == self.issues.deep_view(),
                        out.len() == i,
                        forall|j: int|
                            0 <= j < i ==> (#[trigger] out@[j]).deep_view() == OutView::Text(
                                issue_told(all[j]),
                            ),
                    decreases self.issues.len() - i,
                {
                    assert(all[i as int] == self.issues@[i as int].deep_view());
                    out.push(Out::Text(issue_line(&self.issues[i])));
                    i += 1;
                }
                let c = text::decimal_of(self.checked as u64);
                let e = text::decimal_of(errors as u64);
                let w = text::decimal_of(warnings as u64);
                let f = text::decimal_of(self.fixed as u64);
                let mut line = text::cat7(
                    "checked ",
                    c.as_str(),
                    ", ",
                    e.as_str(),
                    " error(s), ",
                    w.as_str(),
                    " warning(s), ",
                );
                line.append(f.as_str());
                line.append(" fixed");
                out.push(Out::Text(line));
                assert(out.deep_view() =~= report_output(
                    format,
                    all,
                    self.checked as int,
                    self.fixed as int,
                ));
            },
            _ => {
                let mut items: Vec<Json> = Vec::new();
                let mut i: usize = 0;
                while i < self.issues.len()
                    invariant
                        i <= self.issues.len(),
                        all == self.issues.deep_view(),
                        items.len() == i,
                        forall|j: int|
                            0 <= j < i ==> (#[trigger] items@[j]).shape() == issue_object(all[j]),
                    decreases self.issues.len() - i,
                {
                    assert(all[i as int] == self.issues@[i as int].deep_view());
                    items.push(issue_json(&self.issues[i]));
                    i += 1;
                }
                proof {
                    crate::json::lemma_array_shape(items);
                    assert(items.deep_view() =~= Seq::new(all.len(), |i: int| issue_object(all[i])));
                }
                let ghost array = Json::Array(items).shape();
                let s: Vec<(String, Json)> = vec![
                    ("errors".to_owned(), number(errors as u64)),
                    ("warnings".to_owned(), number(warnings as u64)),
                    ("fixed".to_owned(), number(self.fixed as u64)),
                    ("checked".to_owned(), number(self.checked as u64)),
                ];
                assert(pairs(s@) =~= seq![
                    ("errors"@, num(count_of(all, Severity::Error))),
                    ("warnings"@, num(count_of(all, Severity::Warning))),
                    ("fixed"@, num(self.fixed as int)),
                    ("checked"@, num(self.checked as int)),
                ]);
                let summary = object(s);
                let ghost sum = summary.shape();
                let v: Vec<(String, Json)> = vec![
                    ("issues".to_owned(), Json::Array(items)),
                    ("summary".to_owned(), summary),
                ];
                assert(pairs(v@) =~= seq![("issues"@, array), ("summary"@, sum)]);
                out.push(Out::Json(success_envelope(object(v), meta_without_warnings())));
                assert(out.deep_view() =~= report_output(
                    format,
                    all,
                    self.checked as int,
                    self.fixed as int,
                ));
            },
        }
        out
    }

    /// The exit code: with `--strict` an error that remains is a validation failure.
    pub fn exit(&self, strict: bool) -> (r: ExitCode)
        ensures
            r == (if strict && count_of(self.issues.deep_view(), Severity::Error) > 0 {
                ExitCode::Validation
            } else {
                ExitCode::Success
            }),
    {
        if strict && self.errors() > 0 {
            ExitCode::Validation
        } else {
            ExitCode::Success
        }
    }
}

/// An issue is told with how bad it is, what it is, of which item, and whether it can be fixed.
pub proof fn law_an_issue_is_told_whole(i: IssueView)
    ensures
        issue_object(i).member("severity"@) == Some(JsonView::Text(i.severity.word())),
        issue_object(i).member("code"@) == Some(JsonView::Text(i.code)),
        issue_object(i).member("item"@) == Some(text_or_null(i.item)),
        issue_object(i).member("message"@) == Some(JsonView::Text(i.message)),
        issue_object(i).member("fixable"@) == Some(JsonView::Bool(i.fixable)),
{
    reveal_strlit("severity");
    reveal_strlit("code");
    reveal_strlit("item");
    reveal_strlit("message");
    reveal_strlit("fixable");
    let p = seq![
        ("severity"@, JsonView::Text(i.severity.word())),
        ("code"@, JsonView::Text(i.code)),
        ("item"@, text_or_null(i.item)),
        ("message"@, JsonView::Text(i.message)),
        ("fixable"@, JsonView::Bool(i.fixable)),
    ];
    assert(issue_object(i) == obj(p));
    assert(p[0].0 == "severity"@ && p[1].0 == "code"@ && p[2].0 == "item"@ && p[3].0 == "message"@ && p[4].0 == "fixable"@);
    assert("code"@[0] != "item"@[0]);
    assert("message"@[0] != "fixable"@[0]);
    assert forall|k: int, j: int| 0 <= k < j < p.len() implies (#[trigger] p[k]).0 != (
    #[trigger] p[j]).0 by {
        assert(k == 0 || k == 1 || k == 2 || k == 3);
        assert(j == 1 || j == 2 || j == 3 || j == 4);
    }
    law_distinct_pairs_are_members(p);
}

/// How many issues there are of a severity: none is counted of a report without any, one more
/// for each issue of it, and none for another.
pub proof fn law_every_issue_is_counted_once(issues: Seq<IssueView>, i: IssueView, severity: Severity)
    ensures
        count_of(Seq::empty(), severity) == 0,
        count_of(issues.push(i), severity) == count_of(issues, severity) + (if i.severity
            == severity {
            1int
        } else {
            0
        }),
        count_of(issues, Severity::Error) + count_of(issues, Severity::Warning) == issues.len(),
    decreases issues.len(),
{
    assert(issues.push(i).drop_last() =~= issues);
    if issues.len() > 0 {
        law_every_issue_is_counted_once(issues.drop_last(), i, severity);
    }
}

/// A report shows every issue, in its order, and counts errors, warnings, repairs and what was
/// checked, each under its own key.
pub proof fn law_a_report_shows_every_issue(
    issues: Seq<IssueView>,
    checked: int,
    fixed: int,
    k: int,
)
    ensures
        report_output(OutputFormat::Human, issues, checked, fixed).len() == issues.len() + 1,
        0 <= k < issues.len() ==> (report_output(OutputFormat::Human, issues, checked, fixed)[k]
            matches OutView::Text(s) && text::begins(
            s,
            issues[k].severity.word() + ": ["@ + issues[k].code + "] "@ + issues[k].message,
        ) && (issues[k].item matches Some(item) ==> text::ends(s, "("@ + item + ")"@))),
        report_output(OutputFormat::Json, issues, checked, fixed)[0] matches OutView::Json(v)
            && (v.member("data"@) matches Some(d) && {
            &&& d.member("issues"@) matches Some(JsonView::Array(all)) && all.len() == issues.len()
                && (0 <= k < issues.len() ==> all[k] == issue_object(issues[k]))
            &&& d.member("summary"@) matches Some(s) && s.member("errors"@) == Some(
                num(count_of(issues, Severity::Error)),
            ) && s.member("warnings"@) == Some(num(count_of(issues, Severity::Warning)))
                && s.member("fixed"@) == Some(num(fixed)) && s.member("checked"@) == Some(
                num(checked),
            )
        }),
{
    let list = JsonView::Array(Seq::new(issues.len(), |i: int| issue_object(issues[i])));
    let summary = obj(
        seq![
            ("errors"@, num(count_of(issues, Severity::Error))),
            ("warnings"@, num(count_of(issues, Severity::Warning))),
            ("fixed"@, num(fixed)),
            ("checked"@, num(checked)),
        ],
    );
    let data = report_object(issues, checked, fixed);
    law_a_success_carries_its_data(data, warnings_meta(Seq::empty()));
    reveal_strlit("errors");
    reveal_strlit("warnings");
    reveal_strlit("fixed");
    reveal_strlit("checked");
    let p = seq![
        ("errors"@, num(count_of(issues, Severity::Error))),
        ("warnings"@, num(count_of(issues, Severity::Warning))),
        ("fixed"@, num(fixed)),
        ("checked"@, num(checked)),
    ];
    assert(summary == obj(p));
    assert(p[0].0 == "errors"@ && p[1].0 == "warnings"@ && p[2].0 == "fixed"@ && p[3].0 == "checked"@);
    law_distinct_pairs_are_members(p);
    reveal_strlit("issues");
    reveal_strlit("summary");
    let q = seq![
        ("issues"@, list),
        ("summary"@, summary),
    ];
    assert(data == obj(q));
    assert(q[0].0 == "issues"@ && q[1].0 == "summary"@);
    law_distinct_pairs_are_members(q);
    if 0 <= k < issues.len() {
        let i = issues[k];
        let front = i.severity.word() + ": ["@ + i.code + "] "@ + i.message;
        let s = issue_told(i);
        assert(s.take(front.len() as int) =~= front);
        if let Some(item) = i.item {
            reveal_strlit(" (");
            reveal_strlit("(");
            let back = "("@ + item + ")"@;
            assert(s.skip(s.len() - back.len()) =~= back);
        }
    }
}

/// The summary shows each number in front of what it counts.
pub proof fn law_a_summary_counts_each_kind(issues: Seq<IssueView>, checked: int, fixed: int)
    ensures
        text::occurs(summary_told(issues, checked, fixed), "checked "@ + text::decimal(checked as nat)),
        text::occurs(summary_told(issues, checked, fixed), text::decimal(count_of(issues, Severity::Error) as nat) + " error(s), "@),
        text::occurs(summary_told(issues, checked, fixed), text::decimal(count_of(issues, Severity::Warning) as nat) + " warning(s), "@),
        text::occurs(summary_told(issues, checked, fixed), text::decimal(fixed as nat) + " fixed"@),
{
    assert(summary_told(issues, checked, fixed) =~= (Seq::<char>::empty()) + ("checked "@ + text::decimal(checked as nat)) + (", "@ + text::decimal(count_of(issues, Severity::Error) as nat) + " error(s), "@ + text::decimal(count_of(issues, Severity::Warning) as nat) + " warning(s), "@ + text::decimal(fixed as nat) + " fixed"@));
    text::lemma_occurs_between(Seq::<char>::empty(), "checked "@ + text::decimal(checked as nat), ", "@ + text::decimal(count_of(issues, Severity::Error) as nat) + " error(s), "@ + text::decimal(count_of(issues, Severity::Warning) as nat) + " warning(s), "@ + text::decimal(fixed as nat) + " fixed"@);
    assert(summary_told(issues, checked, fixed) =~= ("checked "@ + text::decimal(checked as nat) + ", "@) + (text::decimal(count_of(issues, Severity::Error) as nat) + " error(s), "@) + (text::decimal(count_of(issues, Severity::Warning) as nat) + " warning(s), "@ + text::decimal(fixed as nat) + " fixed"@));
    text::lemma_occurs_between("checked "@ + text::decimal(checked as nat) + ", "@, text::decimal(count_of(issues, Severity::Error) as nat) + " error(s), "@, text::decimal(count_of(issues, Severity::Warning) as nat) + " warning(s), "@ + text::decimal(fixed as nat) + " fixed"@);
    assert(summary_told(issues, checked, fixed) =~= ("checked "@ + text::decimal(checked as nat) + ", "@ + text::decimal(count_of(issues, Severity::Error) as nat) + " error(s), "@) + (text::decimal(count_of(issues, Severity::Warning) as nat) + " warning(s), "@) + (text::decimal(fixed as nat) + " fixed"@));
    text::lemma_occurs_between("checked "@ + text::decimal(checked as nat) + ", "@ + text::decimal(count_of(issues, Severity::Error) as nat) + " error(s), "@, text::decimal(count_of(issues, Severity::Warning) as nat) + " warning(s), "@, text::decimal(fixed as nat) + " fixed"@);
    assert(summary_told(issues, checked, fixed) =~= ("checked "@ + text::decimal(checked as nat) + ", "@ + text::decimal(count_of(issues, Severity::Error) as nat) + " error(s), "@ + text::decimal(count_of(issues, Severity::Warning) as nat) + " warning(s), "@) + (text::decimal(fixed as nat) + " fixed"@) + (Seq::<char>::empty()));
    text::lemma_occurs_between("checked "@ + text::decimal(checked as nat) + ", "@ + text::decimal(count_of(issues, Severity::Error) as nat) + " error(s), "@ + text::decimal(count_of(issues, Severity::Warning) as nat) + " warning(s), "@, text::decimal(fixed as nat) + " fixed"@, Seq::<char>::empty());
}

/// An index that opens without fault and agrees with the files is no finding; any other state
/// is one that can be fixed, and only a corrupt index is an error.
pub proof fn law_a_sound_index_is_no_finding(state: IndexState)
    ensures
        index_finding(state) is None <==> (state matches IndexState::Opened { fault, changes }
            && fault is None && changes == 0),
        index_finding(state) matches Some(i) ==> i.fixable && i.item is None,
        index_finding(state) matches Some(i) ==> (i.severity == Severity::Error <==> (state
            is Corrupt || (state matches IndexState::Opened { fault, .. } && fault is Some))),
{
}

/// A daemon that is absent or healthy is no finding; one that crashed leaves what can be
/// removed, and one that runs is only told of.
pub proof fn law_only_a_crashed_daemon_is_cleaned_up(
    health: DaemonHealth,
    sock: bool,
    pid_file: bool,
    alive: Option<u32>,
)
    ensures
        daemon_finding(health) is None <==> health == DaemonHealth::Absent || health
            == DaemonHealth::Healthy,
        daemon_finding(health) matches Some(i) ==> (i.fixable <==> health == DaemonHealth::Dead),
        legacy_finding(sock, pid_file, alive) is None <==> !sock && !pid_file,
        legacy_finding(sock, pid_file, alive) matches Some(i) ==> (i.fixable <==> alive is None),
        daemon_finding(health) matches Some(i) ==> i.severity == Severity::Warning,
        legacy_finding(sock, pid_file, alive) matches Some(i) ==> i.severity == Severity::Warning,
{
}

} // verus!
