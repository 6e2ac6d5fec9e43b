//! `clove reindex`: rebuild the index from the files.

use vstd::prelude::*;

use crate::cmd::ready::{warned, warning_notes};
use crate::cmd::plugin::push_lines;
use crate::error::{CloveError, ErrorView};
use crate::json::{law_distinct_pairs_are_members, num, number, obj, object, strings, texts, Json};
use crate::output::{
    law_a_success_carries_its_data, meta_with_warnings, pairs, success, success_envelope,
    warnings_meta, Out, OutView, OutputFormat,
};
use crate::text;

verus! {

/// How long a rebuild waits for one that is already running, in milliseconds.
pub const REBUILD_WAIT_MS: u64 = 120_000;

/// How long it sleeps between two tries, in milliseconds.
pub const REBUILD_POLL_MS: u64 = 100;

/// What a rebuild did, whoever did it.
#[derive(Debug, PartialEq, Eq)]
pub struct Report {
    pub items_indexed: u64,
    pub duration_ms: u64,
    pub warnings: Vec<String>,
}

/// What is printed of a rebuild.
pub open spec fn reindex_output(
    format: OutputFormat,
    items: int,
    duration: int,
    warnings: Seq<Seq<char>>,
    quiet: bool,
) -> Seq<OutView> {
    if format == OutputFormat::Human {
        if quiet {
            Seq::empty()
        } else {
            seq![
                OutView::Text(
                    "indexed "@ + text::decimal(items as nat) + " item(s) in "@ + text::decimal(
                        duration as nat,
                    ) + " ms"@,
                ),
            ] + warned(warnings)
        }
    } else {
        seq![
            OutView::Json(
                success(
                    obj(
                        seq![
                            ("items_indexed"@, num(items)),
                            ("duration_ms"@, num(duration)),
                            ("warnings"@, texts(warnings)),
                        ],
                    ),
                    warnings_meta(warnings),
                ),
            ),
        ]
    }
}

/// Renders a rebuild.
pub fn run(format: OutputFormat, report: &Report, quiet: bool) -> (r: Vec<Out>)
    ensures
        r.deep_view() == reindex_output(
            format,
            report.items_indexed as int,
            report.duration_ms as int,
            report.warnings.deep_view(),
            quiet,
        ),
{
    let mut out: Vec<Out> = Vec::new();
    assert(out.deep_view() =~= Seq::<OutView>::empty());
    match format {
        OutputFormat::Human => {
            if !quiet {
                let n = text::decimal_of(report.items_indexed);
                let d = text::decimal_of(report.duration_ms);
                let line = Out::Text(
                    text::cat5("indexed ", n.as_str(), " item(s) in ", d.as_str(), " ms"),
                );
                let ghost view = line.deep_view();
                out.push(line);
                assert(out.deep_view() =~= seq![view]);
                push_lines(&mut out, warning_notes(&report.warnings));
            }
        },
        _ => {
            let v: Vec<(String, Json)> = vec![
                ("items_indexed".to_owned(), number(report.items_indexed)),
                ("duration_ms".to_owned(), number(report.duration_ms)),
                ("warnings".to_owned(), strings(&report.warnings)),
            ];
            assert(pairs(v@) =~= seq![
                ("items_indexed"@, num(report.items_indexed as int)),
                ("duration_ms"@, num(report.duration_ms as int)),
                ("warnings"@, texts(report.warnings.deep_view())),
            ]);
            let line = Out::Json(
                success_envelope(object(v), meta_with_warnings(&report.warnings)),
            );
            let ghost view = line.deep_view();
            out.push(line);
            assert(out.deep_view() =~= seq![view]);
        },
    }
    out
}

/// What asking the daemon to rebuild came to.
#[derive(Debug, PartialEq, Eq)]
pub enum DaemonReindex {
    /// There is none.
    Absent,
    Done(Report),
    /// It went away during the call.
    Stopped,
    Failed,
}

/// What is said when a daemon goes away: its rebuild may still be finishing.
pub open spec fn stopped_note(attempt: DaemonReindex, quiet: bool) -> Seq<OutView> {
    if attempt is Stopped && !quiet {
        seq![
            OutView::Note(
                "note: the daemon stopped during the reindex; rebuilding here once its rebuild has finished"@,
            ),
        ]
    } else {
        Seq::empty()
    }
}

/// What comes of the daemon's attempt: its report, or a rebuild here.
pub fn after_daemon(attempt: DaemonReindex, quiet: bool) -> (r: (Option<Report>, Vec<Out>))
    ensures
        r.0 == (match attempt {
            DaemonReindex::Done(report) => Some(report),
            _ => None,
        }),
        r.1.deep_view() == stopped_note(attempt, quiet),
{
    let mut out: Vec<Out> = Vec::new();
    match attempt {
        DaemonReindex::Done(report) => {
            assert(out.deep_view() =~= Seq::<OutView>::empty());
            (Some(report), out)
        },
        DaemonReindex::Stopped => {
            if !quiet {
                out.push(
                    Out::Note(
                        "note: the daemon stopped during the reindex; rebuilding here once its rebuild has finished".to_owned(),
                    ),
                );
            }
            assert(out.deep_view() =~= stopped_note(DaemonReindex::Stopped, quiet));
            (None, out)
        },
        DaemonReindex::Absent => {
            assert(out.deep_view() =~= Seq::<OutView>::empty());
            (None, out)
        },
        DaemonReindex::Failed => {
            assert(out.deep_view() =~= Seq::<OutView>::empty());
            (None, out)
        },
    }
}

/// The error of a rebuild that waited too long.
pub open spec fn still_running(db_path: Seq<char>) -> ErrorView {
    ErrorView::Io {
        path: db_path,
        source: "another rebuild of this index (a daemon's, or another `clove reindex`) has been running for over 120s; try again once it has finished"@,
    }
}

/// What a rebuild does when another one is running: it tries again (`None`) until the wait
/// is over, then gives up.
pub fn busy(elapsed_ms: u64, db_path: &str) -> (r: Option<CloveError>)
    ensures
        match r {
            None => elapsed_ms < REBUILD_WAIT_MS,
            Some(e) => elapsed_ms >= REBUILD_WAIT_MS && e.deep_view() == still_running(db_path@),
        },
{
    if elapsed_ms < REBUILD_WAIT_MS {
        None
    } else {
        Some(
            CloveError::Io {
                path: db_path.to_owned(),
                source: "another rebuild of this index (a daemon's, or another `clove reindex`) has been running for over 120s; try again once it has finished".to_owned(),
            },
        )
    }
}

/// What a rebuild reports: how many items were indexed, how long it took, and what was wrong.
pub proof fn law_a_rebuild_reports_its_numbers(
    items: int,
    duration: int,
    warnings: Seq<Seq<char>>,
    k: int,
)
    ensures
        reindex_output(OutputFormat::Human, items, duration, warnings, false)[0] matches OutView::Text(
            s,
        ) && text::occurs(s, "indexed "@ + text::decimal(items as nat) + " item(s)"@)
            && text::occurs(s, " in "@ + text::decimal(duration as nat) + " ms"@),
        reindex_output(OutputFormat::Human, items, duration, warnings, false).len()
            == warnings.len() + 1,
        0 <= k < warnings.len() ==> reindex_output(
            OutputFormat::Human,
            items,
            duration,
            warnings,
            false,
        )[k + 1] == OutView::Note("warning: "@ + warnings[k]),
        reindex_output(OutputFormat::Human, items, duration, warnings, true).len() == 0,
        reindex_output(OutputFormat::Json, items, duration, warnings, true)[0] matches OutView::Json(
            v,
        ) && (v.member("data"@) matches Some(d) && d.member("items_indexed"@) == Some(num(items))
            && d.member("duration_ms"@) == Some(num(duration)) && d.member("warnings"@) == Some(
            texts(warnings),
        )),
{
    let data = obj(
        seq![
            ("items_indexed"@, num(items)),
            ("duration_ms"@, num(duration)),
            ("warnings"@, texts(warnings)),
        ],
    );
    law_a_success_carries_its_data(data, warnings_meta(warnings));
    reveal_strlit("items_indexed");
    reveal_strlit("duration_ms");
    reveal_strlit("warnings");
    let p = seq![
        ("items_indexed"@, num(items)),
        ("duration_ms"@, num(duration)),
        ("warnings"@, texts(warnings)),
    ];
    assert(data == obj(p));
    assert(p[0].0 == "items_indexed"@ && p[1].0 == "duration_ms"@ && p[2].0 == "warnings"@);
    law_distinct_pairs_are_members(p);
    let n = text::decimal(items as nat);
    let d = text::decimal(duration as nat);
    reveal_strlit(" item(s) in ");
    reveal_strlit(" item(s)");
    reveal_strlit(" in ");
    let s = "indexed "@ + n + " item(s) in "@ + d + " ms"@;
    let mid = " item(s)"@ + " in "@;
    assert(mid =~= " item(s) in "@);
    assert(s =~= ("indexed "@ + n + " item(s)"@) + (" in "@ + d + " ms"@));
    text::lemma_occurs_between(
        Seq::empty(),
        "indexed "@ + n + " item(s)"@,
        " in "@ + d + " ms"@,
    );
    text::lemma_occurs_between(
        "indexed "@ + n + " item(s)"@,
        " in "@ + d + " ms"@,
        Seq::empty(),
    );
}

/// That the daemon stopped during a rebuild is said, where anyone wants to hear it; nothing else
/// is.
pub proof fn law_a_stopped_daemon_is_told_of(attempt: DaemonReindex, quiet: bool)
    ensures
        stopped_note(attempt, quiet).len() == (if attempt is Stopped && !quiet {
            1int
        } else {
            0
        }),
        stopped_note(attempt, true).len() == 0,
{
}

} // verus!
