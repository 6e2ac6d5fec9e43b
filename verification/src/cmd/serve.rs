//! `clove serve`: the web UI of a repository.

use vstd::prelude::*;

use crate::error::{invalid, invalid_field, CloveError, ErrorView};
use crate::output::{Out, OutView};
use crate::text;

verus! {

/// How long a daemon that is starting is waited for, in milliseconds.
pub const HUB_WAIT_MS: u64 = 10_000;

/// How long is slept between two looks, in milliseconds.
pub const HUB_POLL_MS: u64 = 25;

/// What to do about a daemon that may be starting.
#[derive(Debug, Clone, Copy, PartialEq, Eq, Structural)]
pub enum HubWait {
    /// It is up: ask it.
    Ready,
    /// Look again.
    Again,
    /// There is none, or it never came up.
    GiveUp,
}

/// What a wait for a daemon comes to.
pub open spec fn hub_awaited(running: bool, reachable: bool, elapsed_ms: u64) -> HubWait {
    if reachable {
        HubWait::Ready
    } else if running && elapsed_ms < HUB_WAIT_MS {
        HubWait::Again
    } else {
        HubWait::GiveUp
    }
}

/// A daemon holds its lock before it can be reached, so one that is starting is given some
/// time rather than raced.
pub fn hub_wait(running: bool, reachable: bool, elapsed_ms: u64) -> (r: HubWait)
    ensures
        r == hub_awaited(running, reachable, elapsed_ms),
{
    if reachable {
        HubWait::Ready
    } else if running && elapsed_ms < HUB_WAIT_MS {
        HubWait::Again
    } else {
        HubWait::GiveUp
    }
}

/// The web UI that a daemon serves.
#[derive(Debug, PartialEq, Eq)]
pub struct Served {
    /// The port of its address, if that could be read.
    pub port: Option<u16>,
    pub url: String,
}

/// May the daemon's web UI stand in? An explicit `--port` must be the one it is on.
pub open spec fn stands_in(served: Option<Served>, port: Option<u16>) -> bool {
    served matches Some(s) && (port is None || s.port == port)
}

/// What is said about a daemon.
pub open spec fn daemon_notes(served: Option<Served>, port: Option<u16>, quiet: bool) -> Seq<
    OutView,
> {
    if quiet {
        Seq::empty()
    } else {
        match served {
            Some(s) => if stands_in(served, port) {
                seq![OutView::Note("clove web UI served by the running daemon: "@ + s.url@)]
            } else {
                Seq::empty()
            },
            None => seq![
                OutView::Note(
                    "note: the running daemon is not serving the web UI; starting a standalone server"@,
                ),
            ],
        }
    }
}

/// Decides whether a running daemon serves the UI (`true`), or a server of its own is
/// started.
pub fn hand_off(served: &Option<Served>, port: Option<u16>, quiet: bool) -> (r: (bool, Vec<Out>))
    ensures
        r.0 == stands_in(*served, port),
        r.1.deep_view() == daemon_notes(*served, port, quiet),
{
    let mut out: Vec<Out> = Vec::new();
    let yes = match served {
        Some(s) => match port {
            None => true,
            Some(p) => match s.port {
                Some(q) => p == q,
                None => false,
            },
        },
        None => false,
    };
    if !quiet {
        match served {
            Some(s) => {
                if yes {
                    out.push(
                        Out::Note(
                            text::cat2("clove web UI served by the running daemon: ", s.url.as_str()),
                        ),
                    );
                }
            },
            None => {
                out.push(
                    Out::Note(
                        "note: the running daemon is not serving the web UI; starting a standalone server".to_owned(),
                    ),
                );
            },
        }
    }
    assert(out.deep_view() =~= daemon_notes(*served, port, quiet));
    (yes, out)
}

/// Why an address is refused: it is none, or it is not a loopback one and that was not
/// permitted. `loopback` says what kind of address `host` is, if it is one.
pub open spec fn host_problem(host: Seq<char>, loopback: Option<bool>, permitted: bool) -> Option<
    ErrorView,
> {
    match loopback {
        None => Some(invalid_field("host"@, "not a valid IP address: "@ + host)),
        Some(l) => if !l && !permitted {
            Some(
                invalid_field(
                    "host"@,
                    "binding a non-loopback address requires --allow-non-loopback"@,
                ),
            )
        } else {
            None
        },
    }
}

/// What is said of an address that others can reach.
pub open spec fn exposure_note(ip: Seq<char>, loopback: bool, quiet: bool) -> Seq<OutView> {
    if !loopback && !quiet {
        seq![
            OutView::Note(
                "warning: serving on a non-loopback address ("@ + ip
                    + ") exposes write access with no authentication; use only on a trusted network"@,
            ),
        ]
    } else {
        Seq::empty()
    }
}

/// Checks the address to bind. `ip` is the address as it is written out.
pub fn check_host(
    host: &str,
    ip: &str,
    loopback: Option<bool>,
    permitted: bool,
    quiet: bool,
) -> (r: Result<Vec<Out>, CloveError>)
    ensures
        match r {
            Ok(out) => host_problem(host@, loopback, permitted) is None && out.deep_view()
                == exposure_note(ip@, loopback->0, quiet),
            Err(e) => host_problem(host@, loopback, permitted) == Some(e.deep_view()),
        },
{
    let local = match loopback {
        None => {
            return Err(invalid("host", text::cat2("not a valid IP address: ", host)));
        },
        Some(l) => l,
    };
    if !local && !permitted {
        return Err(
            invalid(
                "host",
                "binding a non-loopback address requires --allow-non-loopback".to_owned(),
            ),
        );
    }
    let mut out: Vec<Out> = Vec::new();
    if !local && !quiet {
        out.push(
            Out::Note(
                text::cat3(
                    "warning: serving on a non-loopback address (",
                    ip,
                    ") exposes write access with no authentication; use only on a trusted network",
                ),
            ),
        );
    }
    assert(out.deep_view() =~= exposure_note(ip@, local, quiet));
    Ok(out)
}

/// No address that others can reach is bound without permission.
pub proof fn law_only_loopback_is_served_by_default(host: Seq<char>, loopback: Option<bool>)
    ensures
        host_problem(host, loopback, false) is None ==> loopback == Some(true),
{
}

/// The port to ask for, and whether another may be taken instead: only the configured one
/// may.
pub fn requested_port(port: Option<u16>, configured: u16) -> (r: (u16, bool))
    ensures
        r == (match port {
            Some(p) => (p, false),
            None => (configured, true),
        }),
{
    match port {
        Some(p) => (p, false),
        None => (configured, true),
    }
}

/// What is said when the server is up.
pub open spec fn listening_notes(
    url: Seq<char>,
    requested: u16,
    actual: u16,
    explicit: bool,
    no_watch: bool,
    quiet: bool,
) -> Seq<OutView> {
    if quiet {
        Seq::empty()
    } else {
        (if !explicit && actual != requested {
            seq![
                OutView::Note(
                    "note: port "@ + text::decimal(requested as nat)
                        + " is in use; using a free port"@,
                ),
            ]
        } else {
            Seq::empty()
        }) + seq![OutView::Note("clove web UI: "@ + url)] + (if no_watch {
            seq![OutView::Note("  (file-watcher disabled — no live updates)"@)]
        } else {
            Seq::empty()
        }) + seq![OutView::Note("  press Ctrl-C to stop"@)]
    }
}

/// Says that the server is up.
pub fn listening(
    url: &str,
    requested: u16,
    actual: u16,
    explicit: bool,
    no_watch: bool,
    quiet: bool,
) -> (r: Vec<Out>)
    ensures
        r.deep_view() == listening_notes(url@, requested, actual, explicit, no_watch, quiet),
{
    let mut out: Vec<Out> = Vec::new();
    if !quiet {
        if !explicit && actual != requested {
            let p = text::decimal_of(requested as u64);
            out.push(
                Out::Note(
                    text::cat3("note: port ", p.as_str(), " is in use; using a free port"),
                ),
            );
        }
        out.push(Out::Note(text::cat2("clove web UI: ", url)));
        if no_watch {
            out.push(Out::Note("  (file-watcher disabled — no live updates)".to_owned()));
        }
        out.push(Out::Note("  press Ctrl-C to stop".to_owned()));
    }
    assert(out.deep_view() =~= listening_notes(url@, requested, actual, explicit, no_watch, quiet));
    out
}

/// A running daemon stands in for a server if it serves the page, on the port that was asked
/// for if one was; and it is said where.
pub proof fn law_the_daemon_stands_in_where_it_serves(served: Option<Served>, port: Option<u16>)
    ensures
        served is None ==> !stands_in(served, port),
        served is Some && port is None ==> stands_in(served, port),
        served matches Some(s) ==> (port is Some ==> (stands_in(served, port) <==> s.port == port)),
        served matches Some(s) ==> (stands_in(served, port) ==> (daemon_notes(
            served,
            port,
            false,
        ).len() == 1 && (daemon_notes(served, port, false)[0] matches OutView::Note(t) && text::ends(
            t,
            s.url@,
        )))),
        daemon_notes(served, port, true).len() == 0,
{
    if let Some(s) = served {
        let front = "clove web UI served by the running daemon: "@;
        assert((front + s.url@).skip(front.len() as int) =~= s.url@);
    }
}

/// An address that is none is refused; one that others can reach is served only when that was
/// permitted, and then with a warning that names it.
pub proof fn law_an_exposed_address_is_permitted_and_told(
    host: Seq<char>,
    ip: Seq<char>,
    permitted: bool,
)
    ensures
        host_problem(host, None, permitted) is Some,
        host_problem(host, Some(true), permitted) is None,
        host_problem(host, Some(false), permitted) is None <==> permitted,
        exposure_note(ip, false, false).len() == 1,
        exposure_note(ip, false, false)[0] matches OutView::Note(t) && text::occurs(t, ip),
        exposure_note(ip, true, false).len() == 0,
{
    text::lemma_occurs_between(
        "warning: serving on a non-loopback address ("@,
        ip,
        ") exposes write access with no authentication; use only on a trusted network"@,
    );
}

/// The address of the page is told, and that another port was taken if the wanted one was in
/// use and not insisted on.
pub proof fn law_where_the_page_is_is_told(
    url: Seq<char>,
    requested: u16,
    actual: u16,
    explicit: bool,
    no_watch: bool,
)
    ensures
        ({
            let notes = listening_notes(url, requested, actual, explicit, no_watch, false);
            &&& notes.contains(OutView::Note("clove web UI: "@ + url))
            &&& !explicit && actual != requested ==> (notes[0] matches OutView::Note(t)
                && text::occurs(t, "port "@ + text::decimal(requested as nat)))
            &&& notes.len() == 2 + (if !explicit && actual != requested {
                1int
            } else {
                0
            }) + (if no_watch {
                1int
            } else {
                0
            })
        }),
        listening_notes(url, requested, actual, explicit, no_watch, true).len() == 0,
{
    let notes = listening_notes(url, requested, actual, explicit, no_watch, false);
    let k: int = if !explicit && actual != requested {
        1
    } else {
        0
    };
    assert(notes[k] == OutView::Note("clove web UI: "@ + url));
    reveal_strlit("note: port ");
    reveal_strlit("port ");
    let n = text::decimal(requested as nat);
    let s = "note: port "@ + n + " is in use; using a free port"@;
    let front = "note: port "@.take(6);
    assert(front + "port "@ =~= "note: port "@);
    assert(s =~= front + ("port "@ + n) + " is in use; using a free port"@);
    text::lemma_occurs_between(front, "port "@ + n, " is in use; using a free port"@);
}

/// A daemon that can be reached is ready, however long it took; one that runs is given its
/// time; where none runs there is nothing to wait for.
pub proof fn law_a_starting_daemon_is_given_its_time(running: bool, elapsed_ms: u64)
    ensures
        hub_awaited(running, true, elapsed_ms) == HubWait::Ready,
        hub_awaited(false, false, elapsed_ms) == HubWait::GiveUp,
        elapsed_ms < HUB_WAIT_MS ==> hub_awaited(true, false, elapsed_ms) == HubWait::Again,
        elapsed_ms >= HUB_WAIT_MS ==> hub_awaited(true, false, elapsed_ms) == HubWait::GiveUp,
{
}

} // verus!
